//! Plain value-holder fields for document values: a numeric field storing
//! one sortable 64-bit integer, and a set field storing one binary value.

use vstd::prelude::*;
use vstd::string::StringExecFns;

verus! {

/// Kinds of document-values storage a field can declare.
#[derive(Copy, Clone, PartialEq, Eq, Structural)]
pub enum DocValuesType {
    /// No document values.
    Null,
    /// Sorted numeric per-document values.
    SortedNumeric,
    /// Sorted set of binary per-document values.
    SortedSet,
}

/// The payload a field carries.
pub enum VariantValue {
    /// A 64-bit integer.
    Long(i64),
    /// An opaque byte string.
    Binary(Vec<u8>),
}

/// A named field with a declared document-values kind and its payload.
pub struct Field {
    /// Field name.
    pub name: String,
    /// Declared document-values kind.
    pub doc_values_type: DocValuesType,
    /// The payload, if any.
    pub fields_data: Option<VariantValue>,
}

impl Field {
    /// A field with the given name, kind and payload.
    pub fn new(name: String, doc_values_type: DocValuesType, fields_data: Option<VariantValue>)
        -> (r: Field)
        ensures
            r.name@ == name@,
            r.doc_values_type == doc_values_type,
            r.fields_data == fields_data,
    {
        Field { name, doc_values_type, fields_data }
    }

    /// Field name.
    pub fn name(&self) -> (r: &String)
        ensures
            r@ == self.name@,
    {
        &self.name
    }

    /// The payload, if any.
    pub fn fields_data(&self) -> (r: &Option<VariantValue>)
        ensures
            r == self.fields_data,
    {
        &self.fields_data
    }
}

/// Field storing one sortable 64-bit integer as document value.
pub struct SortedNumericDocValuesField {
    /// The underlying field; its payload is always a `Long`.
    pub field: Field,
}

impl SortedNumericDocValuesField {
    /// The payload is a `Long` of the stored value.
    pub open spec fn wf(&self) -> bool {
        self.field.fields_data matches Some(VariantValue::Long(_))
            && self.field.doc_values_type == DocValuesType::SortedNumeric
    }

    /// The stored value.
    pub open spec fn spec_value(&self) -> int {
        self.field.fields_data->0->Long_0 as int
    }

    /// A sorted-numeric field named `name` holding `value`.
    pub fn new(name: &String, value: i64) -> (r: SortedNumericDocValuesField)
        ensures
            r.wf(),
            r.field.name@ == name@,
            r.spec_value() == value,
    {
        SortedNumericDocValuesField {
            field: Field::new(
                name.clone(),
                DocValuesType::SortedNumeric,
                Some(VariantValue::Long(value)),
            ),
        }
    }

    /// The stored numeric value.
    pub fn numeric_value(&self) -> (r: i64)
        requires
            self.wf(),
        ensures
            r == self.spec_value(),
    {
        match &self.field.fields_data {
            Some(VariantValue::Long(v)) => *v,
            _ => 0,
        }
    }

    /// Field name.
    pub fn name(&self) -> (r: &String)
        ensures
            r@ == self.field.name@,
    {
        self.field.name()
    }
}

/// Field storing one binary value in a sorted-set document-values column.
pub struct SortedSetDocValuesField {
    /// The underlying field; its payload is always a `Binary`.
    pub field: Field,
}

impl SortedSetDocValuesField {
    /// The payload is a `Binary` of the stored bytes.
    pub open spec fn wf(&self) -> bool {
        self.field.fields_data matches Some(VariantValue::Binary(_))
            && self.field.doc_values_type == DocValuesType::SortedSet
    }

    /// The stored bytes.
    pub open spec fn spec_value(&self) -> Seq<u8> {
        self.field.fields_data->0->Binary_0@
    }

    /// A sorted-set field named `name` holding a copy of `value`.
    pub fn new(name: &String, value: &Vec<u8>) -> (r: SortedSetDocValuesField)
        ensures
            r.wf(),
            r.field.name@ == name@,
            r.spec_value() == value@,
    {
        SortedSetDocValuesField {
            field: Field::new(
                name.clone(),
                DocValuesType::SortedSet,
                Some(VariantValue::Binary(crate::bytes_cmp::copy_bytes(value))),
            ),
        }
    }

    /// The stored binary value.
    pub fn binary_value(&self) -> (r: &Vec<u8>)
        requires
            self.wf(),
        ensures
            r@ == self.spec_value(),
    {
        match &self.field.fields_data {
            Some(VariantValue::Binary(v)) => v,
            _ => vstd::pervasive::unreached(),
        }
    }

    /// Field name.
    pub fn name(&self) -> (r: &String)
        ensures
            r@ == self.field.name@,
    {
        self.field.name()
    }
}

} // verus!
