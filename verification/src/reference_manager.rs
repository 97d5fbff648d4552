//! Reference-counted sharing of a "current" value across readers, with
//! atomic replace-on-refresh semantics and deferred retirement.
//!
//! The manager holds exactly one current snapshot at a time. Readers
//! acquire the current snapshot and release it when done; a snapshot is
//! retired only when its reference count reaches zero, so a reader holding
//! a previously acquired snapshot never sees it invalidated. Refreshing
//! swaps in a new snapshot and releases the manager's own reference to the
//! old one; readers of the old snapshot are unaffected. The manager's
//! methods take `&mut self`: callers serialize refreshes (and every other
//! mutation) through that exclusive access, matching the rule that at most
//! one refresh computation is in flight at a time.
//!
//! Snapshots live in an arena with per-entry reference counts; an acquire
//! hands out the entry's index as the reader's handle.

use vstd::prelude::*;
use vstd::string::StringExecFns;
use crate::errors::Error;

verus! {

/// One snapshot in the manager's arena.
pub struct RefEntry<V> {
    /// The snapshot itself.
    pub value: V,
    /// Number of outstanding references: the manager's own reference while
    /// the entry is current, plus one per unreleased acquire.
    pub refs: u64,
    /// True once the reference count reached zero and the snapshot was
    /// retired; retirement is final.
    pub retired: bool,
}

/// Generic reference-counted holder of one current snapshot.
pub struct ReferenceManagerBase<V> {
    /// All snapshots this manager has ever held; handles index into it.
    pub entries: Vec<RefEntry<V>>,
    /// Index of the current snapshot.
    pub current: usize,
    /// True once the manager was closed; closing is final.
    pub closed: bool,
}

impl<V> ReferenceManagerBase<V> {
    /// Well-formed manager: a snapshot is retired exactly when its count
    /// is zero, and while open the current snapshot is live and counted.
    pub open spec fn wf(&self) -> bool {
        &&& self.current < self.entries@.len()
        &&& forall|i: int|
            0 <= i < self.entries@.len() ==> ((#[trigger] self.entries@[i].retired)
                <==> self.entries@[i].refs == 0)
        &&& !self.closed ==> self.entries@[self.current as int].refs >= 1
    }

    /// Number of outstanding references of entry `i`.
    pub open spec fn spec_ref_count(&self, i: int) -> int {
        self.entries@[i].refs as int
    }

    /// A fresh manager holding `initial` as current, with the manager's
    /// own reference on it.
    pub fn new(initial: V) -> (r: ReferenceManagerBase<V>)
        ensures
            r.wf(),
            !r.closed,
            r.entries@.len() == 1,
            r.current == 0,
            r.entries@[0].value == initial,
            r.entries@[0].refs == 1,
            !r.entries@[0].retired,
    {
        let mut entries: Vec<RefEntry<V>> = Vec::new();
        entries.push(RefEntry { value: initial, refs: 1, retired: false });
        ReferenceManagerBase { entries, current: 0, closed: false }
    }

    /// Obtain the current snapshot for use: its count rises by one and the
    /// returned handle names it. Never blocks; fails only on a closed
    /// manager.
    pub fn acquire(&mut self) -> (r: Result<usize, Error>)
        requires
            old(self).wf(),
            old(self).spec_ref_count(old(self).current as int) < u64::MAX,
        ensures
            final(self).wf(),
            r is Err <==> old(self).closed,
            r matches Err(e) ==> e is AlreadyClosed && *final(self) == *old(self),
            r matches Ok(h) ==> {
                &&& h == old(self).current == final(self).current
                &&& final(self).closed == old(self).closed
                &&& final(self).entries@.len() == old(self).entries@.len()
                &&& final(self).entries@[h as int].refs == old(self).entries@[h as int].refs + 1
                &&& !final(self).entries@[h as int].retired
                &&& final(self).entries@[h as int].value == old(self).entries@[h as int].value
                &&& forall|i: int|
                    0 <= i < old(self).entries@.len() && i != h ==> final(self).entries@[i] == old(self).entries@[i]
            },
    {
        if self.closed {
            return Err(Error::AlreadyClosed(String::from_str("this reference manager is closed")));
        }
        let h = self.current;
        let refs = self.entries[h].refs;
        let value_entry = self.entries.remove(h);
        let new_entry = RefEntry { value: value_entry.value, refs: refs + 1, retired: false };
        self.entries.insert(h, new_entry);
        proof {
            assert(self.entries@ =~= old(self).entries@.update(
                h as int,
                RefEntry {
                    value: old(self).entries@[h as int].value,
                    refs: (old(self).entries@[h as int].refs + 1) as u64,
                    retired: false,
                },
            ));
        }
        Ok(h)
    }

    /// Give back one reference on the snapshot named by `handle`. When the
    /// count reaches zero the snapshot is retired by the manager, never by
    /// the caller; the current snapshot keeps the manager's own reference
    /// and so cannot be retired here while the manager is open.
    pub fn release(&mut self, handle: usize)
        requires
            old(self).wf(),
            handle < old(self).entries@.len(),
            old(self).spec_ref_count(handle as int) > (if handle == old(self).current && !old(self).closed {
                1int
            } else {
                0int
            }),
        ensures
            final(self).wf(),
            final(self).closed == old(self).closed,
            final(self).current == old(self).current,
            final(self).entries@.len() == old(self).entries@.len(),
            final(self).entries@[handle as int].refs == old(self).entries@[handle as int].refs - 1,
            final(self).entries@[handle as int].value == old(self).entries@[handle as int].value,
            final(self).entries@[handle as int].retired <==> final(self).entries@[handle as int].refs
                == 0,
            forall|i: int|
                0 <= i < old(self).entries@.len() && i != handle ==> final(self).entries@[i] == old(self).entries@[i],
    {
        let refs = self.entries[handle].refs;
        let entry = self.entries.remove(handle);
        let new_refs = refs - 1;
        let new_entry = RefEntry { value: entry.value, refs: new_refs, retired: new_refs == 0 };
        self.entries.insert(handle, new_entry);
        proof {
            assert(self.entries@ =~= old(self).entries@.update(
                handle as int,
                RefEntry {
                    value: old(self).entries@[handle as int].value,
                    refs: (old(self).entries@[handle as int].refs - 1) as u64,
                    retired: old(self).entries@[handle as int].refs - 1 == 0,
                },
            ));
        }
    }

    /// Borrow the snapshot a handle names. Valid only while the handle is
    /// still held, so the snapshot is not retired.
    pub fn get(&self, handle: usize) -> (r: &V)
        requires
            self.wf(),
            handle < self.entries@.len(),
            !self.entries@[handle as int].retired,
        ensures
            r == self.entries@[handle as int].value,
    {
        &self.entries[handle].value
    }

    /// Number of outstanding references of the snapshot a handle names.
    pub fn ref_count(&self, handle: usize) -> (r: u64)
        requires
            handle < self.entries@.len(),
        ensures
            r == self.spec_ref_count(handle as int),
    {
        self.entries[handle].refs
    }

    /// True once the snapshot a handle names was retired.
    pub fn is_retired(&self, handle: usize) -> (r: bool)
        requires
            handle < self.entries@.len(),
        ensures
            r == self.entries@[handle as int].retired,
    {
        self.entries[handle].retired
    }

    /// Install a freshly built snapshot as current and release the
    /// manager's own reference on the old one. Readers that acquired the
    /// old snapshot before the swap keep it valid until they release it.
    /// Fails only on a closed manager, leaving it unchanged.
    pub fn swap_reference(&mut self, new_value: V) -> (r: Result<(), Error>)
        requires
            old(self).wf(),
            old(self).entries@.len() < usize::MAX,
        ensures
            final(self).wf(),
            r is Err <==> old(self).closed,
            r matches Err(e) ==> e is AlreadyClosed && *final(self) == *old(self),
            r is Ok ==> {
                &&& !final(self).closed
                &&& final(self).entries@.len() == old(self).entries@.len() + 1
                &&& final(self).current == old(self).entries@.len()
                &&& final(self).entries@[final(self).current as int].value == new_value
                &&& final(self).entries@[final(self).current as int].refs == 1
                &&& !final(self).entries@[final(self).current as int].retired
                &&& final(self).entries@[old(self).current as int].refs == old(self).entries@[old(self).current as int].refs - 1
                &&& (final(self).entries@[old(self).current as int].retired <==> final(self).entries@[old(self).current as int].refs == 0)
                &&& forall|i: int|
                    0 <= i < old(self).entries@.len() && i != old(self).current ==> final(self).entries@[i] == old(self).entries@[i]
            },
    {
        if self.closed {
            return Err(Error::AlreadyClosed(String::from_str("this reference manager is closed")));
        }
        let old_current = self.current;
        let new_index = self.entries.len();
        self.entries.push(RefEntry { value: new_value, refs: 1, retired: false });
        self.current = new_index;
        self.release(old_current);
        Ok(())
    }

    /// Refresh from the outcome of asking the held value for a fresher
    /// one: `None` means nothing newer exists and the manager is left
    /// undisturbed; `Some` swaps the fresh snapshot in as current. Returns
    /// whether a swap happened. Fails only on a closed manager.
    pub fn maybe_refresh(&mut self, refreshed: Option<V>) -> (r: Result<bool, Error>)
        requires
            old(self).wf(),
            old(self).entries@.len() < usize::MAX,
        ensures
            final(self).wf(),
            r is Err <==> old(self).closed,
            r matches Err(e) ==> e is AlreadyClosed && *final(self) == *old(self),
            r matches Ok(swapped) ==> {
                &&& (swapped <==> refreshed is Some)
                &&& !swapped ==> *final(self) == *old(self)
                &&& swapped ==> {
                    &&& final(self).entries@.len() == old(self).entries@.len() + 1
                    &&& final(self).current == old(self).entries@.len()
                    &&& final(self).entries@[final(self).current as int].value == refreshed->0
                    &&& final(self).entries@[final(self).current as int].refs == 1
                    &&& final(self).entries@[old(self).current as int].refs == old(self).entries@[old(self).current as int].refs - 1
                    &&& forall|i: int|
                        0 <= i < old(self).entries@.len() && i != old(self).current ==> final(self).entries@[i] == old(self).entries@[i]
                }
            },
    {
        if self.closed {
            return Err(Error::AlreadyClosed(String::from_str("this reference manager is closed")));
        }
        match refreshed {
            None => Ok(false),
            Some(v) => {
                let result = self.swap_reference(v);
                proof {
                    assert(result is Ok);
                }
                Ok(true)
            },
        }
    }

    /// Terminal state: release the manager's own reference on the current
    /// snapshot and refuse all further operations.
    pub fn close(&mut self)
        requires
            old(self).wf(),
            !old(self).closed,
        ensures
            final(self).wf(),
            final(self).closed,
            final(self).current == old(self).current,
            final(self).entries@.len() == old(self).entries@.len(),
            final(self).entries@[old(self).current as int].refs == old(self).entries@[old(self).current as int].refs - 1,
            forall|i: int|
                0 <= i < old(self).entries@.len() && i != old(self).current ==> final(self).entries@[i] == old(self).entries@[i],
    {
        self.closed = true;
        let cur = self.current;
        self.release(cur);
    }

    /// A snapshot still held by anyone is never retired: a positive
    /// reference count excludes retirement in every well-formed state,
    /// whatever interleaving of acquires, releases and refreshes led to it.
    pub proof fn lemma_held_never_retired(&self, i: int)
        requires
            self.wf(),
            0 <= i < self.entries@.len(),
            self.spec_ref_count(i) > 0,
        ensures
            !self.entries@[i].retired,
    {
    }

    /// Retirement is exactly the exhaustion of references: in every
    /// well-formed state a snapshot is retired if and only if its count
    /// reached zero, so once every acquirer has released (and the manager
    /// dropped its own reference), the snapshot's count is zero and it is
    /// retired.
    pub proof fn lemma_retired_iff_zero_refs(&self, i: int)
        requires
            self.wf(),
            0 <= i < self.entries@.len(),
        ensures
            self.entries@[i].retired <==> self.spec_ref_count(i) == 0,
    {
    }
}

/// Builds a searcher over a freshly obtained reader snapshot; pluggable
/// per deployment, for instance to attach custom scoring context.
pub trait SearcherFactory<R, S> {
    /// Return a new searcher over the given reader.
    fn new_searcher(&self, reader: R) -> Result<S, Error>;
}

/// Shares searcher snapshots across readers while periodically reopening:
/// a reference manager whose refresh step wraps a refreshed reader view in
/// a new searcher through the pluggable factory.
pub struct SearcherManager<S, F> {
    /// Builds a searcher from each refreshed reader.
    pub searcher_factory: F,
    /// The underlying reference-counted current-searcher holder.
    pub manager_base: ReferenceManagerBase<S>,
}

impl<S, F> SearcherManager<S, F> {
    /// Well-formed manager.
    pub open spec fn wf(&self) -> bool {
        self.manager_base.wf()
    }

    /// Build the initial searcher from a reader snapshot and hold it as
    /// current. Fails only when the factory fails.
    pub fn new<R>(reader: R, searcher_factory: F) -> (r: Result<SearcherManager<S, F>, Error>) where
        F: SearcherFactory<R, S>
        ensures
            r matches Ok(m) ==> {
                &&& m.wf()
                &&& !m.manager_base.closed
                &&& m.manager_base.entries@.len() == 1
                &&& m.manager_base.entries@[0].refs == 1
            },
    {
        let current = searcher_factory.new_searcher(reader)?;
        Ok(SearcherManager { searcher_factory, manager_base: ReferenceManagerBase::new(current) })
    }

    /// Obtain the current searcher; see `ReferenceManagerBase::acquire`.
    pub fn acquire(&mut self) -> (r: Result<usize, Error>)
        requires
            old(self).wf(),
            old(self).manager_base.spec_ref_count(old(self).manager_base.current as int)
                < u64::MAX,
        ensures
            final(self).wf(),
            final(self).searcher_factory == old(self).searcher_factory,
            r is Err <==> old(self).manager_base.closed,
            r matches Ok(h) ==> h == old(self).manager_base.current
                && final(self).manager_base.entries@[h as int].refs == old(self).manager_base.entries@[h as int].refs + 1,
    {
        self.manager_base.acquire()
    }

    /// Release an acquired searcher; see `ReferenceManagerBase::release`.
    pub fn release(&mut self, handle: usize)
        requires
            old(self).wf(),
            handle < old(self).manager_base.entries@.len(),
            old(self).manager_base.spec_ref_count(handle as int) > (if handle == old(self).manager_base.current && !old(self).manager_base.closed {
                1int
            } else {
                0int
            }),
        ensures
            final(self).wf(),
            final(self).searcher_factory == old(self).searcher_factory,
            final(self).manager_base.entries@[handle as int].refs == old(self).manager_base.entries@[handle as int].refs - 1,
            final(self).manager_base.entries@[handle as int].retired <==> final(self).manager_base.entries@[handle as int].refs == 0,
    {
        self.manager_base.release(handle)
    }

    /// Refresh from the outcome of asking the current reader for a fresher
    /// view: `None` leaves the current searcher undisturbed; a refreshed
    /// reader is wrapped by the factory into a new searcher and swapped in
    /// as current. A factory failure is reported to the initiator and
    /// leaves the previous searcher current. Returns whether a swap
    /// happened.
    pub fn refresh_if_needed<R>(&mut self, refreshed_reader: Option<R>) -> (r: Result<bool, Error>) where
        F: SearcherFactory<R, S>
        requires
            old(self).wf(),
            old(self).manager_base.entries@.len() < usize::MAX,
        ensures
            final(self).wf(),
            final(self).searcher_factory == old(self).searcher_factory,
            old(self).manager_base.closed ==> (r matches Err(e) && e is AlreadyClosed),
            refreshed_reader is None && !old(self).manager_base.closed ==> (r matches Ok(false)
                && final(self).manager_base == old(self).manager_base),
            r matches Ok(swapped) ==> (swapped <==> refreshed_reader is Some),
            r matches Ok(swapped) ==> swapped ==> {
                &&& final(self).manager_base.entries@.len() == old(self).manager_base.entries@.len() + 1
                &&& final(self).manager_base.current == old(self).manager_base.entries@.len()
                &&& final(self).manager_base.entries@[final(self).manager_base.current as int].refs
                    == 1
                &&& !final(self).manager_base.entries@[final(self).manager_base.current as int].retired
                &&& final(self).manager_base.entries@[old(self).manager_base.current as int].refs
                    == old(self).manager_base.entries@[old(self).manager_base.current as int].refs
                    - 1
                &&& forall|i: int|
                    0 <= i < old(self).manager_base.entries@.len() && i != old(
                        self,
                    ).manager_base.current ==> final(self).manager_base.entries@[i] == old(
                        self,
                    ).manager_base.entries@[i]
            },
            r is Err ==> final(self).manager_base == old(self).manager_base,
    {
        if self.manager_base.closed {
            return Err(Error::AlreadyClosed(String::from_str("this searcher manager is closed")));
        }
        match refreshed_reader {
            None => Ok(false),
            Some(reader) => {
                let searcher = match self.searcher_factory.new_searcher(reader) {
                    Ok(s) => s,
                    Err(e) => {
                        return Err(e);
                    },
                };
                let result = self.manager_base.swap_reference(searcher);
                proof {
                    assert(result is Ok);
                }
                Ok(true)
            },
        }
    }

    /// Close the manager: release the manager's own reference on the
    /// current searcher and refuse all further operations; see
    /// `ReferenceManagerBase::close`.
    pub fn close(&mut self)
        requires
            old(self).wf(),
            !old(self).manager_base.closed,
        ensures
            final(self).wf(),
            final(self).manager_base.closed,
            final(self).searcher_factory == old(self).searcher_factory,
            final(self).manager_base.current == old(self).manager_base.current,
            final(self).manager_base.entries@.len() == old(self).manager_base.entries@.len(),
            final(self).manager_base.entries@[old(self).manager_base.current as int].refs == old(
                self,
            ).manager_base.entries@[old(self).manager_base.current as int].refs - 1,
            forall|i: int|
                0 <= i < old(self).manager_base.entries@.len() && i != old(
                    self,
                ).manager_base.current ==> final(self).manager_base.entries@[i] == old(
                    self,
                ).manager_base.entries@[i],
    {
        self.manager_base.close();
    }
}

} // verus!
