//! A tokenizer that divides text at whitespace characters: adjacent
//! sequences of non-whitespace characters form tokens.
//!
//! The tokenizer works over an in-memory character sequence; whatever
//! input the text comes from is decoded before it reaches the library.

use vstd::prelude::*;

verus! {

/// Longest token, measured in UTF-8 bytes; longer runs are split.
pub const MAX_WORD_LEN: usize = 511;

/// Whether a character is whitespace; a fixed table of the character
/// alone.
pub uninterp spec fn whitespace_char(c: char) -> bool;

/// Relies on char::is_whitespace of std: whether a character is Unicode
/// whitespace is a function of the character alone.
#[verifier::external_body]
fn char_is_whitespace(c: char) -> (r: bool)
    ensures
        r == whitespace_char(c),
{
    c.is_whitespace()
}

/// Number of UTF-8 bytes a character encodes to.
pub open spec fn spec_utf8_len(c: char) -> int {
    if (c as u32) < 0x80 {
        1
    } else if (c as u32) < 0x800 {
        2
    } else if (c as u32) < 0x10000 {
        3
    } else {
        4
    }
}

/// Number of UTF-8 bytes a character sequence encodes to.
pub open spec fn bytes_len(s: Seq<char>) -> int
    decreases s.len(),
{
    if s.len() == 0 {
        0
    } else {
        bytes_len(s.drop_last()) + spec_utf8_len(s.last())
    }
}

/// Number of UTF-8 bytes a character encodes to.
pub fn utf8_len(c: char) -> (r: usize)
    ensures
        r == spec_utf8_len(c),
{
    let u = c as u32;
    if u < 0x80 {
        1
    } else if u < 0x800 {
        2
    } else if u < 0x10000 {
        3
    } else {
        4
    }
}

/// First index at or after `from` holding a non-whitespace character, or
/// the length when only whitespace remains.
fn find_token_start(chars: &Vec<char>, from: usize) -> (r: usize)
    requires
        from <= chars@.len(),
    ensures
        from <= r <= chars@.len(),
        forall|j: int| from <= j < r ==> whitespace_char(chars@[j]),
        r < chars@.len() ==> !whitespace_char(chars@[r as int]),
{
    let mut i: usize = from;
    while i < chars.len() && char_is_whitespace(chars[i])
        invariant
            from <= i <= chars@.len(),
            forall|j: int| from <= j < i ==> whitespace_char(chars@[j]),
        decreases chars@.len() - i,
    {
        i = i + 1;
    }
    i
}

/// Divides text at whitespace characters. Each call to `increment_token`
/// yields the next maximal run of non-whitespace characters, capped at
/// `MAX_WORD_LEN` bytes, together with its character offsets.
#[derive(Debug)]
pub struct WhitespaceTokenizer {
    /// The text to tokenize.
    pub chars: Vec<char>,
    /// Scan position: the next character to examine.
    pub buffer_index: usize,
    /// Characters of the current token.
    pub term: Vec<char>,
    /// UTF-8 byte length of the current token.
    pub term_bytes: usize,
    /// Character offset where the current token starts.
    pub start_offset: usize,
    /// Character offset one past the current token's end.
    pub end_offset: usize,
    /// Offset of the end of the last token, or of the text once exhausted.
    pub final_offset: usize,
}

impl WhitespaceTokenizer {
    /// The scan position stays within the text.
    pub open spec fn wf(&self) -> bool {
        self.buffer_index <= self.chars@.len()
    }

    /// A tokenizer over the given text, positioned at its start.
    pub fn new(chars: Vec<char>) -> (r: WhitespaceTokenizer)
        ensures
            r.wf(),
            r.chars@ == chars@,
            r.buffer_index == 0,
            r.term@.len() == 0,
            r.start_offset == 0,
            r.end_offset == 0,
            r.final_offset == 0,
    {
        WhitespaceTokenizer {
            chars,
            buffer_index: 0,
            term: Vec::new(),
            term_bytes: 0,
            start_offset: 0,
            end_offset: 0,
            final_offset: 0,
        }
    }

    /// Every non-whitespace character is a token character. The definition
    /// deliberately excludes nothing else: the non-breaking space is
    /// whitespace and therefore splits tokens.
    pub fn is_token_char(&self, c: char) -> (r: bool)
        ensures
            r == !whitespace_char(c),
    {
        !char_is_whitespace(c)
    }

    /// Advance to the next token. Returns false when only whitespace
    /// remains; otherwise the token's characters and offsets are exposed
    /// through `term`, `start_offset` and `end_offset`. A token ends at
    /// the text's end, at the next whitespace character, or when it
    /// reaches `MAX_WORD_LEN` bytes.
    pub fn increment_token(&mut self) -> (r: bool)
        requires
            old(self).wf(),
        ensures
            final(self).wf(),
            final(self).chars@ == old(self).chars@,
            r <==> exists|j: int|
                old(self).buffer_index <= j < old(self).chars@.len() && !whitespace_char(
                    #[trigger] old(self).chars@[j],
                ),
            !r ==> {
                &&& final(self).buffer_index == final(self).chars@.len()
                &&& final(self).term@.len() == 0
                &&& final(self).final_offset == final(self).chars@.len()
            },
            r ==> {
                &&& old(self).buffer_index <= final(self).start_offset < final(self).end_offset
                    <= final(self).chars@.len()
                &&& forall|j: int|
                    old(self).buffer_index <= j < final(self).start_offset ==> whitespace_char(
                        #[trigger] final(self).chars@[j],
                    )
                &&& forall|j: int|
                    final(self).start_offset <= j < final(self).end_offset ==> !whitespace_char(
                        #[trigger] final(self).chars@[j],
                    )
                &&& final(self).term@ == final(self).chars@.subrange(
                    final(self).start_offset as int,
                    final(self).end_offset as int,
                )
                &&& (final(self).end_offset == final(self).chars@.len() || whitespace_char(
                    final(self).chars@[final(self).end_offset as int],
                ) || bytes_len(final(self).term@) >= MAX_WORD_LEN)
                &&& (final(self).buffer_index == final(self).end_offset || (final(self).buffer_index == final(self).end_offset + 1 && whitespace_char(
                    final(self).chars@[final(self).end_offset as int],
                )))
                &&& final(self).final_offset == final(self).end_offset
            },
    {
        self.term = Vec::new();
        self.term_bytes = 0;
        let start = find_token_start(&self.chars, self.buffer_index);
        if start == self.chars.len() {
            self.buffer_index = start;
            self.final_offset = start;
            return false;
        }
        let ghost start_snap = start as int;
        let mut end = start;
        while end < self.chars.len() && !char_is_whitespace(self.chars[end])
            && self.term_bytes < MAX_WORD_LEN
            invariant
                start_snap == start as int,
                start <= end <= self.chars@.len(),
                self.chars@ == old(self).chars@,
                self.term@ == self.chars@.subrange(start as int, end as int),
                self.term_bytes == bytes_len(self.term@),
                self.term_bytes <= MAX_WORD_LEN + 3,
                forall|j: int|
                    start <= j < end ==> !whitespace_char(#[trigger] self.chars@[j]),
            decreases self.chars@.len() - end,
        {
            let c = self.chars[end];
            self.term.push(c);
            self.term_bytes = self.term_bytes + utf8_len(c);
            proof {
                assert(self.term@.drop_last() =~= self.chars@.subrange(
                    start as int,
                    end as int,
                ));
                assert(self.term@ =~= self.chars@.subrange(start as int, end + 1));
            }
            end = end + 1;
        }
        self.start_offset = start;
        self.end_offset = end;
        self.final_offset = end;
        if end < self.chars.len() && self.term_bytes < MAX_WORD_LEN {
            // stopped at a whitespace character: the scan consumed it
            self.buffer_index = end + 1;
        } else {
            self.buffer_index = end;
        }
        proof {
            assert(!whitespace_char(old(self).chars@[start as int]));
        }
        true
    }

    /// Characters of the current token.
    pub fn term(&self) -> (r: &Vec<char>)
        ensures
            r@ == self.term@,
    {
        &self.term
    }

    /// Character offset where the current token starts.
    pub fn start_offset(&self) -> (r: usize)
        ensures
            r == self.start_offset,
    {
        self.start_offset
    }

    /// Character offset one past the current token's end.
    pub fn end_offset(&self) -> (r: usize)
        ensures
            r == self.end_offset,
    {
        self.end_offset
    }

    /// Finish the stream: the final offset then reports where tokenizing
    /// ended.
    pub fn end(&mut self) -> (r: usize)
        ensures
            *final(self) == *old(self),
            r == old(self).final_offset,
    {
        self.final_offset
    }

    /// Rewind to the start of the text.
    pub fn reset(&mut self)
        ensures
            final(self).wf(),
            final(self).chars@ == old(self).chars@,
            final(self).buffer_index == 0,
            final(self).final_offset == 0,
    {
        self.buffer_index = 0;
        self.start_offset = 0;
        self.end_offset = 0;
        self.final_offset = 0;
        self.term = Vec::new();
        self.term_bytes = 0;
    }
}

} // verus!
