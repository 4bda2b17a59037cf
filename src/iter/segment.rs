//! A fail-stopping iterator over the sections of a segment's bytes.
use vstd::prelude::*;
use vstd::slice::slice_subrange;
use crate::error::Errors;
use crate::model::section::{
    GenericSection, SectionView, section_spec, core_header_len, payload_len,
    has_flag, TYPE_BYTE,
};

verus! {

/// The abstract state of a section iterator.
pub ghost struct SectionCursor {
    /// The segment's bytes
    pub data: Seq<u8>,
    /// Where the next section starts
    pub index: nat,
    /// The error that ended the iteration, if any
    pub last_error: Option<Errors>,
    /// The type of the last section decoded, if any
    pub last_type: Option<u32>,
}

/// One step of the iteration: the next state, and the section yielded, if any.
/// A cursor that failed, or reached the end, stays where it is; a failure
/// records its error and leaves the index at the section that failed.
pub open spec fn section_step(c: SectionCursor) -> (SectionCursor, Option<SectionView>) {
    if c.last_error is Some || c.index >= c.data.len() {
        (c, None)
    } else {
        match section_spec(c.data.subrange(c.index as int, c.data.len() as int), c.last_type) {
            Ok(v) => (
                SectionCursor {
                    index: c.index + v.bytes.len(),
                    last_type: Some(v.data_type),
                    ..c
                },
                Some(v),
            ),
            Err(e) => (SectionCursor { last_error: Some(e), ..c }, None),
        }
    }
}

/// An iterator for lightweight scanning of data sections in a segment
pub struct SegmentIterator<'a> {
    /// The segment's data
    data: &'a [u8],
    /// The iterator's position in the segment
    index: usize,
    /// Code of the last error that occured during an iteration
    last_error: Option<Errors>,
    /// Type of the last packet parsed, required
    last_type: Option<u32>,
}

impl<'a> View for SegmentIterator<'a> {
    type V = SectionCursor;

    closed spec fn view(&self) -> SectionCursor {
        SectionCursor {
            data: self.data@,
            index: self.index as nat,
            last_error: self.last_error,
            last_type: self.last_type,
        }
    }
}

impl<'a> SegmentIterator<'a> {
    #[verifier::type_invariant]
    spec fn inv(&self) -> bool {
        self.index <= self.data@.len()
    }

    /// Build a new iterator from a raw decrypted segment's slice
    pub fn new(data: &'a [u8]) -> (r: SegmentIterator<'a>)
        ensures
            r@ == (SectionCursor { data: data@, index: 0, last_error: None, last_type: None }),
    {
        SegmentIterator { data, index: 0, last_error: None, last_type: None }
    }

    /// Whether the iterator is valid
    pub fn is_valid(&self) -> (r: bool)
        ensures
            r == self@.last_error is None,
    {
        self.last_error.is_none()
    }

    /// Get the last error that occured
    pub fn error(&self) -> (r: &Errors)
        requires
            self@.last_error is Some,
        ensures
            *r == self@.last_error->Some_0,
    {
        match &self.last_error {
            Some(e) => e,
            None => {
                assert(false);
                &Errors::NoData
            },
        }
    }

    /// The index in the data slice the iterator is at
    ///
    /// This should only be used for debugging purposes when
    /// is_valid returns false after an iteration
    pub fn internal_index(&self) -> (r: usize)
        ensures
            r == self@.index,
    {
        self.index
    }

    /// The data slice the iterator is moving through
    ///
    /// This should only be used for debugging purposes when
    /// is_valid returns false after an iteration
    pub fn internal_slice(&self) -> (r: &'a [u8])
        ensures
            r@ == self@.data,
    {
        self.data
    }

    /// Decode the next section, or end the sequence: at the end of the data,
    /// or on a malformed section, whose error and index are then kept.
    pub fn next(&mut self) -> (r: Option<GenericSection<'a>>)
        ensures
            final(self)@ == section_step(old(self)@).0,
            match r {
                Some(g) => section_step(old(self)@).1 == Some(g@),
                None => section_step(old(self)@).1 is None,
            },
    {
        proof {
            use_type_invariant(&*self);
        }
        if self.last_error.is_some() || self.data.len() <= self.index {
            return None;
        }
        let rest = slice_subrange(self.data, self.index, self.data.len());
        match GenericSection::from_slice(rest, self.last_type) {
            Ok(g) => {
                let n = g.bytes().len();
                self.index = self.index + n;
                self.last_type = Some(g.data_type());
                Some(g)
            },
            Err(e) => {
                self.last_error = Some(e);
                None
            },
        }
    }
}

/// Type carry: after a step that yields a section, the next step that yields
/// a section whose marker asks for the carried type resolves to that
/// section's type.
pub proof fn lemma_type_carry(c: SectionCursor)
    requires
        section_step(c).1 is Some,
        section_step(section_step(c).0).1 is Some,
        has_flag(section_step(section_step(c).0).1->Some_0.bytes[0], TYPE_BYTE),
    ensures
        section_step(section_step(c).0).1->Some_0.data_type == section_step(c).1->Some_0.data_type,
{
}

/// A stream whose first section asks for a carried type, and holds its whole
/// core header and payload, fails at its start with `NoData`.
pub proof fn lemma_carry_without_predecessor(data: Seq<u8>)
    requires
        data.len() > 0,
        has_flag(data[0], TYPE_BYTE),
        data.len() >= core_header_len(data[0]) + payload_len(data),
    ensures
        section_step(SectionCursor { data, index: 0, last_error: None, last_type: None }).0.last_error
            == Some(Errors::NoData),
        section_step(SectionCursor { data, index: 0, last_error: None, last_type: None }).0.index
            == 0,
        section_step(SectionCursor { data, index: 0, last_error: None, last_type: None }).1 is None,
{
    assert(data.subrange(0, data.len() as int) =~= data);
}

} // verus!
