//! Payload segments: chunks and keyframes, their 17-byte headers and their
//! materialized bytes.
use vstd::prelude::*;
use crate::cipher::{BlockCipher, decrypt_segment, pipeline_spec};
use crate::error::Errors;
use crate::iter::segment::{SectionCursor, SegmentIterator};
use crate::le::{le_u32, read_u32};

verus! {

/// Length in bytes of a segment header
pub const SEGMENT_HEADER_LEN: usize = 17;

/// The two kinds of segment
#[derive(Debug, Clone, Copy, PartialEq, Eq, Structural)]
pub enum SegmentType {
    /// Incremental game data for a time window
    Chunk,
    /// A full state snapshot
    Keyframe,
}

/// The abstract content of a segment.
pub ghost struct SegmentView {
    /// The segment's ID
    pub id: u32,
    /// Whether the segment is a chunk or a keyframe
    pub kind: SegmentType,
    /// Length of the segment's encrypted data
    pub length: u32,
    /// ID of the first associated chunk for a keyframe, else 0
    pub chunk_id: u32,
    /// Offset of the segment's data after the header table
    pub offset: u32,
    /// The segment's materialized bytes, empty until loaded
    pub data: Seq<u8>,
}

/// The segment header that starts `s`.
pub open spec fn segment_header_spec(s: Seq<u8>) -> Result<SegmentView, Errors> {
    if s.len() < SEGMENT_HEADER_LEN {
        Err(Errors::BufferTooSmall)
    } else if s[4] != 1 && s[4] != 2 {
        Err(Errors::InvalidBuffer)
    } else {
        Ok(
            SegmentView {
                id: le_u32(s, 0) as u32,
                kind: if s[4] == 1 { SegmentType::Chunk } else { SegmentType::Keyframe },
                length: le_u32(s, 5) as u32,
                chunk_id: le_u32(s, 9) as u32,
                offset: le_u32(s, 13) as u32,
                data: Seq::empty(),
            },
        )
    }
}

/// Materializing a segment from its encrypted bytes under `key`: a segment
/// that holds bytes already is left as it is.
pub open spec fn load_spec(s: SegmentView, key: Seq<u8>, encrypted: Seq<u8>) -> (
    SegmentView,
    Result<(), Errors>,
) {
    if s.data.len() > 0 {
        (s, Ok(()))
    } else {
        match pipeline_spec(key, encrypted, true, true) {
            Ok(o) => (SegmentView { data: s.data + o, ..s }, Ok(())),
            Err(e) => (s, Err(e)),
        }
    }
}

/// Container for Chunk and Keyframe data
#[derive(Debug)]
pub struct Segment {
    /// The segment's ID
    id: u32,
    /// Whether the segment is a chunk or a keyframe
    segment_type: SegmentType,
    /// Length of the segment's data
    length: u32,
    /// ID of the first associated Chunk (if this segment is a keyframe), else 0
    chunk_id: u32,
    /// Internal offset of the segment's data
    offset: u32,
    /// Segment's data (if it is loaded)
    data: Vec<u8>,
}

impl View for Segment {
    type V = SegmentView;

    closed spec fn view(&self) -> SegmentView {
        SegmentView {
            id: self.id,
            kind: self.segment_type,
            length: self.length,
            chunk_id: self.chunk_id,
            offset: self.offset,
            data: self.data@,
        }
    }
}

impl Segment {
    /// The segment's ID
    pub fn id(&self) -> (r: u32)
        ensures
            r == self@.id,
    {
        self.id
    }

    /// The length in bytes of the segment's data
    pub fn len(&self) -> (r: usize)
        ensures
            r == self@.length,
    {
        self.length as usize
    }

    /// The offset in bytes from the segment headers' end at which the segment's data starts
    pub fn offset(&self) -> (r: usize)
        ensures
            r == self@.offset,
    {
        self.offset as usize
    }

    /// ID of the first chunk that this segment summarizes if it is a keyframe, else 0
    pub fn chunk_id(&self) -> (r: u32)
        ensures
            r == self@.chunk_id,
    {
        self.chunk_id
    }

    /// Whether the segment's data section is loaded
    pub fn is_loaded(&self) -> (r: bool)
        ensures
            r == (self@.data.len() > 0),
    {
        self.data.len() > 0
    }

    /// Get the raw segment's data
    pub fn data(&self) -> (r: &Vec<u8>)
        ensures
            r@ == self@.data,
    {
        &self.data
    }

    /// Get the raw segment's data as a mutable Vec
    ///
    /// __WARNING:__This should only be used if you decrypt/load segment data yourself
    pub fn data_mut(&mut self) -> (r: &mut Vec<u8>)
        ensures
            r@ == old(self)@.data,
            final(self)@ == (SegmentView { data: final(r)@, ..old(self)@ }),
    {
        &mut self.data
    }

    /// Build a new segment header from the first bytes of `data`.
    ///
    /// This does not load the segment's data section
    pub fn from_raw_section(data: &[u8]) -> (r: Result<Segment, Errors>)
        requires
            data@.len() >= SEGMENT_HEADER_LEN,
        ensures
            match r {
                Ok(s) => segment_header_spec(data@) == Ok::<SegmentView, Errors>(s@),
                Err(e) => segment_header_spec(data@) == Err::<SegmentView, Errors>(e),
            },
    {
        let segment_type = if data[4] == 1 {
            SegmentType::Chunk
        } else if data[4] == 2 {
            SegmentType::Keyframe
        } else {
            return Err(Errors::InvalidBuffer);
        };
        let r = Segment {
            id: read_u32(data, 0),
            segment_type,
            length: read_u32(data, 5),
            chunk_id: read_u32(data, 9),
            offset: read_u32(data, 13),
            data: Vec::new(),
        };
        assert(r@.data =~= Seq::<u8>::empty());
        Ok(r)
    }

    /// Build a new segment header from a payload's data
    ///
    /// This does not load the segment's data section
    pub fn from_slice(data: &[u8]) -> (r: Result<Segment, Errors>)
        ensures
            match r {
                Ok(s) => segment_header_spec(data@) == Ok::<SegmentView, Errors>(s@),
                Err(e) => segment_header_spec(data@) == Err::<SegmentView, Errors>(e),
            },
    {
        if data.len() < SEGMENT_HEADER_LEN {
            Err(Errors::BufferTooSmall)
        } else {
            Segment::from_raw_section(data)
        }
    }

    /// Attach data to the Segment
    ///
    /// CAUTION: no validation is performed on the provided data,
    /// ensure that the provided vec is the segment's vec
    pub fn set_data(&mut self, data: Vec<u8>)
        ensures
            final(self)@ == (SegmentView { data: data@, ..old(self)@ }),
    {
        self.data = data;
    }

    /// Materialize the segment from `encrypted`, the exact extent of its
    /// encrypted bytes: decrypt with `key`, depad, and inflate. A segment that
    /// is loaded already is left as it is.
    pub fn load(&mut self, encrypted: &[u8], key: &BlockCipher) -> (r: Result<(), Errors>)
        ensures
            (final(self)@, r) == load_spec(old(self)@, key.key(), encrypted@),
    {
        if self.data.len() > 0 {
            return Ok(());
        }
        let r = decrypt_segment(encrypted, &mut self.data, key);
        match r {
            Ok(()) => Ok(()),
            Err(e) => Err(e),
        }
    }

    /// Whether this segment is a chunk
    pub fn is_chunk(&self) -> (r: bool)
        ensures
            r == (self@.kind == SegmentType::Chunk),
    {
        self.segment_type == SegmentType::Chunk
    }

    /// Whether this segment is a keyframe
    pub fn is_keyframe(&self) -> (r: bool)
        ensures
            r == (self@.kind == SegmentType::Keyframe),
    {
        self.segment_type == SegmentType::Keyframe
    }

    /// Get a section iterator over the data of the segment; fails with
    /// `NoData` while the segment is not loaded.
    pub fn section_iter<'a>(&'a self) -> (r: Result<SegmentIterator<'a>, Errors>)
        ensures
            self@.data.len() == 0 ==> r == Err::<SegmentIterator<'a>, Errors>(Errors::NoData),
            self@.data.len() > 0 ==> (r matches Ok(it) && it@ == (SectionCursor {
                data: self@.data,
                index: 0,
                last_error: None,
                last_type: None,
            })),
    {
        if self.data.len() == 0 {
            Err(Errors::NoData)
        } else {
            Ok(SegmentIterator::new(self.data.as_slice()))
        }
    }
}

/// A segment is exactly one of a chunk and a keyframe.
pub proof fn lemma_chunk_or_keyframe(s: SegmentView)
    ensures
        (s.kind == SegmentType::Chunk) != (s.kind == SegmentType::Keyframe),
{
}

/// Materializing a segment a second time, after a first that succeeded,
/// succeeds and leaves the segment byte for byte as the first left it.
pub proof fn lemma_load_idempotent(s: SegmentView, key: Seq<u8>, encrypted: Seq<u8>)
    requires
        load_spec(s, key, encrypted).1 is Ok,
    ensures
        load_spec(load_spec(s, key, encrypted).0, key, encrypted) == load_spec(s, key, encrypted),
{
    if s.data.len() == 0 {
        assert(s.data + Seq::<u8>::empty() =~= s.data);
        if let Ok(o) = pipeline_spec(key, encrypted, true, true) {
            assert(s.data + o =~= o);
            if o.len() == 0 {
                assert(o + o =~= o);
            }
        }
    }
}

} // verus!
