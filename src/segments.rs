//! Sections of a segment's data framed by a fixed table of marker values,
//! each giving where the payload length field stands, its width and the core
//! header's length.
use vstd::prelude::*;
use vstd::slice::{slice_subrange, slice_to_vec};
use crate::error::Errors;
use crate::le::{le_u16, le_u32, read_u16, read_u32};
use crate::model::section::{core_header_len, has_flag, BPARAM_BYTE, LENGTH_BYTE, TIME_BYTE, TYPE_BYTE};

verus! {

/// Length of the core header of a start section.
pub const START_CORE_LEN: usize = 15;

/// The framing that a marker value selects: the offset of the payload length
/// field, its width in bytes, and the core header's length.
pub open spec fn data_segment_layout(m: u8) -> Option<(int, int, int)> {
    if m == 1 || m == 2 {
        Some((5, 2, 15))
    } else if m == 17 {
        Some((5, 1, 12))
    } else if m == 32 {
        Some((4, 1, 12))
    } else if m == 33 {
        Some((5, 2, 12))
    } else if m == 49 || m == 50 {
        Some((5, 1, 9))
    } else if m == 81 {
        Some((5, 1, 10))
    } else if m == 113 {
        Some((5, 1, 7))
    } else if m == 129 || m == 130 {
        Some((2, 2, 12))
    } else if 145 <= m <= 147 {
        Some((2, 1, 9))
    } else if m == 149 {
        Some((4, 1, 13))
    } else if m == 161 || m == 162 {
        Some((2, 2, 9))
    } else if 177 <= m <= 179 {
        Some((2, 1, 6))
    } else if m == 193 {
        Some((2, 2, 10))
    } else if m == 209 {
        Some((2, 1, 7))
    } else if m == 225 || m == 226 {
        Some((2, 2, 7))
    } else if m == 241 || m == 242 {
        Some((2, 1, 4))
    } else {
        None
    }
}

/// The payload length announced by a field `size_len` bytes wide at `size_offset`.
pub open spec fn sized_len(s: Seq<u8>, size_offset: int, size_len: int) -> int {
    if size_len == 0 {
        0
    } else if size_len == 1 {
        s[size_offset] as int
    } else {
        le_u16(s, size_offset)
    }
}

/// The abstract content of a table-framed section.
pub ghost struct DataSegmentView {
    /// Length of the core header
    pub core_len: nat,
    /// All bytes of the section
    pub bytes: Seq<u8>,
}

/// The section framed as given at the start of `s`.
pub open spec fn framed_spec(s: Seq<u8>, size_offset: int, size_len: int, core_size: int) -> Result<
    DataSegmentView,
    Errors,
> {
    if s.len() < core_size {
        Err(Errors::BufferTooSmall)
    } else if s.len() < core_size + sized_len(s, size_offset, size_len) {
        Err(Errors::BufferTooSmall)
    } else {
        Ok(
            DataSegmentView {
                core_len: core_size as nat,
                bytes: s.subrange(0, core_size + sized_len(s, size_offset, size_len)),
            },
        )
    }
}

/// The table-framed section at the start of `s`.
pub open spec fn data_segment_spec(s: Seq<u8>) -> Result<DataSegmentView, Errors> {
    if s.len() == 0 {
        Err(Errors::NoData)
    } else {
        match data_segment_layout(s[0]) {
            None => Err(Errors::InvalidBuffer),
            Some(l) => framed_spec(s, l.0, l.1, l.2),
        }
    }
}

/// A generic interface for data segments' sections
pub trait SegmentDataCore {
    /// Length of the constant part of the section, in the specification.
    spec fn spec_core_len(&self) -> nat;

    /// Length of the variable part of the section, in the specification.
    spec fn spec_data_len(&self) -> nat;

    /// The raw variable part of the section, in the specification.
    spec fn spec_raw_data(&self) -> Option<Seq<u8>>;

    /// The section's marker byte, in the specification.
    spec fn spec_kind(&self) -> u8;

    /// Get the section's marker byte
    fn kind(&self) -> (r: u8)
        ensures
            r == self.spec_kind(),
    ;

    /// Get the length of the constant part of the section
    fn core_len(&self) -> (r: usize)
        ensures
            r == self.spec_core_len(),
    ;

    /// Get the length of the variable part of the section
    fn data_len(&self) -> (r: usize)
        ensures
            r == self.spec_data_len(),
    ;

    /// Get the full length of the section
    fn len(&self) -> (r: usize)
        ensures
            r == self.spec_core_len() + self.spec_data_len(),
    ;

    /// Get the raw variable part of the section if any
    fn raw_data(&self) -> (r: Option<&[u8]>)
        ensures
            match r {
                Some(d) => self.spec_raw_data() == Some(d@),
                None => self.spec_raw_data() is None,
            },
    ;
}

/// 15-byte core section at the start of a data segment
#[derive(Debug)]
pub struct StartSegment {
    /// In-game timestamp for the start of the segment: the bit pattern of an
    /// IEEE-754 single-precision number
    timestamp: u32,
    /// Length of the variable part
    len: u16,
    /// Field at offset 7, of unknown meaning
    pos_7: u16,
    /// All bytes of the section
    data: Vec<u8>,
}

/// The abstract content of a start section.
pub ghost struct StartSegmentView {
    /// Bit pattern of the timestamp
    pub timestamp: u32,
    /// Length of the variable part
    pub len: u16,
    /// Field at offset 7
    pub pos_7: u16,
    /// All bytes of the section
    pub bytes: Seq<u8>,
}

/// The start section at the start of `s`.
pub open spec fn start_segment_spec(s: Seq<u8>) -> Result<StartSegmentView, Errors> {
    if s.len() < START_CORE_LEN {
        Err(Errors::BufferTooSmall)
    } else if s.len() < START_CORE_LEN + le_u16(s, 5) {
        Err(Errors::BufferTooSmall)
    } else {
        Ok(
            StartSegmentView {
                timestamp: le_u32(s, 1) as u32,
                len: le_u16(s, 5) as u16,
                pos_7: le_u16(s, 7) as u16,
                bytes: s.subrange(0, START_CORE_LEN + le_u16(s, 5)),
            },
        )
    }
}

impl View for StartSegment {
    type V = StartSegmentView;

    closed spec fn view(&self) -> StartSegmentView {
        StartSegmentView {
            timestamp: self.timestamp,
            len: self.len,
            pos_7: self.pos_7,
            bytes: self.data@,
        }
    }
}

impl StartSegment {
    #[verifier::type_invariant]
    spec fn inv(&self) -> bool {
        self.data@.len() == START_CORE_LEN + self.len
    }

    /// Decode the start section at the start of `slice`; fails with
    /// `BufferTooSmall` when `slice` does not hold it whole.
    pub fn from_slice(slice: &[u8]) -> (r: Result<StartSegment, Errors>)
        ensures
            match r {
                Ok(s) => start_segment_spec(slice@) == Ok::<StartSegmentView, Errors>(s@),
                Err(e) => start_segment_spec(slice@) == Err::<StartSegmentView, Errors>(e),
            },
    {
        if slice.len() < START_CORE_LEN {
            return Err(Errors::BufferTooSmall);
        }
        let len = read_u16(slice, 5);
        if slice.len() - START_CORE_LEN < len as usize {
            return Err(Errors::BufferTooSmall);
        }
        Ok(
            StartSegment {
                timestamp: read_u32(slice, 1),
                len,
                pos_7: read_u16(slice, 7),
                data: slice_to_vec(slice_subrange(slice, 0, START_CORE_LEN + len as usize)),
            },
        )
    }

    /// The bit pattern of the in-game timestamp (an IEEE-754 single-precision
    /// number of seconds)
    pub fn timestamp(&self) -> (r: u32)
        ensures
            r == self@.timestamp,
    {
        self.timestamp
    }

    /// The field at offset 7
    pub fn p7(&self) -> (r: u16)
        ensures
            r == self@.pos_7,
    {
        self.pos_7
    }
}

impl SegmentDataCore for StartSegment {
    open spec fn spec_kind(&self) -> u8 {
        1
    }

    open spec fn spec_core_len(&self) -> nat {
        START_CORE_LEN as nat
    }

    open spec fn spec_data_len(&self) -> nat {
        self@.len as nat
    }

    /// A start section hands out all of its bytes.
    open spec fn spec_raw_data(&self) -> Option<Seq<u8>> {
        Some(self@.bytes)
    }

    fn kind(&self) -> (r: u8) {
        1
    }

    fn core_len(&self) -> (r: usize) {
        START_CORE_LEN
    }

    fn data_len(&self) -> (r: usize) {
        self.len as usize
    }

    fn len(&self) -> (r: usize) {
        START_CORE_LEN + self.len as usize
    }

    fn raw_data(&self) -> (r: Option<&[u8]>) {
        proof {
            use_type_invariant(self);
        }
        Some(self.data.as_slice())
    }
}

/// Generic data container used for quick scans and iteration over a ROFL segment's data
#[derive(Clone, Copy, Debug)]
pub struct GenericDataSegment<'a> {
    /// Length of the constant part of the section
    core_len: usize,
    /// Data of the section
    data: &'a [u8],
}

impl<'a> View for GenericDataSegment<'a> {
    type V = DataSegmentView;

    closed spec fn view(&self) -> DataSegmentView {
        DataSegmentView { core_len: self.core_len as nat, bytes: self.data@ }
    }
}

impl<'a> GenericDataSegment<'a> {
    #[verifier::type_invariant]
    spec fn inv(&self) -> bool {
        &&& 0 < self.core_len <= self.data@.len()
    }

    /// Get full raw internal section
    pub fn bytes(&self) -> (r: &'a [u8])
        ensures
            r@ == self@.bytes,
    {
        self.data
    }

    /// Create a new GenericDataSegment from a slice.
    ///
    /// Providing a slice with the data of multiple sections returns
    /// the section that starts at the first byte of the slice
    pub fn from_slice(slice: &'a [u8]) -> (r: Result<GenericDataSegment<'a>, Errors>)
        ensures
            match r {
                Ok(g) => data_segment_spec(slice@) == Ok::<DataSegmentView, Errors>(g@),
                Err(e) => data_segment_spec(slice@) == Err::<DataSegmentView, Errors>(e),
            },
    {
        if slice.len() == 0 {
            return Err(Errors::NoData);
        }
        let m = slice[0];
        if m == 1 || m == 2 {
            GenericDataSegment::buffer_to_generic(slice, 5, 2, 15)
        } else if m == 17 {
            GenericDataSegment::buffer_to_generic(slice, 5, 1, 12)
        } else if m == 32 {
            GenericDataSegment::buffer_to_generic(slice, 4, 1, 12)
        } else if m == 33 {
            GenericDataSegment::buffer_to_generic(slice, 5, 2, 12)
        } else if m == 49 || m == 50 {
            GenericDataSegment::buffer_to_generic(slice, 5, 1, 9)
        } else if m == 81 {
            GenericDataSegment::buffer_to_generic(slice, 5, 1, 10)
        } else if m == 113 {
            GenericDataSegment::buffer_to_generic(slice, 5, 1, 7)
        } else if m == 129 || m == 130 {
            GenericDataSegment::buffer_to_generic(slice, 2, 2, 12)
        } else if 145 <= m && m <= 147 {
            GenericDataSegment::buffer_to_generic(slice, 2, 1, 9)
        } else if m == 149 {
            GenericDataSegment::buffer_to_generic(slice, 4, 1, 13)
        } else if m == 161 || m == 162 {
            GenericDataSegment::buffer_to_generic(slice, 2, 2, 9)
        } else if 177 <= m && m <= 179 {
            GenericDataSegment::buffer_to_generic(slice, 2, 1, 6)
        } else if m == 193 {
            GenericDataSegment::buffer_to_generic(slice, 2, 2, 10)
        } else if m == 209 {
            GenericDataSegment::buffer_to_generic(slice, 2, 1, 7)
        } else if m == 225 || m == 226 {
            GenericDataSegment::buffer_to_generic(slice, 2, 2, 7)
        } else if m == 241 || m == 242 {
            GenericDataSegment::buffer_to_generic(slice, 2, 1, 4)
        } else {
            Err(Errors::InvalidBuffer)
        }
    }

    /// Build a section from `slice` whose payload length field is `size_len`
    /// bytes wide at `size_offset`, after a core header of `core_size` bytes.
    fn buffer_to_generic(slice: &'a [u8], size_offset: usize, size_len: usize, core_size: usize) -> (r: Result<
        GenericDataSegment<'a>,
        Errors,
    >)
        requires
            size_len <= 2,
            0 < core_size,
            size_offset + size_len <= core_size,
        ensures
            match r {
                Ok(g) => framed_spec(slice@, size_offset as int, size_len as int, core_size as int)
                    == Ok::<DataSegmentView, Errors>(g@),
                Err(e) => framed_spec(slice@, size_offset as int, size_len as int, core_size as int)
                    == Err::<DataSegmentView, Errors>(e),
            },
    {
        if slice.len() < core_size {
            return Err(Errors::BufferTooSmall);
        }
        let data_len: usize = if size_len == 0 {
            0
        } else if size_len == 1 {
            slice[size_offset] as usize
        } else {
            read_u16(slice, size_offset) as usize
        };
        if slice.len() - core_size < data_len {
            return Err(Errors::BufferTooSmall);
        }
        Ok(
            GenericDataSegment {
                core_len: core_size,
                data: slice_subrange(slice, 0, core_size + data_len),
            },
        )
    }
}

impl<'a> SegmentDataCore for GenericDataSegment<'a> {
    open spec fn spec_kind(&self) -> u8 {
        self@.bytes[0]
    }

    open spec fn spec_core_len(&self) -> nat {
        self@.core_len
    }

    open spec fn spec_data_len(&self) -> nat {
        (self@.bytes.len() - self@.core_len) as nat
    }

    open spec fn spec_raw_data(&self) -> Option<Seq<u8>> {
        if self@.bytes.len() == self@.core_len {
            None
        } else {
            Some(self@.bytes.subrange(self@.core_len as int, self@.bytes.len() as int))
        }
    }

    fn kind(&self) -> (r: u8) {
        proof {
            use_type_invariant(self);
        }
        self.data[0]
    }

    fn core_len(&self) -> (r: usize) {
        self.core_len
    }

    fn data_len(&self) -> (r: usize) {
        proof {
            use_type_invariant(self);
        }
        self.data.len() - self.core_len
    }

    fn len(&self) -> (r: usize) {
        proof {
            use_type_invariant(self);
        }
        self.data.len()
    }

    fn raw_data(&self) -> (r: Option<&[u8]>) {
        proof {
            use_type_invariant(self);
        }
        if self.data.len() == self.core_len {
            None
        } else {
            Some(slice_subrange(self.data, self.core_len, self.data.len()))
        }
    }
}

/// The fixed table and the bit-flag framing give the same core header length
/// for every marker value the table knows, but 149, for which the table
/// gives 13 bytes and the flags 9.
pub proof fn lemma_table_agrees_with_flags(m: u8)
    requires
        data_segment_layout(m) is Some,
    ensures
        m != 149 ==> data_segment_layout(m)->Some_0.2 == core_header_len(m),
        m == 149 ==> data_segment_layout(m)->Some_0.2 == 13 && core_header_len(m) == 9,
{
    assert(has_flag(m, TIME_BYTE) <==> m >= 128) by (bit_vector);
    assert(has_flag(m, TYPE_BYTE) <==> m % 128 >= 64) by (bit_vector);
    assert(has_flag(m, BPARAM_BYTE) <==> m % 64 >= 32) by (bit_vector);
    assert(has_flag(m, LENGTH_BYTE) <==> m % 32 >= 16) by (bit_vector);
}

} // verus!
