//! The sections that make up a payload segment: one bit-flag-framed record
//! each.
use vstd::prelude::*;
use vstd::slice::slice_subrange;
use crate::error::Errors;
use crate::le::{le_u16, le_u32, read_u16, read_u32};

verus! {

/// Marker flag: the time is a 1-byte relative delta (else a 4-byte absolute time).
pub const TIME_BYTE: u8 = 0x80;

/// Marker flag: the type is carried over from the previous section (else a
/// 2-byte explicit type follows).
pub const TYPE_BYTE: u8 = 0x40;

/// Marker flag: the parameter field is 1 byte long (else 4 bytes).
pub const BPARAM_BYTE: u8 = 0x20;

/// Marker flag: the payload length is a 1-byte field (else a 4-byte field).
pub const LENGTH_BYTE: u8 = 0x10;

/// Whether `flag` is set in the marker byte `m`.
pub open spec fn has_flag(m: u8, flag: u8) -> bool {
    m & flag != 0
}

/// Width of the time field.
pub open spec fn time_width(m: u8) -> int {
    if has_flag(m, TIME_BYTE) { 1 } else { 4 }
}

/// Width of the payload length field.
pub open spec fn length_width(m: u8) -> int {
    if has_flag(m, LENGTH_BYTE) { 1 } else { 4 }
}

/// Width of the explicit type field.
pub open spec fn type_width(m: u8) -> int {
    if has_flag(m, TYPE_BYTE) { 0 } else { 2 }
}

/// Width of the parameter field.
pub open spec fn param_width(m: u8) -> int {
    if has_flag(m, BPARAM_BYTE) { 1 } else { 4 }
}

/// Offset of the payload length field.
pub open spec fn length_offset(m: u8) -> int {
    1 + time_width(m)
}

/// Offset of the explicit type field.
pub open spec fn type_offset(m: u8) -> int {
    length_offset(m) + length_width(m)
}

/// Offset of the parameter field.
pub open spec fn param_offset(m: u8) -> int {
    type_offset(m) + type_width(m)
}

/// Length of the core header that the marker byte `m` announces.
pub open spec fn core_header_len(m: u8) -> int {
    1 + time_width(m) + length_width(m) + type_width(m) + param_width(m)
}

/// The payload length that the core header at the start of `s` announces.
pub open spec fn payload_len(s: Seq<u8>) -> int {
    let m = s[0];
    if has_flag(m, LENGTH_BYTE) {
        s[length_offset(m)] as int
    } else {
        le_u32(s, length_offset(m))
    }
}

/// The abstract content of a decoded section.
pub ghost struct SectionView {
    /// Length of the core header
    pub core_len: nat,
    /// Resolved type of the section
    pub data_type: u32,
    /// All bytes of the section, core header and payload
    pub bytes: Seq<u8>,
}

/// The section that starts `s`, given the type of the section before it.
pub open spec fn section_spec(s: Seq<u8>, last_type: Option<u32>) -> Result<SectionView, Errors> {
    if s.len() == 0 {
        Err(Errors::NoData)
    } else {
        let m = s[0];
        let core = core_header_len(m);
        if s.len() < core {
            Err(Errors::BufferTooSmall)
        } else if s.len() < core + payload_len(s) {
            Err(Errors::BufferTooSmall)
        } else if has_flag(m, TYPE_BYTE) && last_type is None {
            Err(Errors::NoData)
        } else {
            Ok(
                SectionView {
                    core_len: core as nat,
                    data_type: if has_flag(m, TYPE_BYTE) {
                        last_type->Some_0
                    } else {
                        le_u16(s, type_offset(m)) as u32
                    },
                    bytes: s.subrange(0, core + payload_len(s)),
                },
            )
        }
    }
}

/// How time may be expressed within a section
pub enum PacketTime {
    /// Absolute time from the game's start: the bit pattern of an IEEE-754
    /// single-precision number of seconds
    Absolute(u32),
    /// Relative time in milliseconds from the last section
    Relative(u8),
}

/// A generic interface for data segments' sections
pub trait SectionCore {
    /// Length of the constant part of the section, in the specification.
    spec fn spec_core_len(&self) -> nat;

    /// Length of the variable part of the section, in the specification.
    spec fn spec_data_len(&self) -> nat;

    /// The raw variable part of the section, in the specification.
    spec fn spec_raw_data(&self) -> Option<Seq<u8>>;

    /// The section's marker byte, in the specification.
    spec fn spec_kind(&self) -> u8;

    /// Get the section's marker byte
    fn kind(&self) -> (r: u8)
        ensures
            r == self.spec_kind(),
    ;

    /// Get the length of the constant part of the section
    fn core_len(&self) -> (r: usize)
        ensures
            r == self.spec_core_len(),
    ;

    /// Get the length of the variable part of the section
    fn data_len(&self) -> (r: usize)
        ensures
            r == self.spec_data_len(),
    ;

    /// Get the full length of the section
    fn len(&self) -> (r: usize)
        ensures
            r == self.spec_core_len() + self.spec_data_len(),
    ;

    /// Get the raw variable part of the section, if it is not empty
    fn raw_data(&self) -> (r: Option<&[u8]>)
        ensures
            match r {
                Some(d) => self.spec_raw_data() == Some(d@),
                None => self.spec_raw_data() is None,
            },
    ;
}

/// Generic data container used for quick scans and iteration over a ROFL segment's data
#[derive(Clone, Copy, Debug)]
pub struct GenericSection<'a> {
    /// Length of the constant part of the section
    core_len: usize,
    /// Type of the data within the packet
    data_type: u32,
    /// Data of the section
    data: &'a [u8],
}

impl<'a> View for GenericSection<'a> {
    type V = SectionView;

    closed spec fn view(&self) -> SectionView {
        SectionView { core_len: self.core_len as nat, data_type: self.data_type, bytes: self.data@ }
    }
}

impl<'a> GenericSection<'a> {
    /// A section's bytes hold the core header that their marker announces,
    /// and the payload after it.
    #[verifier::type_invariant]
    spec fn inv(&self) -> bool {
        &&& self.data@.len() > 0
        &&& self.core_len == core_header_len(self.data@[0])
        &&& self.data@.len() == self.core_len + payload_len(self.data@)
    }

    /// Get full raw internal section
    pub fn bytes(&self) -> (r: &'a [u8])
        ensures
            r@ == self@.bytes,
    {
        self.data
    }

    /// Get the section's time
    pub fn time(&self) -> (r: PacketTime)
        ensures
            has_flag(self@.bytes[0], TIME_BYTE) ==> r == PacketTime::Relative(self@.bytes[1]),
            !has_flag(self@.bytes[0], TIME_BYTE) ==> r == PacketTime::Absolute(
                le_u32(self@.bytes, 1) as u32,
            ),
    {
        proof {
            use_type_invariant(self);
        }
        if self.data[0] & TIME_BYTE != 0 {
            PacketTime::Relative(self.data[1])
        } else {
            PacketTime::Absolute(read_u32(self.data, 1))
        }
    }

    /// The parameters for this packet. The slice may be either 1 or 4 bytes long
    pub fn params(&self) -> (r: &'a [u8])
        ensures
            r@ == self@.bytes.subrange(
                param_offset(self@.bytes[0]),
                param_offset(self@.bytes[0]) + param_width(self@.bytes[0]),
            ),
    {
        proof {
            use_type_invariant(self);
        }
        let marker = self.data[0];
        let params_offset: usize = 1 + (if marker & TIME_BYTE != 0 { 1 } else { 4 }) + (if marker
            & LENGTH_BYTE != 0 {
            1
        } else {
            4
        }) + (if marker & TYPE_BYTE != 0 { 0 } else { 2 });
        let params_len: usize = if marker & BPARAM_BYTE != 0 { 1 } else { 4 };
        slice_subrange(self.data, params_offset, params_offset + params_len)
    }

    /// The type of the data within the packet
    ///
    /// Types should be within u16's space, however a larger type
    /// is used for future-proofing
    pub fn data_type(&self) -> (r: u32)
        ensures
            r == self@.data_type,
    {
        self.data_type
    }

    /// Create a new GenericSection from a slice.
    ///
    /// Providing a slice with the data of multiple sections returns
    /// the section that starts at the first byte of the slice; `last_datatype`
    /// is the type of the section before it, if any.
    pub fn from_slice(slice: &'a [u8], last_datatype: Option<u32>) -> (r: Result<
        GenericSection<'a>,
        Errors,
    >)
        ensures
            match r {
                Ok(g) => section_spec(slice@, last_datatype) == Ok::<SectionView, Errors>(g@),
                Err(e) => section_spec(slice@, last_datatype) == Err::<SectionView, Errors>(e),
            },
    {
        if slice.len() == 0 {
            return Err(Errors::NoData);
        }
        let marker = slice[0];

        let length_offset: usize = 1 + if marker & TIME_BYTE != 0 { 1 } else { 4 };
        let type_offset: usize = length_offset + if marker & LENGTH_BYTE != 0 { 1 } else { 4 };
        let core_len: usize = type_offset + (if marker & TYPE_BYTE != 0 { 0 } else { 2 }) + (
        if marker & BPARAM_BYTE != 0 {
            1
        } else {
            4
        });

        if slice.len() < core_len {
            return Err(Errors::BufferTooSmall);
        }
        let data_len: usize = if marker & LENGTH_BYTE != 0 {
            slice[length_offset] as usize
        } else {
            read_u32(slice, length_offset) as usize
        };

        if slice.len() - core_len < data_len {
            return Err(Errors::BufferTooSmall);
        }

        let data_type: u32 = if marker & TYPE_BYTE != 0 {
            match last_datatype {
                Some(t) => t,
                None => return Err(Errors::NoData),
            }
        } else {
            read_u16(slice, type_offset) as u32
        };
        Ok(
            GenericSection {
                core_len,
                data: slice_subrange(slice, 0, core_len + data_len),
                data_type,
            },
        )
    }
}

impl<'a> SectionCore for GenericSection<'a> {
    open spec fn spec_kind(&self) -> u8 {
        self@.bytes[0]
    }

    open spec fn spec_core_len(&self) -> nat {
        self@.core_len
    }

    open spec fn spec_data_len(&self) -> nat {
        (self@.bytes.len() - self@.core_len) as nat
    }

    open spec fn spec_raw_data(&self) -> Option<Seq<u8>> {
        if self@.bytes.len() == self@.core_len {
            None
        } else {
            Some(self@.bytes.subrange(self@.core_len as int, self@.bytes.len() as int))
        }
    }

    fn kind(&self) -> (r: u8) {
        proof {
            use_type_invariant(self);
        }
        self.data[0]
    }

    fn core_len(&self) -> (r: usize) {
        self.core_len
    }

    fn data_len(&self) -> (r: usize) {
        proof {
            use_type_invariant(self);
        }
        self.data.len() - self.core_len
    }

    fn len(&self) -> (r: usize) {
        proof {
            use_type_invariant(self);
        }
        self.data.len()
    }

    fn raw_data(&self) -> (r: Option<&[u8]>) {
        proof {
            use_type_invariant(self);
        }
        if self.data.len() == self.core_len {
            None
        } else {
            Some(slice_subrange(self.data, self.core_len, self.data.len()))
        }
    }
}

/// Every decoded section spans its core header, whose length the marker
/// byte alone fixes (4 to 15 bytes), and then its payload; its bytes are the
/// first bytes of the buffer it was decoded from, in that number.
pub proof fn lemma_section_framing(s: Seq<u8>, last_type: Option<u32>)
    requires
        section_spec(s, last_type) is Ok,
    ensures
        ({
            let v = section_spec(s, last_type)->Ok_0;
            &&& v.core_len == core_header_len(s[0])
            &&& 4 <= v.core_len <= 15
            &&& v.bytes.len() == core_header_len(s[0]) + payload_len(s)
            &&& v.bytes == s.subrange(0, v.bytes.len() as int)
            &&& v.bytes[0] == s[0]
        }),
{
}

} // verus!
