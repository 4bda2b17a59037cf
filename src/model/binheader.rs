//! The fixed-layout header at the start of a ROFL file.
use vstd::prelude::*;
use vstd::slice::{slice_subrange, slice_to_vec};
use crate::error::Errors;
use crate::le::{le_u16, le_u32, read_u16, read_u32};

verus! {

/// Length in bytes of the fixed file header.
pub const BIN_HEADER_LEN: usize = 288;

/// Whether `s` starts with the four bytes that identify a ROFL file ("RIOT").
pub open spec fn has_magic(s: Seq<u8>) -> bool {
    &&& s.len() >= 4
    &&& s[0] == 82u8
    &&& s[1] == 73u8
    &&& s[2] == 79u8
    &&& s[3] == 84u8
}

/// The abstract content of a file header.
pub ghost struct BinHeaderView {
    /// The file's 256-byte signature
    pub signature: Seq<u8>,
    /// The size of the header
    pub header_length: u16,
    /// Total file length
    pub file_length: u32,
    /// Offset of the metadata section
    pub metadata_offset: u32,
    /// Length of the metadata section
    pub metadata_length: u32,
    /// Offset of the payload header section
    pub payload_header_offset: u32,
    /// Length of the payload header section
    pub payload_header_length: u32,
    /// Offset of the payload section
    pub payload_offset: u32,
}

/// The file header that starts `s`.
pub open spec fn bin_header_spec(s: Seq<u8>) -> Result<BinHeaderView, Errors> {
    if s.len() < BIN_HEADER_LEN || !has_magic(s) {
        Err(Errors::InvalidBuffer)
    } else {
        Ok(
            BinHeaderView {
                signature: s.subrange(6, 262),
                header_length: le_u16(s, 262) as u16,
                file_length: le_u32(s, 264) as u32,
                metadata_offset: le_u32(s, 268) as u32,
                metadata_length: le_u32(s, 272) as u32,
                payload_header_offset: le_u32(s, 276) as u32,
                payload_header_length: le_u32(s, 280) as u32,
                payload_offset: le_u32(s, 284) as u32,
            },
        )
    }
}

/// ROFL file's header information
#[derive(Debug)]
pub struct BinHeader {
    /// The file's signature
    signature: Vec<u8>,
    /// The size of the header (constant in all known examples)
    header_length: u16,
    /// Total file length
    file_length: u32,
    /// Offset in bytes from the start of the file of the metadata section
    metadata_offset: u32,
    /// Length in bytes of the metadata section
    metadata_length: u32,
    /// Offset in bytes from the start of the file of the payload header section
    payload_header_offset: u32,
    /// Length in bytes of the payload header section
    payload_header_length: u32,
    /// Offset in bytes from the start of the file of the payload section
    payload_offset: u32,
}

impl View for BinHeader {
    type V = BinHeaderView;

    closed spec fn view(&self) -> BinHeaderView {
        BinHeaderView {
            signature: self.signature@,
            header_length: self.header_length,
            file_length: self.file_length,
            metadata_offset: self.metadata_offset,
            metadata_length: self.metadata_length,
            payload_header_offset: self.payload_header_offset,
            payload_header_length: self.payload_header_length,
            payload_offset: self.payload_offset,
        }
    }
}

impl BinHeader {
    /// Get the file's signature
    pub fn signature(&self) -> (r: &Vec<u8>)
        ensures
            r@ == self@.signature,
    {
        &self.signature
    }

    /// Get the file's header length
    pub fn header_len(&self) -> (r: usize)
        ensures
            r == self@.header_length,
    {
        self.header_length as usize
    }

    /// Get the file's length in bytes as per its binary data
    ///
    /// This may not match the actual file's length if an error occured
    pub fn file_len(&self) -> (r: usize)
        ensures
            r == self@.file_length,
    {
        self.file_length as usize
    }

    /// Length of the file's metadata section
    pub fn metadata_len(&self) -> (r: usize)
        ensures
            r == self@.metadata_length,
    {
        self.metadata_length as usize
    }

    /// Offset of the file's metadata section
    pub fn metadata_offset(&self) -> (r: usize)
        ensures
            r == self@.metadata_offset,
    {
        self.metadata_offset as usize
    }

    /// Length of the file's payload header section
    pub fn payload_header_len(&self) -> (r: usize)
        ensures
            r == self@.payload_header_length,
    {
        self.payload_header_length as usize
    }

    /// Offset of the file's payload header section
    pub fn payload_header_offset(&self) -> (r: usize)
        ensures
            r == self@.payload_header_offset,
    {
        self.payload_header_offset as usize
    }

    /// Offset of the file's payload section
    pub fn payload_offset(&self) -> (r: usize)
        ensures
            r == self@.payload_offset,
    {
        self.payload_offset as usize
    }

    /// Decode the fixed fields of a file header that `data` holds in full.
    fn from_raw_section(data: &[u8]) -> (r: BinHeader)
        requires
            data@.len() >= BIN_HEADER_LEN,
            has_magic(data@),
        ensures
            bin_header_spec(data@) == Ok::<BinHeaderView, Errors>(r@),
    {
        BinHeader {
            signature: slice_to_vec(slice_subrange(data, 6, 262)),
            header_length: read_u16(data, 262),
            file_length: read_u32(data, 264),
            metadata_offset: read_u32(data, 268),
            metadata_length: read_u32(data, 272),
            payload_header_offset: read_u32(data, 276),
            payload_header_length: read_u32(data, 280),
            payload_offset: read_u32(data, 284),
        }
    }

    /// Create a new header from the start of a file's content; fails with
    /// `InvalidBuffer` when the content is shorter than the fixed header or
    /// does not start with the format's magic bytes.
    pub fn from_raw_source(data: &[u8]) -> (r: Result<BinHeader, Errors>)
        ensures
            match r {
                Ok(h) => bin_header_spec(data@) == Ok::<BinHeaderView, Errors>(h@),
                Err(e) => bin_header_spec(data@) == Err::<BinHeaderView, Errors>(e),
            },
    {
        if data.len() < BIN_HEADER_LEN || data[0] != 82 || data[1] != 73 || data[2] != 79
            || data[3] != 84 {
            return Err(Errors::InvalidBuffer);
        }
        Ok(BinHeader::from_raw_section(data))
    }
}

} // verus!
