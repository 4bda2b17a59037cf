//! Parser for ROFL replay files: the file header, the metadata and payload
//! header sections, the encrypted and compressed payload segments, and the
//! sections framed inside each segment.
use vstd::prelude::*;
use vstd::slice::slice_subrange;
use vstd::string::StringSliceAdditionalSpecFns;

mod error;
pub mod le;
pub mod text;
pub mod cipher;
pub mod model;
pub mod iter;
pub mod segments;

pub use error::Errors;
use model::binheader::{BinHeaderView, bin_header_spec};
use model::payload::{PayloadHeaderView, payload_header_spec};
use model::{BinHeader, PayloadHeader, SEGMENT_HEADER_LEN};
use iter::payload::{PayloadCursor, PayloadIterator, payload_iter_spec, segment_count_of};
use text::{utf8_str, valid_utf8_bytes};

verus! {

/// The header of a file whose content `data` decodes.
pub open spec fn file_head(data: Seq<u8>) -> BinHeaderView {
    bin_header_spec(data)->Ok_0
}

/// The bytes of the file's section at `offset`, `len` bytes long, if the
/// file holds them.
pub open spec fn file_section(data: Seq<u8>, offset: u32, len: u32) -> Option<Seq<u8>> {
    if data.len() < offset + len {
        None
    } else {
        Some(data.subrange(offset as int, offset + len))
    }
}

/// The payload header of a file whose content `data` decodes.
pub open spec fn file_payload(data: Seq<u8>) -> Result<PayloadHeaderView, Errors> {
    let h = file_head(data);
    match file_section(data, h.payload_header_offset, h.payload_header_length) {
        None => Err(Errors::BufferTooSmall),
        Some(s) => payload_header_spec(s),
    }
}

/// The segment iterator over a file whose content `data` decodes.
pub open spec fn file_segments(data: Seq<u8>, with_data: bool) -> Result<PayloadCursor, Errors> {
    let h = file_head(data);
    if data.len() < h.file_length {
        Err(Errors::BufferTooSmall)
    } else {
        match file_payload(data) {
            Err(e) => Err(e),
            Ok(p) => if h.payload_offset > h.file_length {
                Err(Errors::BufferTooSmall)
            } else {
                payload_iter_spec(
                    data.subrange(h.payload_offset as int, h.file_length as int),
                    p,
                    with_data,
                )
            },
        }
    }
}

/// Base ROFL file parser
pub struct Rofl<'a> {
    /// ROFL file's Start Header
    head: BinHeader,
    /// ROFL File's data
    data: &'a [u8],
}

impl<'a> View for Rofl<'a> {
    type V = Seq<u8>;

    closed spec fn view(&self) -> Seq<u8> {
        self.data@
    }
}

impl<'a> Rofl<'a> {
    #[verifier::type_invariant]
    spec fn inv(&self) -> bool {
        bin_header_spec(self.data@) == Ok::<BinHeaderView, Errors>(self.head@)
    }

    /// Get the ROFL header
    pub fn head(&self) -> (r: &BinHeader)
        ensures
            bin_header_spec(self@) == Ok::<BinHeaderView, Errors>(r@),
    {
        proof {
            use_type_invariant(self);
        }
        &self.head
    }

    /// Get the JSON metadata string; fails with `BufferTooSmall` when the file
    /// does not hold the section, or with `InvalidBuffer` when it is not UTF-8.
    pub fn metadata(&self) -> (r: Result<&str, Errors>)
        ensures
            ({
                let h = file_head(self@);
                match file_section(self@, h.metadata_offset, h.metadata_length) {
                    None => r == Err::<&str, Errors>(Errors::BufferTooSmall),
                    Some(s) => if valid_utf8_bytes(s) {
                        r matches Ok(m) && m.spec_bytes() == s
                    } else {
                        r == Err::<&str, Errors>(Errors::InvalidBuffer)
                    },
                }
            }),
    {
        proof {
            use_type_invariant(self);
        }
        let off = self.head.metadata_offset();
        let len = self.head.metadata_len();
        if self.data.len() < off || self.data.len() - off < len {
            return Err(Errors::BufferTooSmall);
        }
        match utf8_str(slice_subrange(self.data, off, off + len)) {
            Some(s) => Ok(s),
            None => Err(Errors::InvalidBuffer),
        }
    }

    /// Get the payload header; fails with `BufferTooSmall` when the file does
    /// not hold its section or the section does not hold its fields.
    pub fn payload(&self) -> (r: Result<PayloadHeader, Errors>)
        ensures
            match r {
                Ok(p) => file_payload(self@) == Ok::<PayloadHeaderView, Errors>(p@),
                Err(e) => file_payload(self@) == Err::<PayloadHeaderView, Errors>(e),
            },
    {
        proof {
            use_type_invariant(self);
        }
        let off = self.head.payload_header_offset();
        let len = self.head.payload_header_len();
        if self.data.len() < off || self.data.len() - off < len {
            return Err(Errors::BufferTooSmall);
        }
        PayloadHeader::from_raw_section(slice_subrange(self.data, off, off + len))
    }

    /// Get an iterator over the payload's segments; with `with_data`, each
    /// segment is materialized as the iterator reaches it.
    pub fn segment_iter(&self, with_data: bool) -> (r: Result<PayloadIterator<'a>, Errors>)
        ensures
            match r {
                Ok(it) => file_segments(self@, with_data) == Ok::<PayloadCursor, Errors>(it@),
                Err(e) => file_segments(self@, with_data) == Err::<PayloadCursor, Errors>(e),
            },
    {
        proof {
            use_type_invariant(self);
        }
        let file_len = self.head.file_len();
        if self.data.len() < file_len {
            return Err(Errors::BufferTooSmall);
        }
        let mut p = self.payload()?;
        let start = self.head.payload_offset();
        if start > file_len {
            return Err(Errors::BufferTooSmall);
        }
        PayloadIterator::new(slice_subrange(self.data, start, file_len), &mut p, with_data)
    }

    /// Create a new Rofl instance from a ROFL file's content; fails with
    /// `InvalidBuffer` when the content is shorter than the fixed header or
    /// does not start with the format's magic bytes.
    pub fn from_slice(slice: &'a [u8]) -> (r: Result<Rofl<'a>, Errors>)
        ensures
            match r {
                Ok(f) => f@ == slice@ && bin_header_spec(slice@) is Ok,
                Err(e) => bin_header_spec(slice@) == Err::<BinHeaderView, Errors>(e),
            },
    {
        let head = BinHeader::from_raw_source(slice)?;
        Ok(Rofl { head, data: slice })
    }
}

/// In every file whose segments can be iterated, the segment header table
/// (17 bytes per chunk and per keyframe, from the payload offset on) ends
/// within the file length.
pub proof fn lemma_segment_table_fits(data: Seq<u8>, with_data: bool)
    requires
        file_segments(data, with_data) is Ok,
    ensures
        file_head(data).payload_offset + SEGMENT_HEADER_LEN * segment_count_of(
            file_payload(data)->Ok_0.chunk_count,
            file_payload(data)->Ok_0.keyframe_count,
        ) <= file_head(data).file_length,
{
}

} // verus!
