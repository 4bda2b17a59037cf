//! Structs that map to parts of the data model of a ROFL file.

pub mod binheader;
pub mod payload;
pub mod section;
pub mod segment;

pub use binheader::BinHeader;
pub use payload::PayloadHeader;
pub use segment::{Segment, SegmentType, SEGMENT_HEADER_LEN};
