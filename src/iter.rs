//! Iterators over a payload's segments and over a segment's sections.

pub mod payload;
pub mod segment;


pub use payload::PayloadIterator;
pub use segment::SegmentIterator;
