//! A fail-stopping iterator over the segment headers of a payload, which may
//! also materialize each segment as it goes.
use vstd::prelude::*;
use vstd::slice::slice_subrange;
use crate::cipher::BlockCipher;
use crate::error::Errors;
use crate::model::payload::{PayloadHeader, PayloadHeaderView, segment_key_spec};
use crate::model::segment::{
    Segment, SegmentView, SEGMENT_HEADER_LEN, load_spec, segment_header_spec,
};

verus! {

/// The abstract state of a payload iterator.
pub ghost struct PayloadCursor {
    /// The payload's bytes: the segment header table, then the segments' data
    pub data: Seq<u8>,
    /// How many segment headers have been decoded
    pub index: nat,
    /// How many segment headers the table holds
    pub segment_count: nat,
    /// The error that ended the iteration, if any
    pub last_error: Option<Errors>,
    /// The segment key, when segments are materialized
    pub key: Option<Seq<u8>>,
}

/// Where the data of segment `s` starts in a payload of `count` segments.
pub open spec fn segment_data_start(count: nat, s: SegmentView) -> int {
    SEGMENT_HEADER_LEN * count + s.offset
}

/// One step of the iteration: the next state, and the segment yielded, if
/// any. Each step decodes the next 17-byte header and, when a key is held,
/// materializes the segment from its span of the data region. A cursor that
/// failed, or went through the whole table, stays where it is; a failure
/// records its error and leaves the index at the header that failed.
pub open spec fn payload_step(c: PayloadCursor) -> (PayloadCursor, Option<SegmentView>) {
    if c.last_error is Some || c.index >= c.segment_count {
        (c, None)
    } else {
        match segment_header_spec(
            c.data.subrange(SEGMENT_HEADER_LEN * c.index, c.data.len() as int),
        ) {
            Err(e) => (PayloadCursor { last_error: Some(e), ..c }, None),
            Ok(s) => match c.key {
                None => (PayloadCursor { index: c.index + 1, ..c }, Some(s)),
                Some(k) => {
                    let start = segment_data_start(c.segment_count, s);
                    if c.data.len() < start + s.length {
                        (PayloadCursor { last_error: Some(Errors::BufferTooSmall), ..c }, None)
                    } else {
                        let loaded = load_spec(s, k, c.data.subrange(start, start + s.length));
                        match loaded.1 {
                            Ok(_) => (PayloadCursor { index: c.index + 1, ..c }, Some(loaded.0)),
                            Err(e) => (PayloadCursor { last_error: Some(e), ..c }, None),
                        }
                    }
                },
            },
        }
    }
}

/// The number of segments that a payload header announces.
pub open spec fn segment_count_of(chunk_count: u32, keyframe_count: u32) -> nat {
    (chunk_count + keyframe_count) as nat
}

/// The iterator that `PayloadIterator::new` builds over the payload `data`
/// that the header `head` describes.
pub open spec fn payload_iter_spec(data: Seq<u8>, head: PayloadHeaderView, parse_data: bool) -> Result<
    PayloadCursor,
    Errors,
> {
    let count = segment_count_of(head.chunk_count, head.keyframe_count);
    let start = PayloadCursor { data, index: 0, segment_count: count, last_error: None, key: None };
    if data.len() < SEGMENT_HEADER_LEN * count {
        Err(Errors::BufferTooSmall)
    } else if !parse_data {
        Ok(start)
    } else {
        match segment_key_spec(head.match_id, head.encryption_key) {
            Err(e) => Err(e),
            Ok(k) => if BlockCipher::key_len_ok(k.len() as int) {
                Ok(PayloadCursor { key: Some(k), ..start })
            } else {
                Err(Errors::InvalidBuffer)
            },
        }
    }
}

/// An iterator for lightweight scanning of data segments in a payload
pub struct PayloadIterator<'a> {
    /// The segment's data
    data: &'a [u8],
    /// The iterator's position in the segment table
    index: usize,
    /// The number of payload segments to go through
    segment_count: usize,
    /// Code of the last error that occured during an iteration
    last_error: Option<Errors>,
    /// The decryption cipher, when segment data is parsed
    key: Option<BlockCipher>,
}

impl<'a> View for PayloadIterator<'a> {
    type V = PayloadCursor;

    closed spec fn view(&self) -> PayloadCursor {
        PayloadCursor {
            data: self.data@,
            index: self.index as nat,
            segment_count: self.segment_count as nat,
            last_error: self.last_error,
            key: match self.key {
                Some(c) => Some(c.key()),
                None => None,
            },
        }
    }
}

impl<'a> PayloadIterator<'a> {
    #[verifier::type_invariant]
    spec fn inv(&self) -> bool {
        &&& self.index <= self.segment_count
        &&& SEGMENT_HEADER_LEN * self.segment_count <= self.data@.len()
    }

    /// Build a new iterator over the payload `data` (header table first)
    /// that `head` describes. With `parse_data`, the segment key is taken from
    /// `head` (which derives it at most once) and each segment is materialized as it is reached. Fails with
    /// `BufferTooSmall` when `data` cannot hold the header table, or with the
    /// key derivation's error.
    pub fn new(data: &'a [u8], head: &mut PayloadHeader, parse_data: bool) -> (r: Result<
        PayloadIterator<'a>,
        Errors,
    >)
        ensures
            match r {
                Ok(it) => payload_iter_spec(data@, old(head)@, parse_data) == Ok::<
                    PayloadCursor,
                    Errors,
                >(it@),
                Err(e) => payload_iter_spec(data@, old(head)@, parse_data) == Err::<
                    PayloadCursor,
                    Errors,
                >(e),
            },
            final(head)@ == old(head)@,
    {
        let count: u64 = head.chunk_count() as u64 + head.keyframe_count() as u64;
        if (data.len() as u64) / (SEGMENT_HEADER_LEN as u64) < count {
            return Err(Errors::BufferTooSmall);
        }
        let segment_count = count as usize;
        let key = if parse_data {
            let k = head.segment_encryption_key()?;
            Some(BlockCipher::new(k.as_slice())?)
        } else {
            None
        };
        Ok(PayloadIterator { data, segment_count, index: 0, last_error: None, key })
    }

    /// Whether the iterator is valid
    pub fn is_valid(&self) -> (r: bool)
        ensures
            r == self@.last_error is None,
    {
        self.last_error.is_none()
    }

    /// Get the last error that occured
    pub fn to_error(self) -> (r: Errors)
        requires
            self@.last_error is Some,
        ensures
            r == self@.last_error->Some_0,
    {
        match self.last_error {
            Some(e) => e,
            None => {
                assert(false);
                Errors::NoData
            },
        }
    }

    /// The index in the segment table the iterator is at
    ///
    /// This should only be used for debugging purposes when
    /// is_valid returns false after an iteration
    pub fn internal_index(&self) -> (r: usize)
        ensures
            r == self@.index,
    {
        self.index
    }

    /// The data slice the iterator is moving through
    ///
    /// This should only be used for debugging purposes when
    /// is_valid returns false after an iteration
    pub fn internal_slice(&self) -> (r: &'a [u8])
        ensures
            r@ == self@.data,
    {
        self.data
    }

    /// Decode the next segment header (and materialize the segment when a
    /// key is held), or end the sequence: after the last header, or on a
    /// failure, whose error and index are then kept.
    pub fn next(&mut self) -> (r: Option<Segment>)
        ensures
            final(self)@ == payload_step(old(self)@).0,
            match r {
                Some(s) => payload_step(old(self)@).1 == Some(s@),
                None => payload_step(old(self)@).1 is None,
            },
    {
        proof {
            use_type_invariant(&*self);
        }
        if self.last_error.is_some() || self.index >= self.segment_count {
            return None;
        }
        let dlen = self.data.len();
        proof {
            let (i, n) = (self.index as int, self.segment_count as int);
            assert(i * 17 <= 17 * n) by (nonlinear_arith)
                requires
                    i <= n,
            ;
            assert(i * 17 <= dlen);
        }
        let header_start = self.index * SEGMENT_HEADER_LEN;
        let rest = slice_subrange(self.data, header_start, self.data.len());
        let mut f = match Segment::from_slice(rest) {
            Ok(f) => f,
            Err(e) => {
                self.last_error = Some(e);
                return None;
            },
        };
        match &self.key {
            None => {},
            Some(key) => {
                let start = SEGMENT_HEADER_LEN * self.segment_count;
                let off = f.offset();
                let len = f.len();
                if self.data.len() - start < off || self.data.len() - start - off < len {
                    self.last_error = Some(Errors::BufferTooSmall);
                    return None;
                }
                let span = slice_subrange(self.data, start + off, start + off + len);
                match f.load(span, key) {
                    Ok(()) => {},
                    Err(e) => {
                        self.last_error = Some(e);
                        return None;
                    },
                }
            },
        }
        self.index = self.index + 1;
        Some(f)
    }
}

} // verus!
