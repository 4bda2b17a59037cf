//! The payload header: payload layout and the material of the segment key.
use vstd::prelude::*;
use vstd::slice::{slice_subrange, slice_to_vec};
use crate::cipher::{BlockCipher, blowfish_decrypt, bytes_result, pipeline_spec};
use crate::error::Errors;
use crate::le::{le_u16, le_u32, le_u64, read_u16, read_u32, read_u64};
use crate::text::{utf8_str, valid_utf8_bytes};
use vstd::string::StringSliceAdditionalSpecFns;

verus! {

/// Length in bytes of the fixed part of a payload header.
pub const PAYLOAD_HEADER_FIXED_LEN: usize = 34;

/// What base64 decoding (standard alphabet, padded) makes of `s`, or `None`
/// when `s` is not valid base64.
pub uninterp spec fn base64_decoded(s: Seq<u8>) -> Option<Seq<u8>>;

/// Relies on `base64::decode` (0.13, standard configuration): the result
/// depends on the input alone. It panics only when the input length plus 3
/// overflows.
#[verifier::external_body]
fn base64_decode(s: &[u8]) -> (r: Option<Vec<u8>>)
    requires
        s@.len() + 3 <= usize::MAX,
    ensures
        match r {
            Some(v) => base64_decoded(s@) == Some(v@),
            None => base64_decoded(s@) is None,
        },
{
    match base64::decode(s) {
        Ok(v) => Some(v),
        Err(_) => None,
    }
}

/// The ASCII decimal digits of `n`, most significant first.
pub open spec fn decimal(n: nat) -> Seq<u8>
    decreases n,
{
    if n < 10 {
        seq![(48 + n) as u8]
    } else {
        decimal(n / 10).push((48 + n % 10) as u8)
    }
}

/// The ASCII decimal representation of `n`.
pub fn decimal_bytes(n: u64) -> (r: Vec<u8>)
    ensures
        r@ == decimal(n as nat),
    decreases n,
{
    if n < 10 {
        let mut v: Vec<u8> = Vec::new();
        v.push(48 + n as u8);
        assert(v@ =~= decimal(n as nat));
        v
    } else {
        let mut v = decimal_bytes(n / 10);
        v.push(48 + (n % 10) as u8);
        v
    }
}

/// The segment key that a match ID and an encrypted key string give: the
/// string base64-decoded, then decrypted and depadded with the decimal
/// match ID as the key.
pub open spec fn segment_key_spec(match_id: u64, encryption_key: Seq<u8>) -> Result<Seq<u8>, Errors> {
    match base64_decoded(encryption_key) {
        None => Err(Errors::InvalidBuffer),
        Some(k) => if BlockCipher::key_len_ok(decimal(match_id as nat).len() as int) {
            pipeline_spec(decimal(match_id as nat), k, true, false)
        } else {
            Err(Errors::InvalidBuffer)
        },
    }
}

/// The abstract content of a payload header.
pub ghost struct PayloadHeaderView {
    /// The ID of the game
    pub match_id: u64,
    /// The duration of the game in milliseconds
    pub match_length: u32,
    /// The number of keyframes in the payload
    pub keyframe_count: u32,
    /// The number of chunks in the payload
    pub chunk_count: u32,
    /// The last chunk used to load data before the game
    pub end_startup_chunk_id: u32,
    /// The chunk that contains the game's data
    pub start_game_chunk_id: u32,
    /// The duration covered by a single keyframe
    pub keyframe_interval: u32,
    /// The encrypted key of the game's payload
    pub encryption_key: Seq<u8>,
}

/// The payload header that starts `s`.
pub open spec fn payload_header_spec(s: Seq<u8>) -> Result<PayloadHeaderView, Errors> {
    if s.len() < PAYLOAD_HEADER_FIXED_LEN {
        Err(Errors::BufferTooSmall)
    } else if s.len() < PAYLOAD_HEADER_FIXED_LEN + le_u16(s, 32) {
        Err(Errors::BufferTooSmall)
    } else {
        Ok(
            PayloadHeaderView {
                match_id: le_u64(s, 0) as u64,
                match_length: le_u32(s, 8) as u32,
                keyframe_count: le_u32(s, 12) as u32,
                chunk_count: le_u32(s, 16) as u32,
                end_startup_chunk_id: le_u32(s, 20) as u32,
                start_game_chunk_id: le_u32(s, 24) as u32,
                keyframe_interval: le_u32(s, 28) as u32,
                encryption_key: s.subrange(
                    PAYLOAD_HEADER_FIXED_LEN as int,
                    PAYLOAD_HEADER_FIXED_LEN + le_u16(s, 32),
                ),
            },
        )
    }
}

/// ROFL file's payload header information
#[derive(Debug)]
pub struct PayloadHeader {
    /// The ID of the game
    match_id: u64,
    /// The duration of the game in milliseconds
    match_length: u32,
    /// The number of keyframes in the payload
    keyframe_count: u32,
    /// The number of chunks in the payload
    chunk_count: u32,
    /// The last chunk used to load data before the game
    end_startup_chunk_id: u32,
    /// The chunk that contains the game's data
    start_game_chunk_id: u32,
    /// The duration covered by a single keyframe
    keyframe_interval: u32,
    /// The encrypted key of the game's payload
    encryption_key: Vec<u8>,
    /// The segment key, once derived
    segment_key: Option<Vec<u8>>,
}

impl View for PayloadHeader {
    type V = PayloadHeaderView;

    closed spec fn view(&self) -> PayloadHeaderView {
        PayloadHeaderView {
            match_id: self.match_id,
            match_length: self.match_length,
            keyframe_count: self.keyframe_count,
            chunk_count: self.chunk_count,
            end_startup_chunk_id: self.end_startup_chunk_id,
            start_game_chunk_id: self.start_game_chunk_id,
            keyframe_interval: self.keyframe_interval,
            encryption_key: self.encryption_key@,
        }
    }
}

impl PayloadHeader {
    #[verifier::type_invariant]
    spec fn inv(&self) -> bool {
        &&& self.encryption_key@.len() <= u16::MAX
        &&& self.segment_key matches Some(k) ==> segment_key_spec(
            self.match_id,
            self.encryption_key@,
        ) == Ok::<Seq<u8>, Errors>(k@)
    }

    /// Get the ID of the game
    pub fn id(&self) -> (r: u64)
        ensures
            r == self@.match_id,
    {
        self.match_id
    }

    /// Get the duration of the game in milliseconds
    pub fn duration(&self) -> (r: u32)
        ensures
            r == self@.match_length,
    {
        self.match_length
    }

    /// Get the number of keyframes
    pub fn keyframe_count(&self) -> (r: u32)
        ensures
            r == self@.keyframe_count,
    {
        self.keyframe_count
    }

    /// Get the number of chunks
    pub fn chunk_count(&self) -> (r: u32)
        ensures
            r == self@.chunk_count,
    {
        self.chunk_count
    }

    /// Get the last loading chunk
    pub fn load_end_chunk(&self) -> (r: u32)
        ensures
            r == self@.end_startup_chunk_id,
    {
        self.end_startup_chunk_id
    }

    /// Get the first game chunk
    pub fn game_start_chunk(&self) -> (r: u32)
        ensures
            r == self@.start_game_chunk_id,
    {
        self.start_game_chunk_id
    }

    /// Get the duration of a keyframe in milliseconds
    pub fn keyframe_interval(&self) -> (r: u32)
        ensures
            r == self@.keyframe_interval,
    {
        self.keyframe_interval
    }

    /// Get the encrypted payload encryption key; fails with `InvalidBuffer`
    /// when its bytes are not UTF-8.
    pub fn encryption_key(&self) -> (r: Result<&str, Errors>)
        ensures
            r is Ok <==> valid_utf8_bytes(self@.encryption_key),
            r matches Ok(s) ==> s.spec_bytes() == self@.encryption_key,
            r matches Err(e) ==> e == Errors::InvalidBuffer,
    {
        match utf8_str(self.encryption_key.as_slice()) {
            Some(s) => Ok(s),
            None => Err(Errors::InvalidBuffer),
        }
    }

    /// Get the decrypted payload encryption key: the key that decrypts the
    /// payload's segments. It is derived on the first successful call and
    /// kept for the later ones.
    pub fn segment_encryption_key(&mut self) -> (r: Result<Vec<u8>, Errors>)
        ensures
            bytes_result(r) == segment_key_spec(old(self)@.match_id, old(self)@.encryption_key),
            final(self)@ == old(self)@,
    {
        proof {
            use_type_invariant(&*self);
        }
        if let Some(k) = &self.segment_key {
            return Ok(slice_to_vec(k.as_slice()));
        }
        let key = match base64_decode(self.encryption_key.as_slice()) {
            Some(k) => k,
            None => return Err(Errors::InvalidBuffer),
        };
        let id = decimal_bytes(self.match_id);
        let derived = blowfish_decrypt(key.as_slice(), id.as_slice(), true, false)?;
        self.segment_key = Some(slice_to_vec(derived.as_slice()));
        Ok(derived)
    }

    /// Decode a payload header from its section of the file; fails with
    /// `BufferTooSmall` when the section is shorter than its fields.
    pub fn from_raw_section(data: &[u8]) -> (r: Result<PayloadHeader, Errors>)
        ensures
            match r {
                Ok(h) => payload_header_spec(data@) == Ok::<PayloadHeaderView, Errors>(h@),
                Err(e) => payload_header_spec(data@) == Err::<PayloadHeaderView, Errors>(e),
            },
    {
        if data.len() < PAYLOAD_HEADER_FIXED_LEN {
            return Err(Errors::BufferTooSmall);
        }
        let key_len = read_u16(data, 32) as usize;
        if data.len() - PAYLOAD_HEADER_FIXED_LEN < key_len {
            return Err(Errors::BufferTooSmall);
        }
        Ok(
            PayloadHeader {
                match_id: read_u64(data, 0),
                match_length: read_u32(data, 8),
                keyframe_count: read_u32(data, 12),
                chunk_count: read_u32(data, 16),
                end_startup_chunk_id: read_u32(data, 20),
                start_game_chunk_id: read_u32(data, 24),
                keyframe_interval: read_u32(data, 28),
                encryption_key: slice_to_vec(
                    slice_subrange(data, PAYLOAD_HEADER_FIXED_LEN, PAYLOAD_HEADER_FIXED_LEN + key_len),
                ),
                segment_key: None,
            },
        )
    }
}

} // verus!
