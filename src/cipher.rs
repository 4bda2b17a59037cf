//! The block-cipher, depadding and gzip pipeline that recovers the segment
//! key and the segments' bytes.
use vstd::prelude::*;
use crate::error::Errors;
use blowfish::cipher::generic_array::GenericArray;
use blowfish::cipher::{BlockDecrypt, BlockEncrypt, KeyInit};
use std::io::Read;

verus! {

/// Length in bytes of one cipher block.
pub const BLOCK_LEN: usize = 8;

/// Blowfish's expanded key schedule. Verus cannot declare `Blowfish<T: ByteOrder>`
/// itself (the outside trait bound is refused), so the schedule is held here,
/// opaque, and reached only through the wrappers below.
#[verifier::external_body]
struct KeySchedule {
    inner: blowfish::Blowfish,
}

/// What Blowfish's decryption makes of one 8-byte block under `key`.
pub uninterp spec fn blowfish_block_decrypted(key: Seq<u8>, block: Seq<u8>) -> Seq<u8>;

/// What Blowfish's encryption makes of one 8-byte block under `key`.
pub uninterp spec fn blowfish_block_encrypted(key: Seq<u8>, block: Seq<u8>) -> Seq<u8>;

/// The bytes that inflating `data` as one gzip stream gives, or `None` when
/// the stream is malformed or truncated.
pub uninterp spec fn gzip_inflated(data: Seq<u8>) -> Option<Seq<u8>>;

/// A Blowfish key schedule, together with the key it was made from.
pub struct BlockCipher {
    key: Vec<u8>,
    state: KeySchedule,
}

impl BlockCipher {
    /// The key this cipher state was initialised with.
    pub closed spec fn key(&self) -> Seq<u8> {
        self.key@
    }

    /// Whether Blowfish accepts a key of `len` bytes.
    pub open spec fn key_len_ok(len: int) -> bool {
        4 <= len <= 56
    }

    /// Initialises a cipher state from `key`; fails with `InvalidBuffer` when
    /// Blowfish does not accept a key of that length.
    pub fn new(key: &[u8]) -> (r: Result<BlockCipher, Errors>)
        ensures
            r is Ok <==> Self::key_len_ok(key@.len() as int),
            r matches Ok(c) ==> c.key() == key@,
            r matches Err(e) ==> e == Errors::InvalidBuffer,
    {
        match blowfish_new(key) {
            Some(c) => Ok(c),
            None => Err(Errors::InvalidBuffer),
        }
    }
}

/// Relies on `Blowfish::new_from_slice`: it accepts keys of 4 to 56 bytes and
/// refuses every other length.
#[verifier::external_body]
fn blowfish_new(key: &[u8]) -> (r: Option<BlockCipher>)
    ensures
        r is Some <==> BlockCipher::key_len_ok(key@.len() as int),
        r matches Some(c) ==> c.key() == key@,
{
    match blowfish::Blowfish::new_from_slice(key) {
        Ok(inner) => Some(BlockCipher { key: key.to_vec(), state: KeySchedule { inner } }),
        Err(_) => None,
    }
}

/// Relies on `BlockDecrypt::decrypt_block_b2b` of Blowfish: decrypts the
/// 8-byte block at `off` and appends the 8 plain bytes to `out`.
#[verifier::external_body]
fn blowfish_decrypt_block(c: &BlockCipher, data: &[u8], off: usize, out: &mut Vec<u8>)
    requires
        off + BLOCK_LEN <= data@.len(),
    ensures
        final(out)@ == old(out)@ + blowfish_block_decrypted(
            c.key(),
            data@.subrange(off as int, off + BLOCK_LEN),
        ),
        final(out)@.len() == old(out)@.len() + BLOCK_LEN,
{
    let mut block = GenericArray::default();
    c.state.inner.decrypt_block_b2b(GenericArray::from_slice(&data[off..off + BLOCK_LEN]), &mut block);
    out.extend_from_slice(&block);
}

/// Relies on `BlockEncrypt::encrypt_block_b2b` of Blowfish: encrypts the
/// 8-byte block at `off` and appends the 8 cipher bytes to `out`; Blowfish's
/// decryption under the same key gives the block back.
#[verifier::external_body]
fn blowfish_encrypt_block(c: &BlockCipher, data: &[u8], off: usize, out: &mut Vec<u8>)
    requires
        off + BLOCK_LEN <= data@.len(),
    ensures
        final(out)@ == old(out)@ + blowfish_block_encrypted(
            c.key(),
            data@.subrange(off as int, off + BLOCK_LEN),
        ),
        final(out)@.len() == old(out)@.len() + BLOCK_LEN,
        blowfish_block_decrypted(
            c.key(),
            final(out)@.subrange(old(out)@.len() as int, final(out)@.len() as int),
        ) == data@.subrange(off as int, off + BLOCK_LEN),
{
    let mut block = GenericArray::default();
    c.state.inner.encrypt_block_b2b(GenericArray::from_slice(&data[off..off + BLOCK_LEN]), &mut block);
    out.extend_from_slice(&block);
}

/// Relies on flate2's `GzDecoder` read to its end: the result depends on the
/// input bytes alone.
#[verifier::external_body]
fn gzip_inflate(data: &[u8]) -> (r: Option<Vec<u8>>)
    ensures
        match r {
            Some(v) => gzip_inflated(data@) == Some(v@),
            None => gzip_inflated(data@) is None,
        },
{
    let mut out = Vec::new();
    match flate2::read::GzDecoder::new(data).read_to_end(&mut out) {
        Ok(_) => Some(out),
        Err(_) => None,
    }
}

/// Each 8-byte block of `data` decrypted on its own (no chaining, no IV).
pub open spec fn decrypt_blocks(key: Seq<u8>, data: Seq<u8>) -> Seq<u8>
    decreases data.len(),
{
    if data.len() < BLOCK_LEN {
        Seq::empty()
    } else {
        decrypt_blocks(key, data.subrange(0, data.len() - BLOCK_LEN)) + blowfish_block_decrypted(
            key,
            data.subrange(data.len() - BLOCK_LEN, data.len() as int),
        )
    }
}

/// Each 8-byte block of `data` encrypted on its own (no chaining, no IV).
pub open spec fn encrypt_blocks(key: Seq<u8>, data: Seq<u8>) -> Seq<u8>
    decreases data.len(),
{
    if data.len() < BLOCK_LEN {
        Seq::empty()
    } else {
        encrypt_blocks(key, data.subrange(0, data.len() - BLOCK_LEN)) + blowfish_block_encrypted(
            key,
            data.subrange(data.len() - BLOCK_LEN, data.len() as int),
        )
    }
}

/// Removal of the padding whose length the last byte gives.
pub open spec fn depad_spec(data: Seq<u8>) -> Result<Seq<u8>, Errors> {
    if data.len() == 0 {
        Err(Errors::BufferTooSmall)
    } else {
        let p = data.last() as int;
        if p > BLOCK_LEN {
            Err(Errors::InvalidBuffer)
        } else if data.len() < p {
            Err(Errors::BufferTooSmall)
        } else {
            Ok(data.subrange(0, data.len() - p))
        }
    }
}

/// Whether `len` bytes form a whole, non-empty number of cipher blocks.
pub open spec fn whole_blocks(len: int) -> bool {
    len > 0 && len % (BLOCK_LEN as int) == 0
}

/// The decrypt, then depad, then inflate pipeline on `data` under `key`.
pub open spec fn pipeline_spec(key: Seq<u8>, data: Seq<u8>, depad: bool, decompress: bool) -> Result<
    Seq<u8>,
    Errors,
> {
    if !whole_blocks(data.len() as int) {
        Err(Errors::InvalidBuffer)
    } else {
        let plain = decrypt_blocks(key, data);
        let unpadded = if depad {
            depad_spec(plain)
        } else {
            Ok(plain)
        };
        match unpadded {
            Err(e) => Err(e),
            Ok(u) => if decompress {
                match gzip_inflated(u) {
                    Some(o) => Ok(o),
                    None => Err(Errors::InvalidBuffer),
                }
            } else {
                Ok(u)
            },
        }
    }
}

/// The bytes that a result of the pipeline carries.
pub open spec fn bytes_result(r: Result<Vec<u8>, Errors>) -> Result<Seq<u8>, Errors> {
    match r {
        Ok(v) => Ok(v@),
        Err(e) => Err(e),
    }
}

proof fn lemma_prefix_subrange(s: Seq<u8>, a: int, b: int)
    requires
        0 <= a <= b <= s.len(),
    ensures
        s.subrange(0, b).subrange(0, a) == s.subrange(0, a),
        s.subrange(0, b).subrange(a, b) == s.subrange(a, b),
{
    assert(s.subrange(0, b).subrange(0, a) =~= s.subrange(0, a));
    assert(s.subrange(0, b).subrange(a, b) =~= s.subrange(a, b));
}

/// Decrypts every 8-byte block of `data` independently.
fn decrypt_all_blocks(c: &BlockCipher, data: &[u8]) -> (r: Vec<u8>)
    requires
        data@.len() % (BLOCK_LEN as nat) == 0,
    ensures
        r@ == decrypt_blocks(c.key(), data@),
{
    let n = data.len();
    let mut out: Vec<u8> = Vec::new();
    let mut i: usize = 0;
    while i < n
        invariant
            n == data@.len(),
            i <= n,
            i % BLOCK_LEN == 0,
            n % BLOCK_LEN == 0,
            out@ == decrypt_blocks(c.key(), data@.subrange(0, i as int)),
        decreases n - i,
    {
        blowfish_decrypt_block(c, data, i, &mut out);
        proof {
            lemma_prefix_subrange(data@, i as int, i + BLOCK_LEN);
        }
        i = i + BLOCK_LEN;
    }
    assert(data@.subrange(0, n as int) =~= data@);
    out
}

/// Runs the pipeline on `data` with an initialised cipher state: decrypts
/// each block, removes the padding when `depad` is set, and inflates the
/// result as gzip when `decompress` is set.
pub fn decrypt_pipeline(c: &BlockCipher, data: &[u8], depad: bool, decompress: bool) -> (r: Result<
    Vec<u8>,
    Errors,
>)
    ensures
        bytes_result(r) == pipeline_spec(c.key(), data@, depad, decompress),
{
    let n = data.len();
    if n == 0 || n % BLOCK_LEN != 0 {
        return Err(Errors::InvalidBuffer);
    }
    let mut plain = decrypt_all_blocks(c, data);
    if depad {
        let len = plain.len();
        if len == 0 {
            return Err(Errors::BufferTooSmall);
        }
        let p = plain[len - 1] as usize;
        if p > BLOCK_LEN {
            return Err(Errors::InvalidBuffer);
        }
        if len < p {
            return Err(Errors::BufferTooSmall);
        }
        plain.truncate(len - p);
    }
    if decompress {
        match gzip_inflate(plain.as_slice()) {
            Some(o) => Ok(o),
            None => Err(Errors::InvalidBuffer),
        }
    } else {
        Ok(plain)
    }
}

/// Runs the pipeline with a cipher state initialised from `key` for this call
/// alone; a key that Blowfish refuses fails with `InvalidBuffer`.
pub fn blowfish_decrypt(cipher: &[u8], key: &[u8], depad: bool, decompress: bool) -> (r: Result<
    Vec<u8>,
    Errors,
>)
    ensures
        bytes_result(r) == if BlockCipher::key_len_ok(key@.len() as int) {
            pipeline_spec(key@, cipher@, depad, decompress)
        } else {
            Err(Errors::InvalidBuffer)
        },
{
    let c = BlockCipher::new(key)?;
    decrypt_pipeline(&c, cipher, depad, decompress)
}

/// Decrypts, depads and inflates one segment's encrypted bytes with an
/// already initialised cipher state, appending the result to `out`. On
/// failure `out` is left as it was.
pub fn decrypt_segment(cipher: &[u8], out: &mut Vec<u8>, key: &BlockCipher) -> (r: Result<
    (),
    Errors,
>)
    ensures
        match pipeline_spec(key.key(), cipher@, true, true) {
            Ok(o) => r is Ok && final(out)@ == old(out)@ + o,
            Err(e) => r == Err::<(), Errors>(e) && final(out)@ == old(out)@,
        },
{
    let mut o = decrypt_pipeline(key, cipher, true, true)?;
    out.append(&mut o);
    Ok(())
}

/// Encrypts each 8-byte block of `plain` independently under `key`. Only a
/// whole, non-empty number of blocks is accepted (else `InvalidBuffer`), as
/// is only a key that Blowfish accepts. Decrypting the result without
/// depadding or inflating gives `plain` back.
pub fn blowfish_encrypt(plain: &[u8], key: &[u8]) -> (r: Result<Vec<u8>, Errors>)
    ensures
        r is Ok <==> BlockCipher::key_len_ok(key@.len() as int) && whole_blocks(plain@.len() as int),
        r is Err ==> r == Err::<Vec<u8>, Errors>(Errors::InvalidBuffer),
        r matches Ok(v) ==> v@ == encrypt_blocks(key@, plain@),
        r matches Ok(v) ==> pipeline_spec(key@, v@, false, false) == Ok::<Seq<u8>, Errors>(plain@),
{
    let c = BlockCipher::new(key)?;
    let n = plain.len();
    if n == 0 || n % BLOCK_LEN != 0 {
        return Err(Errors::InvalidBuffer);
    }
    let mut out: Vec<u8> = Vec::new();
    let mut i: usize = 0;
    while i < n
        invariant
            n == plain@.len(),
            i <= n,
            i % BLOCK_LEN == 0,
            n % BLOCK_LEN == 0,
            c.key() == key@,
            out@.len() == i,
            out@ == encrypt_blocks(key@, plain@.subrange(0, i as int)),
            decrypt_blocks(key@, out@) == plain@.subrange(0, i as int),
        decreases n - i,
    {
        let ghost prev = out@;
        blowfish_encrypt_block(&c, plain, i, &mut out);
        proof {
            lemma_prefix_subrange(plain@, i as int, i + BLOCK_LEN);
            assert(out@.subrange(0, i as int) =~= prev);
        }
        i = i + BLOCK_LEN;
    }
    assert(plain@.subrange(0, n as int) =~= plain@);
    Ok(out)
}

} // verus!
