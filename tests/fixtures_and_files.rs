use blowfish::cipher::generic_array::GenericArray;
use blowfish::cipher::{BlockDecrypt, BlockEncrypt, KeyInit};
use blowfish::Blowfish;
use flate2::write::GzEncoder;
use flate2::Compression;
use lolrofl::cipher::{blowfish_decrypt, blowfish_encrypt, decrypt_pipeline, decrypt_segment, BlockCipher};
use lolrofl::iter::SegmentIterator;
use lolrofl::le::{read_u16, read_u32, read_u64};
use lolrofl::model::binheader::BIN_HEADER_LEN;
use lolrofl::model::payload::decimal_bytes;
use lolrofl::model::section::{GenericSection, PacketTime, SectionCore};
use lolrofl::model::{BinHeader, PayloadHeader, Segment};
use lolrofl::segments::{GenericDataSegment, SegmentDataCore, StartSegment};
use lolrofl::{Errors, Rofl};
use std::io::Write;

const MATCH_ID: u64 = 4_200_000_123;
const SEGMENT_KEY: &[u8] = b"0123456789abcdef";

fn gzip(data: &[u8]) -> Vec<u8> {
    let mut enc = GzEncoder::new(Vec::new(), Compression::default());
    enc.write_all(data).unwrap();
    enc.finish().unwrap()
}

fn pad(data: &[u8]) -> Vec<u8> {
    let mut v = data.to_vec();
    let p = 8 - v.len() % 8;
    for _ in 0..p {
        v.push(p as u8);
    }
    v
}

fn encrypt(data: &[u8], key: &[u8]) -> Vec<u8> {
    assert_eq!(data.len() % 8, 0);
    let c = Blowfish::<byteorder::BigEndian>::new_from_slice(key).unwrap();
    let mut out = Vec::new();
    for chunk in data.chunks(8) {
        let mut block = GenericArray::clone_from_slice(chunk);
        c.encrypt_block(&mut block);
        out.extend_from_slice(&block);
    }
    out
}

fn decrypt(data: &[u8], key: &[u8]) -> Vec<u8> {
    let c = Blowfish::<byteorder::BigEndian>::new_from_slice(key).unwrap();
    let mut out = Vec::new();
    for chunk in data.chunks(8) {
        let mut block = GenericArray::clone_from_slice(chunk);
        c.decrypt_block(&mut block);
        out.extend_from_slice(&block);
    }
    out
}

fn segment_blob(plain: &[u8]) -> Vec<u8> {
    encrypt(&pad(&gzip(plain)), SEGMENT_KEY)
}

fn encrypted_key_string() -> Vec<u8> {
    let id = MATCH_ID.to_string();
    base64::encode(encrypt(&pad(SEGMENT_KEY), id.as_bytes())).into_bytes()
}

fn payload_header(match_id: u64, duration: u32, chunks: u32, keyframes: u32, key: &[u8]) -> Vec<u8> {
    let mut v = Vec::new();
    v.extend_from_slice(&match_id.to_le_bytes());
    v.extend_from_slice(&duration.to_le_bytes());
    v.extend_from_slice(&keyframes.to_le_bytes());
    v.extend_from_slice(&chunks.to_le_bytes());
    v.extend_from_slice(&2u32.to_le_bytes());
    v.extend_from_slice(&3u32.to_le_bytes());
    v.extend_from_slice(&60000u32.to_le_bytes());
    v.extend_from_slice(&(key.len() as u16).to_le_bytes());
    v.extend_from_slice(key);
    v
}

fn segment_record(id: u32, kind: u8, length: u32, chunk_id: u32, offset: u32) -> Vec<u8> {
    let mut v = Vec::new();
    v.extend_from_slice(&id.to_le_bytes());
    v.push(kind);
    v.extend_from_slice(&length.to_le_bytes());
    v.extend_from_slice(&chunk_id.to_le_bytes());
    v.extend_from_slice(&offset.to_le_bytes());
    v
}

/// A whole file: fixed header, metadata, payload header, then the payload.
fn build_file(metadata: &[u8], payload_head: &[u8], payload: &[u8]) -> Vec<u8> {
    let meta_off = BIN_HEADER_LEN as u32;
    let ph_off = meta_off + metadata.len() as u32;
    let p_off = ph_off + payload_head.len() as u32;
    let file_len = p_off + payload.len() as u32;
    let mut v = vec![82u8, 73, 79, 84, 0, 0];
    for i in 0..256u32 {
        v.push((i * 7 % 256) as u8);
    }
    v.extend_from_slice(&(BIN_HEADER_LEN as u16).to_le_bytes());
    v.extend_from_slice(&file_len.to_le_bytes());
    v.extend_from_slice(&meta_off.to_le_bytes());
    v.extend_from_slice(&(metadata.len() as u32).to_le_bytes());
    v.extend_from_slice(&ph_off.to_le_bytes());
    v.extend_from_slice(&(payload_head.len() as u32).to_le_bytes());
    v.extend_from_slice(&p_off.to_le_bytes());
    assert_eq!(v.len(), BIN_HEADER_LEN);
    v.extend_from_slice(metadata);
    v.extend_from_slice(payload_head);
    v.extend_from_slice(payload);
    v
}

const METADATA: &[u8] = br#"{"gameLength":91722,"gameVersion":"12.10.444.2068"}"#;

/// A payload of the given segments (kind, plain bytes), with their data.
fn payload_of(segments: &[(u8, Vec<u8>)]) -> Vec<u8> {
    let mut table = Vec::new();
    let mut blobs = Vec::new();
    for (i, (kind, plain)) in segments.iter().enumerate() {
        let blob = segment_blob(plain);
        table.extend(segment_record(i as u32 + 1, *kind, blob.len() as u32, 0, blobs.len() as u32));
        blobs.extend(blob);
    }
    table.extend(blobs);
    table
}

#[test]
fn little_endian_reads() {
    let b = [0x01u8, 0x02, 0x03, 0x04, 0x05, 0x06, 0x07, 0x08, 0x09];
    assert_eq!(read_u16(&b, 0), 0x0201);
    assert_eq!(read_u32(&b, 1), 0x05040302);
    assert_eq!(read_u64(&b, 1), 0x0908070605040302);
}

#[test]
fn decimal_digits_of_ids() {
    assert_eq!(decimal_bytes(0), b"0".to_vec());
    assert_eq!(decimal_bytes(91722), b"91722".to_vec());
    assert_eq!(decimal_bytes(u64::MAX), u64::MAX.to_string().into_bytes());
}

#[test]
fn header_too_short_is_invalid() {
    let file = build_file(METADATA, &[], &[]);
    assert_eq!(BinHeader::from_raw_source(&file[..287]).unwrap_err(), Errors::InvalidBuffer);
    assert_eq!(Rofl::from_slice(&file[..3]).err().unwrap(), Errors::InvalidBuffer);
}

#[test]
fn header_bad_magic_is_invalid() {
    let mut file = build_file(METADATA, &[], &[]);
    file[0] = b'X';
    assert_eq!(Rofl::from_slice(&file).err().unwrap(), Errors::InvalidBuffer);
}

#[test]
fn header_fields_are_decoded() {
    let ph = payload_header(MATCH_ID, 91722, 0, 0, b"");
    let file = build_file(METADATA, &ph, &[]);
    let h = BinHeader::from_raw_source(&file).unwrap();
    assert_eq!(h.signature().len(), 256);
    assert_eq!(h.signature()[1], 7);
    assert_eq!(h.header_len(), 288);
    assert_eq!(h.file_len(), file.len());
    assert_eq!(h.metadata_offset(), 288);
    assert_eq!(h.metadata_len(), METADATA.len());
    assert_eq!(h.payload_header_offset(), 288 + METADATA.len());
    assert_eq!(h.payload_header_len(), ph.len());
    assert_eq!(h.payload_offset(), 288 + METADATA.len() + ph.len());
}

#[test]
fn end_to_end_duration_and_metadata() {
    let ph = payload_header(MATCH_ID, 0x01664a, 0, 0, &encrypted_key_string());
    let file = build_file(METADATA, &ph, &[]);
    let game = Rofl::from_slice(&file).unwrap();
    assert_eq!(game.head().file_len(), file.len());
    let payload = game.payload().unwrap();
    assert_eq!(payload.duration(), 91722);
    assert_eq!(payload.id(), MATCH_ID);
    assert!(game.metadata().unwrap().contains(r#""gameLength":91722"#));
}

#[test]
fn metadata_out_of_range_is_too_small() {
    let file = build_file(METADATA, &[], &[]);
    let cut = &file[..file.len() - 1];
    let game = Rofl::from_slice(cut).unwrap();
    assert_eq!(game.metadata().unwrap_err(), Errors::BufferTooSmall);
}

#[test]
fn metadata_not_utf8_is_invalid() {
    let file = build_file(&[0xff, 0xfe, 0x7b], &[], &[]);
    let game = Rofl::from_slice(&file).unwrap();
    assert_eq!(game.metadata().unwrap_err(), Errors::InvalidBuffer);
}

#[test]
fn payload_header_fields() {
    let key = encrypted_key_string();
    let ph = payload_header(MATCH_ID, 1000, 6, 2, &key);
    let p = PayloadHeader::from_raw_section(&ph).unwrap();
    assert_eq!(p.id(), MATCH_ID);
    assert_eq!(p.duration(), 1000);
    assert_eq!(p.chunk_count(), 6);
    assert_eq!(p.keyframe_count(), 2);
    assert_eq!(p.load_end_chunk(), 2);
    assert_eq!(p.game_start_chunk(), 3);
    assert_eq!(p.keyframe_interval(), 60000);
    assert_eq!(p.encryption_key().unwrap().as_bytes(), &key[..]);
}

#[test]
fn payload_header_too_short() {
    let ph = payload_header(MATCH_ID, 1000, 6, 2, b"abcd");
    assert_eq!(PayloadHeader::from_raw_section(&ph[..33]).unwrap_err(), Errors::BufferTooSmall);
    assert_eq!(PayloadHeader::from_raw_section(&ph[..37]).unwrap_err(), Errors::BufferTooSmall);
    assert!(PayloadHeader::from_raw_section(&ph[..38]).is_ok());
}

#[test]
fn payload_section_outside_file_is_too_small() {
    let ph = payload_header(MATCH_ID, 1000, 0, 0, b"");
    let file = build_file(METADATA, &ph, &[]);
    let game = Rofl::from_slice(&file[..file.len() - 2]).unwrap();
    assert_eq!(game.payload().unwrap_err(), Errors::BufferTooSmall);
}

#[test]
fn segment_key_is_derived() {
    let ph = payload_header(MATCH_ID, 1000, 0, 0, &encrypted_key_string());
    let mut p = PayloadHeader::from_raw_section(&ph).unwrap();
    assert_eq!(p.segment_encryption_key().unwrap(), SEGMENT_KEY.to_vec());
    assert_eq!(p.segment_encryption_key().unwrap(), SEGMENT_KEY.to_vec());
    assert_eq!(p.id(), MATCH_ID);
}

#[test]
fn segment_key_bad_base64_is_invalid() {
    let ph = payload_header(MATCH_ID, 1000, 0, 0, b"!!!not base64!!!");
    let mut p = PayloadHeader::from_raw_section(&ph).unwrap();
    assert_eq!(p.segment_encryption_key().unwrap_err(), Errors::InvalidBuffer);
}

#[test]
fn segment_key_short_match_id_is_invalid() {
    let key = base64::encode(encrypt(&pad(SEGMENT_KEY), b"1234"));
    let ph = payload_header(123, 1000, 0, 0, key.as_bytes());
    let mut p = PayloadHeader::from_raw_section(&ph).unwrap();
    assert_eq!(p.segment_encryption_key().unwrap_err(), Errors::InvalidBuffer);
}

#[test]
fn six_chunks_two_keyframes() {
    let mut table = Vec::new();
    for i in 0..8u32 {
        let kind = if i == 2 || i == 5 { 2 } else { 1 };
        table.extend(segment_record(i + 1, kind, 8, if kind == 2 { i } else { 0 }, 8 * i));
    }
    let ph = payload_header(MATCH_ID, 1000, 6, 2, &encrypted_key_string());
    let file = build_file(METADATA, &ph, &table);
    let game = Rofl::from_slice(&file).unwrap();
    let mut it = game.segment_iter(false).unwrap();
    let mut n = 0;
    let mut chunks = 0;
    while let Some(s) = it.next() {
        n += 1;
        assert_eq!(s.id(), n);
        assert_ne!(s.is_chunk(), s.is_keyframe());
        assert!(!s.is_loaded());
        if s.is_chunk() {
            chunks += 1;
        }
    }
    assert_eq!(n, 8);
    assert_eq!(chunks, 6);
    assert!(it.is_valid());
    assert_eq!(it.internal_index(), 8);
}

#[test]
fn segment_table_larger_than_file() {
    let ph = payload_header(MATCH_ID, 1000, 6, 2, &encrypted_key_string());
    let table = segment_record(1, 1, 8, 0, 0);
    let file = build_file(METADATA, &ph, &table);
    let game = Rofl::from_slice(&file).unwrap();
    assert_eq!(game.segment_iter(false).err().unwrap(), Errors::BufferTooSmall);
}

#[test]
fn truncated_file_has_no_segments() {
    let ph = payload_header(MATCH_ID, 1000, 1, 0, &encrypted_key_string());
    let file = build_file(METADATA, &ph, &segment_record(1, 1, 8, 0, 0));
    let game = Rofl::from_slice(&file[..file.len() - 1]).unwrap();
    assert_eq!(game.segment_iter(false).err().unwrap(), Errors::BufferTooSmall);
}

#[test]
fn segments_are_materialized() {
    let plain_a = b"chunk one bytes".to_vec();
    let plain_b = vec![7u8; 300];
    let payload = payload_of(&[(1, plain_a.clone()), (2, plain_b.clone())]);
    let ph = payload_header(MATCH_ID, 1000, 1, 1, &encrypted_key_string());
    let file = build_file(METADATA, &ph, &payload);
    let game = Rofl::from_slice(&file).unwrap();
    let mut it = game.segment_iter(true).unwrap();
    let a = it.next().unwrap();
    assert!(a.is_chunk());
    assert_eq!(a.data(), &plain_a);
    let b = it.next().unwrap();
    assert!(b.is_keyframe());
    assert_eq!(b.data(), &plain_b);
    assert!(it.next().is_none());
    assert!(it.is_valid());
}

#[test]
fn misaligned_segment_fails_with_invalid_buffer() {
    let blob = segment_blob(b"some data");
    let mut table = segment_record(1, 1, blob.len() as u32 - 3, 0, 0);
    table.extend(&blob);
    let ph = payload_header(MATCH_ID, 1000, 1, 0, &encrypted_key_string());
    let file = build_file(METADATA, &ph, &table);
    let game = Rofl::from_slice(&file).unwrap();
    let mut it = game.segment_iter(true).unwrap();
    assert!(it.next().is_none());
    assert!(!it.is_valid());
    assert_eq!(it.internal_index(), 0);
    assert_eq!(it.to_error(), Errors::InvalidBuffer);

    let mut seg = Segment::from_slice(&segment_record(1, 1, 5, 0, 0)).unwrap();
    let key = BlockCipher::new(SEGMENT_KEY).unwrap();
    assert_eq!(seg.load(&blob[..blob.len() - 3], &key), Err(Errors::InvalidBuffer));
    assert!(!seg.is_loaded());
}

#[test]
fn segment_data_beyond_payload_is_too_small() {
    let mut table = segment_record(1, 1, 64, 0, 0);
    table.extend(&[0u8; 16]);
    let ph = payload_header(MATCH_ID, 1000, 1, 0, &encrypted_key_string());
    let file = build_file(METADATA, &ph, &table);
    let game = Rofl::from_slice(&file).unwrap();
    let mut it = game.segment_iter(true).unwrap();
    assert!(it.next().is_none());
    assert_eq!(it.to_error(), Errors::BufferTooSmall);
}

#[test]
fn load_twice_is_identical() {
    let blob = segment_blob(b"keyframe snapshot");
    let key = BlockCipher::new(SEGMENT_KEY).unwrap();
    let mut seg = Segment::from_slice(&segment_record(4, 2, blob.len() as u32, 3, 0)).unwrap();
    assert_eq!(seg.load(&blob, &key), Ok(()));
    let first = seg.data().clone();
    assert_eq!(first, b"keyframe snapshot".to_vec());
    assert_eq!(seg.load(&blob, &key), Ok(()));
    assert_eq!(seg.data(), &first);
}

#[test]
fn segment_header_decoding() {
    let rec = segment_record(9, 2, 40, 7, 120);
    let s = Segment::from_slice(&rec).unwrap();
    assert_eq!(s.id(), 9);
    assert!(s.is_keyframe());
    assert!(!s.is_chunk());
    assert_eq!(s.len(), 40);
    assert_eq!(s.chunk_id(), 7);
    assert_eq!(s.offset(), 120);
    assert!(s.data().is_empty());
    assert_eq!(Segment::from_slice(&rec[..16]).unwrap_err(), Errors::BufferTooSmall);
    let bad = segment_record(9, 3, 40, 7, 120);
    assert_eq!(Segment::from_slice(&bad).unwrap_err(), Errors::InvalidBuffer);
}

#[test]
fn unloaded_segment_has_no_sections() {
    let mut s = Segment::from_slice(&segment_record(1, 1, 8, 0, 0)).unwrap();
    assert_eq!(s.section_iter().err().unwrap(), Errors::NoData);
    s.set_data(vec![0x91, 0, 0, 1, 2, 3, 4]);
    assert!(s.is_loaded());
    assert!(s.section_iter().is_ok());
    s.data_mut().clear();
    assert!(!s.is_loaded());
}

#[test]
fn encrypt_then_decrypt_round_trip() {
    let plain: Vec<u8> = (0..64u8).collect();
    let key = b"round trip key";
    let enc = blowfish_encrypt(&plain, key).unwrap();
    assert_ne!(enc, plain);
    assert_eq!(enc, encrypt(&plain, key));
    assert_eq!(blowfish_decrypt(&enc, key, false, false).unwrap(), plain);
    assert_eq!(decrypt(&enc, key), plain);
}

#[test]
fn encrypt_rejects_partial_blocks_and_bad_keys() {
    assert_eq!(blowfish_encrypt(&[1, 2, 3], b"good key").unwrap_err(), Errors::InvalidBuffer);
    assert_eq!(blowfish_encrypt(&[], b"good key").unwrap_err(), Errors::InvalidBuffer);
    assert_eq!(blowfish_encrypt(&[0; 8], b"abc").unwrap_err(), Errors::InvalidBuffer);
    assert!(BlockCipher::new(&[0u8; 57]).is_err());
    assert!(BlockCipher::new(&[0u8; 56]).is_ok());
}

#[test]
fn decrypt_depads() {
    let key = b"depad key";
    let enc = encrypt(&pad(b"hello"), key);
    assert_eq!(blowfish_decrypt(&enc, key, true, false).unwrap(), b"hello".to_vec());
    let c = BlockCipher::new(key).unwrap();
    assert_eq!(decrypt_pipeline(&c, &enc, true, false).unwrap(), b"hello".to_vec());
    assert_eq!(decrypt_pipeline(&c, &enc, false, false).unwrap(), pad(b"hello"));
}

#[test]
fn decrypt_pad_over_eight_is_invalid() {
    let key = b"depad key";
    let enc = encrypt(&[1, 2, 3, 4, 5, 6, 7, 9], key);
    assert_eq!(blowfish_decrypt(&enc, key, true, false).unwrap_err(), Errors::InvalidBuffer);
    let enc8 = encrypt(&[8; 8], key);
    assert_eq!(blowfish_decrypt(&enc8, key, true, false).unwrap(), Vec::<u8>::new());
}

#[test]
fn decrypt_not_gzip_is_invalid() {
    let c = BlockCipher::new(SEGMENT_KEY).unwrap();
    let enc = encrypt(&pad(b"plainly not a gzip stream"), SEGMENT_KEY);
    let mut out = vec![1u8];
    assert_eq!(decrypt_segment(&enc, &mut out, &c), Err(Errors::InvalidBuffer));
    assert_eq!(out, vec![1u8]);
    let good = segment_blob(b"abc");
    assert_eq!(decrypt_segment(&good, &mut out, &c), Ok(()));
    assert_eq!(out, vec![1u8, b'a', b'b', b'c']);
}

/// A section with the given marker, type and payload, laid out as its flags say.
fn section(marker: u8, ty: u16, payload: &[u8]) -> Vec<u8> {
    let mut v = vec![marker];
    if marker & 0x80 != 0 {
        v.push(5);
    } else {
        v.extend_from_slice(&1.5f32.to_bits().to_le_bytes());
    }
    if marker & 0x10 != 0 {
        v.push(payload.len() as u8);
    } else {
        v.extend_from_slice(&(payload.len() as u32).to_le_bytes());
    }
    if marker & 0x40 == 0 {
        v.extend_from_slice(&ty.to_le_bytes());
    }
    if marker & 0x20 != 0 {
        v.push(0xaa);
    } else {
        v.extend_from_slice(&[0xaa, 0xbb, 0xcc, 0xdd]);
    }
    v.extend_from_slice(payload);
    v
}

#[test]
fn every_flag_combination_frames_exactly() {
    for flags in 0..16u8 {
        let marker = ((flags & 1) << 7) | ((flags & 2) << 5) | ((flags & 4) << 3) | ((flags & 8) << 1) | 1;
        let mut buf = section(marker, 0x0102, b"payload!");
        let core = 1
            + if marker & 0x80 != 0 { 1 } else { 4 }
            + if marker & 0x10 != 0 { 1 } else { 4 }
            + if marker & 0x40 != 0 { 0 } else { 2 }
            + if marker & 0x20 != 0 { 1 } else { 4 };
        let total = buf.len();
        buf.extend_from_slice(&[0xee; 5]);
        let g = GenericSection::from_slice(&buf, Some(77)).unwrap();
        assert_eq!(g.core_len(), core);
        assert_eq!(g.data_len(), 8);
        assert_eq!(g.len(), core + 8);
        assert_eq!(g.len(), total);
        assert_eq!(g.bytes(), &buf[..total]);
        assert_eq!(g.kind(), marker);
        assert_eq!(g.raw_data().unwrap(), b"payload!");
        assert_eq!(g.data_type(), if marker & 0x40 != 0 { 77 } else { 0x0102 });
        assert_eq!(g.params().len(), if marker & 0x20 != 0 { 1 } else { 4 });
        assert_eq!(g.params()[0], 0xaa);
        match g.time() {
            PacketTime::Relative(d) => {
                assert!(marker & 0x80 != 0);
                assert_eq!(d, 5);
            }
            PacketTime::Absolute(bits) => {
                assert!(marker & 0x80 == 0);
                assert_eq!(f32::from_bits(bits), 1.5);
            }
        }
    }
}

#[test]
fn section_errors() {
    assert_eq!(GenericSection::from_slice(&[], None).unwrap_err(), Errors::NoData);
    let full = section(0x00, 3, b"xyz");
    assert_eq!(GenericSection::from_slice(&full[..10], None).unwrap_err(), Errors::BufferTooSmall);
    assert_eq!(GenericSection::from_slice(&full[..16], None).unwrap_err(), Errors::BufferTooSmall);
    let carried = section(0x40, 0, b"");
    assert_eq!(GenericSection::from_slice(&carried, None).unwrap_err(), Errors::NoData);
    let empty_payload = section(0x00, 3, b"");
    assert!(GenericSection::from_slice(&empty_payload, None).unwrap().raw_data().is_none());
}

#[test]
fn type_is_carried_between_sections() {
    let mut buf = section(0x90, 0x1234, b"ab");
    buf.extend(section(0xd0, 0, b"cd"));
    let mut it = SegmentIterator::new(&buf);
    let a = it.next().unwrap();
    assert_eq!(a.data_type(), 0x1234);
    let b = it.next().unwrap();
    assert_eq!(b.data_type(), 0x1234);
    assert_eq!(b.raw_data().unwrap(), b"cd");
    assert!(it.next().is_none());
    assert!(it.is_valid());
    assert_eq!(it.internal_index(), buf.len());
}

#[test]
fn carried_type_without_predecessor_fails() {
    let buf = section(0xd0, 0, b"cd");
    let mut it = SegmentIterator::new(&buf);
    assert!(it.next().is_none());
    assert!(!it.is_valid());
    assert_eq!(*it.error(), Errors::NoData);
    assert_eq!(it.internal_index(), 0);
}

#[test]
fn truncated_stream_stops_at_the_broken_section() {
    let first = section(0x90, 1, b"first");
    let second = section(0xb0, 2, b"second");
    let third = section(0x00, 3, b"third");
    let mut buf = first.clone();
    buf.extend(&second);
    buf.extend(&third[..6]);
    let mut it = SegmentIterator::new(&buf);
    let a = it.next().unwrap();
    let b = it.next().unwrap();
    assert!(it.is_valid());
    assert!(it.next().is_none());
    assert!(!it.is_valid());
    assert_eq!(*it.error(), Errors::BufferTooSmall);
    assert_eq!(it.internal_index(), first.len() + second.len());
    assert_eq!(it.internal_slice(), &buf[..]);
    assert!(it.next().is_none());
    assert_eq!(it.internal_index(), first.len() + second.len());
    assert_eq!(a.bytes(), &first[..]);
    assert_eq!(b.bytes(), &second[..]);
    assert_eq!(a.data_type(), 1);
    assert_eq!(b.data_type(), 2);
}

#[test]
fn sections_of_a_materialized_segment() {
    let mut body = section(0x91, 9, b"one");
    body.extend(section(0xd1, 0, b"two"));
    let payload = payload_of(&[(1, body.clone())]);
    let ph = payload_header(MATCH_ID, 1000, 1, 0, &encrypted_key_string());
    let file = build_file(METADATA, &ph, &payload);
    let game = Rofl::from_slice(&file).unwrap();
    let mut segs = game.segment_iter(true).unwrap();
    let seg = segs.next().unwrap();
    let mut it = seg.section_iter().unwrap();
    assert_eq!(it.next().unwrap().raw_data().unwrap(), b"one");
    let two = it.next().unwrap();
    assert_eq!(two.data_type(), 9);
    assert_eq!(two.raw_data().unwrap(), b"two");
    assert!(it.next().is_none());
    assert!(it.is_valid());
}

#[test]
fn table_framed_sections() {
    let buf = [17u8, 0, 0, 0, 0, 3, 0, 0, 0, 0, 0, 0, 9, 8, 7, 6];
    let g = GenericDataSegment::from_slice(&buf).unwrap();
    assert_eq!(g.core_len(), 12);
    assert_eq!(g.data_len(), 3);
    assert_eq!(g.len(), 15);
    assert_eq!(g.kind(), 17);
    assert_eq!(g.bytes(), &buf[..15]);
    assert_eq!(g.raw_data().unwrap(), &[9u8, 8, 7][..]);
    assert_eq!(GenericDataSegment::from_slice(&[]).unwrap_err(), Errors::NoData);
    assert_eq!(GenericDataSegment::from_slice(&[3u8; 20]).unwrap_err(), Errors::InvalidBuffer);
    assert_eq!(GenericDataSegment::from_slice(&buf[..14]).unwrap_err(), Errors::BufferTooSmall);
    let wide = [129u8, 0, 2, 0, 0, 0, 0, 0, 0, 0, 0, 0, 1, 2];
    assert_eq!(GenericDataSegment::from_slice(&wide).unwrap().len(), 14);
    let bare = [241u8, 0, 0, 0];
    assert!(GenericDataSegment::from_slice(&bare).unwrap().raw_data().is_none());
}

#[test]
fn start_sections() {
    let mut buf = vec![1u8];
    buf.extend_from_slice(&2.5f32.to_bits().to_le_bytes());
    buf.extend_from_slice(&2u16.to_le_bytes());
    buf.extend_from_slice(&0x0304u16.to_le_bytes());
    buf.extend_from_slice(&[0; 6]);
    buf.extend_from_slice(&[5, 6, 7]);
    let s = StartSegment::from_slice(&buf).unwrap();
    assert_eq!(f32::from_bits(s.timestamp()), 2.5);
    assert_eq!(s.p7(), 0x0304);
    assert_eq!(s.kind(), 1);
    assert_eq!(s.core_len(), 15);
    assert_eq!(s.data_len(), 2);
    assert_eq!(s.len(), 17);
    assert_eq!(s.raw_data().unwrap(), &buf[..17]);
    assert_eq!(StartSegment::from_slice(&buf[..14]).unwrap_err(), Errors::BufferTooSmall);
    assert_eq!(StartSegment::from_slice(&buf[..16]).unwrap_err(), Errors::BufferTooSmall);
}

#[test]
fn error_messages() {
    assert_eq!(Errors::NoData.message(), "No data was loaded or provided");
    assert_eq!(Errors::BufferTooSmall.message(), "The provided data buffer was too small to be used");
    assert_eq!(Errors::InvalidBuffer.message(), "The provided data buffer did not provide usable data");
}

#[test]
fn table_and_flags_agree_on_core_length() {
    for marker in [1u8, 17, 33, 49, 81, 113, 129, 145, 161, 177, 193, 209, 225, 241] {
        let mut buf = vec![marker];
        buf.extend_from_slice(&[0u8; 20]);
        let table = GenericDataSegment::from_slice(&buf).unwrap();
        let flags = GenericSection::from_slice(&buf, Some(1)).unwrap();
        assert_eq!(SegmentDataCore::core_len(&table), SectionCore::core_len(&flags));
    }
    let mut odd = vec![149u8];
    odd.extend_from_slice(&[0u8; 20]);
    assert_eq!(SegmentDataCore::core_len(&GenericDataSegment::from_slice(&odd).unwrap()), 13);
    assert_eq!(SectionCore::core_len(&GenericSection::from_slice(&odd, Some(1)).unwrap()), 9);
}
