//! Tests that build whole patch containers (compressed with bzip2, as the
//! format prescribes) and apply them, including patches generated by the
//! qbsdiff implementation of the format.

use qbspatch::error::Error;
use qbspatch::patch::{apply_patch, Bspatch};

fn encode_int(x: i64, b: &mut [u8]) {
    let v: u64 = if x < 0 {
        (x.wrapping_neg() as u64) | (1u64 << 63)
    } else {
        x as u64
    };
    b.copy_from_slice(&v.to_le_bytes());
}

fn bz_compress(data: &[u8]) -> Vec<u8> {
    let mut enc = bzip2::read::BzEncoder::new(data, bzip2::Compression::new(9));
    let mut out = Vec::new();
    std::io::Read::read_to_end(&mut enc, &mut out).unwrap();
    out
}

fn make_ctrl(triples: &[(i64, i64, i64)]) -> Vec<u8> {
    let mut c = vec![0u8; 24 * triples.len()];
    for (i, t) in triples.iter().enumerate() {
        encode_int(t.0, &mut c[24 * i..24 * i + 8]);
        encode_int(t.1, &mut c[24 * i + 8..24 * i + 16]);
        encode_int(t.2, &mut c[24 * i + 16..24 * i + 24]);
    }
    c
}

fn container(target_len: i64, ctrl_raw: &[u8], diff: &[u8], extra: &[u8]) -> Vec<u8> {
    let ctrl_z = bz_compress(ctrl_raw);
    let diff_z = bz_compress(diff);
    let extra_z = bz_compress(extra);
    let mut p = Vec::new();
    p.extend_from_slice(b"BSDIFF40");
    let mut buf = [0u8; 8];
    encode_int(ctrl_z.len() as i64, &mut buf);
    p.extend_from_slice(&buf);
    encode_int(diff_z.len() as i64, &mut buf);
    p.extend_from_slice(&buf);
    encode_int(target_len, &mut buf);
    p.extend_from_slice(&buf);
    p.extend_from_slice(&ctrl_z);
    p.extend_from_slice(&diff_z);
    p.extend_from_slice(&extra_z);
    p
}

fn make_patch(target_len: i64, triples: &[(i64, i64, i64)], diff: &[u8], extra: &[u8]) -> Vec<u8> {
    container(target_len, &make_ctrl(triples), diff, extra)
}

fn gen_patch(source: &[u8], target: &[u8]) -> Vec<u8> {
    let mut patch = Vec::new();
    qbsdiff::Bsdiff::new(source, target)
        .compare(std::io::Cursor::new(&mut patch))
        .unwrap();
    patch
}

fn qbsdiff_apply(patch: &[u8], source: &[u8]) -> Vec<u8> {
    let mut target = Vec::new();
    qbsdiff::Bspatch::new(patch)
        .unwrap()
        .apply(source, std::io::Cursor::new(&mut target))
        .unwrap();
    target
}

fn lcg_bytes(n: usize, seed: u64) -> Vec<u8> {
    let mut x = seed;
    let mut v = Vec::with_capacity(n);
    for _ in 0..n {
        x = x.wrapping_mul(6364136223846793005).wrapping_add(1442695040888963407);
        v.push((x >> 33) as u8);
    }
    v
}

#[test]
fn scenario_hello_planet() {
    let source = b"hello world";
    let patch = make_patch(11, &[(5, 6, 0)], &[0, 0, 0, 0, 0], b"planet");
    let out = apply_patch(&patch, source, 131072).unwrap();
    assert_eq!(out, b"helloplanet");
}

#[test]
fn scenario_hello_planet_wrong_declared_length() {
    let source = b"hello world";
    let patch = make_patch(12, &[(5, 6, 0)], &[0, 0, 0, 0, 0], b"planet");
    assert_eq!(apply_patch(&patch, source, 131072), Err(Error::SizeMismatch));
}

#[test]
fn scenario_matches_qbsdiff() {
    let source = b"hello world";
    let patch = make_patch(11, &[(5, 6, 0)], &[0, 0, 0, 0, 0], b"planet");
    let ours = apply_patch(&patch, source, 131072).unwrap();
    assert_eq!(ours, qbsdiff_apply(&patch, source));
}

#[test]
fn corrupt_magic_fails_invalid_header() {
    let source = b"hello world";
    let mut patch = make_patch(11, &[(5, 6, 0)], &[0, 0, 0, 0, 0], b"planet");
    patch[0] = b'X';
    patch[1] = b'X';
    patch[2] = b'X';
    patch[3] = b'X';
    assert_eq!(apply_patch(&patch, source, 131072), Err(Error::InvalidHeader));
}

#[test]
fn short_container_fails_truncated_patch() {
    assert_eq!(apply_patch(b"BSDIFF40", b"", 131072), Err(Error::TruncatedPatch));
    assert_eq!(apply_patch(b"", b"", 131072), Err(Error::TruncatedPatch));
}

#[test]
fn oversized_segment_lengths_fail_truncated_patch() {
    let mut patch = make_patch(11, &[(5, 6, 0)], &[0, 0, 0, 0, 0], b"planet");
    // Declare a control segment longer than the whole container.
    encode_int(patch.len() as i64, &mut patch[8..16]);
    assert_eq!(apply_patch(&patch, b"hello world", 131072), Err(Error::TruncatedPatch));
}

#[test]
fn garbage_segment_fails_corrupt_stream() {
    let mut p = Vec::new();
    p.extend_from_slice(b"BSDIFF40");
    let mut buf = [0u8; 8];
    encode_int(10, &mut buf);
    p.extend_from_slice(&buf);
    encode_int(0, &mut buf);
    p.extend_from_slice(&buf);
    encode_int(0, &mut buf);
    p.extend_from_slice(&buf);
    p.extend_from_slice(&[1, 2, 3, 4, 5, 6, 7, 8, 9, 10]);
    assert_eq!(apply_patch(&p, b"", 131072), Err(Error::CorruptStream));
}

#[test]
fn half_triple_fails_truncated_control() {
    let patch = container(0, &[0u8; 12], b"", b"");
    assert_eq!(apply_patch(&patch, b"abc", 131072), Err(Error::TruncatedControl));
}

#[test]
fn boundary_cursor_to_exact_source_end_is_valid() {
    let source = b"abcd";
    let patch = make_patch(4, &[(4, 0, 0)], &[0, 0, 0, 0], b"");
    assert_eq!(apply_patch(&patch, source, 131072).unwrap(), b"abcd");
}

#[test]
fn boundary_cursor_past_source_end_fails_source_overrun() {
    let source = b"abcd";
    let patch = make_patch(5, &[(5, 0, 0)], &[0, 0, 0, 0, 0], b"");
    assert_eq!(apply_patch(&patch, source, 131072), Err(Error::SourceOverrun));
}

#[test]
fn transient_negative_cursor_is_tolerated_until_read() {
    // The cursor dips to -5 after the first triple, comes back to 0 before
    // any diff byte is read, and the apply succeeds.
    let source = b"abcd";
    let patch = make_patch(3, &[(0, 1, -5), (0, 1, 5), (1, 0, 0)], &[0], b"xy");
    assert_eq!(apply_patch(&patch, source, 131072).unwrap(), b"xya");
}

#[test]
fn negative_cursor_at_diff_read_fails_invalid_seek() {
    let source = b"abcd";
    let patch = make_patch(2, &[(0, 1, -5), (1, 0, 0)], &[0], b"x");
    assert_eq!(apply_patch(&patch, source, 131072), Err(Error::InvalidSeek));
}

#[test]
fn diff_stream_exhausted_fails_stream_overrun() {
    let patch = make_patch(2, &[(2, 0, 0)], &[0], b"");
    assert_eq!(apply_patch(&patch, b"ab", 131072), Err(Error::StreamOverrun));
}

#[test]
fn extra_stream_exhausted_fails_stream_overrun() {
    let patch = make_patch(3, &[(0, 3, 0)], &[], b"ab");
    assert_eq!(apply_patch(&patch, b"", 131072), Err(Error::StreamOverrun));
}

#[test]
fn size_sum_must_match_declared_length() {
    // Triples sum to 11; any other declared length is a SizeMismatch.
    let source = b"hello world";
    for (decl, want) in [
        (11, Ok(b"helloplanet".to_vec())),
        (10, Err(Error::SizeMismatch)),
        (0, Err(Error::SizeMismatch)),
    ] {
        let patch = make_patch(decl, &[(5, 6, 0)], &[0, 0, 0, 0, 0], b"planet");
        assert_eq!(apply_patch(&patch, source, 131072), want);
    }
}

#[test]
fn zero_buffer_size_fails_invalid_configuration() {
    let patch = make_patch(0, &[], b"", b"");
    assert_eq!(apply_patch(&patch, b"", 0), Err(Error::InvalidConfiguration));
    let b = Bspatch::new(&patch).unwrap().buffer_size(0);
    assert_eq!(b.apply(b""), Err(Error::InvalidConfiguration));
}

#[test]
fn buffer_size_invariance() {
    let source = lcg_bytes(4096, 7);
    let target = lcg_bytes(5000, 9);
    let patch = gen_patch(&source, &target);
    let out1 = apply_patch(&patch, &source, 1).unwrap();
    let out64 = apply_patch(&patch, &source, 64).unwrap();
    let out_big = apply_patch(&patch, &source, 1048576).unwrap();
    assert_eq!(out1, target);
    assert_eq!(out1, out64);
    assert_eq!(out64, out_big);
}

#[test]
fn round_trip_empty_to_empty() {
    let patch = gen_patch(b"", b"");
    assert_eq!(apply_patch(&patch, b"", 131072).unwrap(), b"");
}

#[test]
fn round_trip_empty_to_data() {
    let patch = gen_patch(b"", b"fresh content");
    assert_eq!(apply_patch(&patch, b"", 131072).unwrap(), b"fresh content");
}

#[test]
fn round_trip_single_bytes() {
    let patch = gen_patch(b"a", b"b");
    assert_eq!(apply_patch(&patch, b"a", 131072).unwrap(), b"b");
}

#[test]
fn round_trip_hello_world() {
    let patch = gen_patch(b"hello", b"world");
    assert_eq!(apply_patch(&patch, b"hello", 131072).unwrap(), b"world");
}

#[test]
fn round_trip_larger_buffers() {
    let source = lcg_bytes(100_000, 41);
    let mut target = source.clone();
    // Perturb, delete and insert to exercise diff, seek and extra stages.
    for i in (0..target.len()).step_by(97) {
        target[i] = target[i].wrapping_add(13);
    }
    target.truncate(90_000);
    target.extend_from_slice(&lcg_bytes(20_000, 43));
    let patch = gen_patch(&source, &target);
    let out = apply_patch(&patch, &source, 131072).unwrap();
    assert_eq!(out, target);
    assert_eq!(out, qbsdiff_apply(&patch, &source));
}

#[test]
fn hint_target_size_reports_declared_length() {
    let patch = make_patch(11, &[(5, 6, 0)], &[0, 0, 0, 0, 0], b"planet");
    let b = Bspatch::new(&patch).unwrap();
    assert_eq!(b.hint_target_size(), 11);
    let b = b.buffer_size(4096).delta_min(1024);
    assert_eq!(b.apply(b"hello world").unwrap(), b"helloplanet");
}
