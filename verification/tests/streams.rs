//! Tests on the decoded-stream level: integer and triple decoding, the
//! reconstruction engine over raw streams, header parsing, and the decimal
//! argument parser.

use qbspatch::codec::{decode_triples, read_length, read_seek, Triple};
use qbspatch::engine::apply_streams;
use qbspatch::error::Error;
use qbspatch::parse_usize;
use qbspatch::patch::parse_header;

fn encode_int(x: i64, b: &mut [u8]) {
    let v: u64 = if x < 0 {
        (x.wrapping_neg() as u64) | (1u64 << 63)
    } else {
        x as u64
    };
    b.copy_from_slice(&v.to_le_bytes());
}

fn make_ctrl(triples: &[(i64, i64, i64)]) -> Vec<u8> {
    let mut c = vec![0u8; 24 * triples.len()];
    for (i, t) in triples.iter().enumerate() {
        encode_int(t.0, &mut c[24 * i..24 * i + 8]);
        encode_int(t.1, &mut c[24 * i + 8..24 * i + 16]);
        encode_int(t.2, &mut c[24 * i + 16..24 * i + 24]);
    }
    c
}

#[test]
fn signed_fields_decode_round_trip() {
    let mut b = [0u8; 8];
    for v in [0i64, 1, -1, 5, -5, 127, 256, -300, i64::MAX, -i64::MAX, i64::MIN] {
        encode_int(v, &mut b);
        assert_eq!(read_seek(&b, 0), v);
    }
    encode_int(7, &mut b);
    assert_eq!(read_length(&b, 0), 7);
    // A negative length reads back as the same two's-complement bits.
    encode_int(-1, &mut b);
    assert_eq!(read_length(&b, 0), u64::MAX);
    encode_int(i64::MIN, &mut b);
    assert_eq!(read_length(&b, 0), 1u64 << 63);
}

#[test]
fn triples_decode_in_order() {
    let ctrl = make_ctrl(&[(1, 2, 3), (4, 5, -6)]);
    let ts = decode_triples(&ctrl).unwrap();
    assert_eq!(
        ts,
        vec![
            Triple { diff_len: 1, extra_len: 2, seek_off: 3 },
            Triple { diff_len: 4, extra_len: 5, seek_off: -6 },
        ]
    );
}

#[test]
fn parsing_twice_yields_identical_triples() {
    let ctrl = make_ctrl(&[(9, 0, -2), (0, 7, 1), (3, 3, 0)]);
    let first = decode_triples(&ctrl).unwrap();
    let second = decode_triples(&ctrl).unwrap();
    assert_eq!(first, second);
}

#[test]
fn truncated_triple_is_rejected() {
    let ctrl = make_ctrl(&[(1, 2, 3)]);
    assert_eq!(decode_triples(&ctrl[..20]), Err(Error::TruncatedControl));
    assert_eq!(decode_triples(&[]).unwrap(), vec![]);
}

#[test]
fn engine_adds_diff_bytes_modulo_256() {
    let ctrl = make_ctrl(&[(3, 0, 0)]);
    let out = apply_streams(&ctrl, &[1, 0, 255], &[], &[10, 20, 30], 3).unwrap();
    assert_eq!(out, vec![11, 20, 29]);
}

#[test]
fn engine_boundary_exact_end_is_valid() {
    let ctrl = make_ctrl(&[(4, 0, 0)]);
    let out = apply_streams(&ctrl, &[0, 0, 0, 0], &[], b"abcd", 4).unwrap();
    assert_eq!(out, b"abcd");
}

#[test]
fn engine_boundary_past_end_fails_source_overrun() {
    let ctrl = make_ctrl(&[(5, 0, 0)]);
    assert_eq!(
        apply_streams(&ctrl, &[0, 0, 0, 0, 0], &[], b"abcd", 5),
        Err(Error::SourceOverrun)
    );
}

#[test]
fn engine_backward_seek_rereads_source() {
    // Read "ab", seek back two, read "ab" again.
    let ctrl = make_ctrl(&[(2, 0, -2), (2, 0, 0)]);
    let out = apply_streams(&ctrl, &[0, 0, 0, 0], &[], b"ab", 4).unwrap();
    assert_eq!(out, b"abab");
}

#[test]
fn engine_empty_control_checks_target_length() {
    assert_eq!(apply_streams(&[], &[], &[], b"xyz", 0).unwrap(), vec![]);
    assert_eq!(apply_streams(&[], &[], &[], b"xyz", 1), Err(Error::SizeMismatch));
}

#[test]
fn header_reports_declared_lengths() {
    let mut p = Vec::new();
    p.extend_from_slice(b"BSDIFF40");
    let mut buf = [0u8; 8];
    encode_int(2, &mut buf);
    p.extend_from_slice(&buf);
    encode_int(3, &mut buf);
    p.extend_from_slice(&buf);
    encode_int(77, &mut buf);
    p.extend_from_slice(&buf);
    p.extend_from_slice(&[0; 9]);
    let h = parse_header(&p).unwrap();
    assert_eq!(h.ctrl_len, 2);
    assert_eq!(h.diff_len, 3);
    assert_eq!(h.extra_len, 4);
    assert_eq!(h.target_len, 77);
}

#[test]
fn header_wrong_magic_fails_invalid_header() {
    let mut p = vec![0u8; 32];
    p[..8].copy_from_slice(b"XSDIFF40");
    assert_eq!(parse_header(&p), Err(Error::InvalidHeader));
}

#[test]
fn parse_usize_accepts_decimals() {
    assert_eq!(parse_usize("0"), Ok(0));
    assert_eq!(parse_usize("131072"), Ok(131072));
    assert_eq!(parse_usize("+42"), Ok(42));
    assert_eq!(parse_usize(&format!("{}", usize::MAX)), Ok(usize::MAX));
}

#[test]
fn parse_usize_rejects_other_text() {
    assert_eq!(parse_usize(""), Err(Error::InvalidConfiguration));
    assert_eq!(parse_usize("+"), Err(Error::InvalidConfiguration));
    assert_eq!(parse_usize("12a"), Err(Error::InvalidConfiguration));
    assert_eq!(parse_usize("-1"), Err(Error::InvalidConfiguration));
    assert_eq!(parse_usize(" 1"), Err(Error::InvalidConfiguration));
    assert_eq!(parse_usize("99999999999999999999999999"), Err(Error::InvalidConfiguration));
}
