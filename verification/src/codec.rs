//! Decoding of the integers and control triples found in a bsdiff 4.x patch.
//!
//! Integers are stored in eight bytes, little endian, with the sign kept in
//! the top bit of the last byte (a sign-magnitude encoding, not two's
//! complement). Lengths are afterwards reinterpreted as unsigned 64-bit
//! values, exactly as the magnitude bits read; seek offsets stay signed.

use vstd::prelude::*;

use crate::error::Error;

verus! {

/// Number of bytes that one encoded control triple occupies.
pub const TRIPLE_BYTES: usize = 24;

/// The little-endian value of a byte sequence.
pub open spec fn le_value(s: Seq<u8>) -> nat
    decreases s.len(),
{
    if s.len() == 0 {
        0
    } else {
        s[0] as nat + 256 * le_value(s.subrange(1, s.len() as int))
    }
}

/// 256 to the power `n`.
pub open spec fn pow256(n: nat) -> nat
    decreases n,
{
    if n == 0 {
        1
    } else {
        256 * pow256((n - 1) as nat)
    }
}

pub proof fn lemma_pow256_mono(a: nat, b: nat)
    requires
        a <= b,
    ensures
        pow256(a) <= pow256(b),
    decreases b,
{
    if a < b {
        lemma_pow256_mono(a, (b - 1) as nat);
        assert(pow256(b) == 256 * pow256((b - 1) as nat));
    }
}

pub proof fn lemma_le_value_bound(s: Seq<u8>)
    ensures
        le_value(s) < pow256(s.len()),
    decreases s.len(),
{
    if s.len() > 0 {
        lemma_le_value_bound(s.subrange(1, s.len() as int));
    }
}

/// The signed value encoded in eight sign-magnitude bytes.
pub open spec fn signed_value(s: Seq<u8>) -> int {
    let x = le_value(s) as int;
    if x < 0x8000_0000_0000_0000 {
        x
    } else if x == 0x8000_0000_0000_0000 {
        -0x8000_0000_0000_0000
    } else {
        0x8000_0000_0000_0000 - x
    }
}

/// A signed value reinterpreted as the unsigned 64-bit value with the same
/// two's-complement bits; lengths in a patch are read this way.
pub open spec fn wrap64(v: int) -> u64 {
    if v >= 0 {
        v as u64
    } else {
        (v + 0x1_0000_0000_0000_0000) as u64
    }
}

pub proof fn lemma_pow256_values()
    ensures
        pow256(7) == 0x100_0000_0000_0000,
        pow256(8) == 0x1_0000_0000_0000_0000,
{
    assert(pow256(0) == 1);
    assert(pow256(1) == 256);
    assert(pow256(2) == 0x1_0000);
    assert(pow256(3) == 0x100_0000);
    assert(pow256(4) == 0x1_0000_0000);
    assert(pow256(5) == 0x100_0000_0000);
    assert(pow256(6) == 0x1_0000_0000_0000);
}

pub proof fn lemma_signed_value_range(s: Seq<u8>)
    requires
        s.len() == 8,
    ensures
        -0x8000_0000_0000_0000 <= signed_value(s) < 0x8000_0000_0000_0000,
{
    lemma_le_value_bound(s);
    lemma_pow256_values();
}

/// Reads the little-endian 64-bit value stored at `b[pos..pos + 8]`.
pub fn read_le64(b: &[u8], pos: usize) -> (r: u64)
    requires
        pos + 8 <= b@.len(),
    ensures
        r == le_value(b@.subrange(pos as int, pos as int + 8)),
{
    let mut x: u64 = 0;
    let mut i: usize = 8;
    proof {
        vstd::slice::axiom_spec_len(b);
        assert(b@.subrange(pos as int + 8, pos as int + 8) =~= Seq::<u8>::empty());
    }
    while i > 0
        invariant
            i <= 8,
            pos + 8 <= b@.len() <= usize::MAX,
            x == le_value(b@.subrange(pos + i as int, pos as int + 8)),
            x < pow256((8 - i) as nat),
        decreases i,
    {
        i = i - 1;
        let byte = b[pos + i];
        proof {
            let lo = b@.subrange(pos + i as int, pos as int + 8);
            let hi = b@.subrange(pos + i as int + 1, pos as int + 8);
            assert(lo.subrange(1, lo.len() as int) =~= hi);
            assert(le_value(lo) == byte as nat + 256 * le_value(hi));
            lemma_pow256_mono((7 - i) as nat, 7);
            lemma_pow256_values();
        }
        x = x * 256 + byte as u64;
    }
    x
}

/// Reads a length field: the signed value at `b[pos..pos + 8]` reinterpreted
/// as an unsigned 64-bit count.
pub fn read_length(b: &[u8], pos: usize) -> (r: u64)
    requires
        pos + 8 <= b@.len(),
    ensures
        r == wrap64(signed_value(b@.subrange(pos as int, pos as int + 8))),
{
    let x = read_le64(b, pos);
    if x > 0x8000_0000_0000_0000 {
        u64::MAX - (x - 0x8000_0000_0000_0000) + 1
    } else {
        x
    }
}

/// Reads a seek-offset field: the signed value at `b[pos..pos + 8]`.
pub fn read_seek(b: &[u8], pos: usize) -> (r: i64)
    requires
        pos + 8 <= b@.len(),
    ensures
        r as int == signed_value(b@.subrange(pos as int, pos as int + 8)),
{
    let x = read_le64(b, pos);
    if x < 0x8000_0000_0000_0000 {
        x as i64
    } else if x == 0x8000_0000_0000_0000 {
        i64::MIN
    } else {
        -((x - 0x8000_0000_0000_0000) as i64)
    }
}

/// The `n` little-endian bytes of the number `m`.
pub open spec fn le_bytes(m: nat, n: nat) -> Seq<u8>
    decreases n,
{
    if n == 0 {
        Seq::empty()
    } else {
        seq![(m % 256) as u8] + le_bytes(m / 256, (n - 1) as nat)
    }
}

pub proof fn lemma_le_bytes_value(m: nat, n: nat)
    requires
        m < pow256(n),
    ensures
        le_bytes(m, n).len() == n,
        le_value(le_bytes(m, n)) == m,
    decreases n,
{
    if n == 0 {
        assert(le_bytes(m, n) =~= Seq::<u8>::empty());
    } else {
        let q = m / 256;
        let r = m % 256;
        lemma_pow256_pos((n - 1) as nat);
        assert(m == 256 * q + r && 0 <= r < 256 && q < pow256((n - 1) as nat))
            by (nonlinear_arith)
            requires
                q == m / 256,
                r == m % 256,
                m < 256 * pow256((n - 1) as nat),
                pow256((n - 1) as nat) > 0,
        ;
        lemma_le_bytes_value(q, (n - 1) as nat);
        let s = le_bytes(m, n);
        assert(s.subrange(1, s.len() as int) =~= le_bytes(q, (n - 1) as nat));
        assert(le_value(s) == r + 256 * le_value(le_bytes(q, (n - 1) as nat)));
    }
}

proof fn lemma_pow256_pos(n: nat)
    ensures
        pow256(n) > 0,
    decreases n,
{
    if n > 0 {
        lemma_pow256_pos((n - 1) as nat);
    }
}

/// A control stream of one triple with the given lengths and a zero seek.
pub open spec fn encode_triple(diff_len: nat, extra_len: nat) -> Seq<u8> {
    le_bytes(diff_len, 8) + le_bytes(extra_len, 8) + le_bytes(0, 8)
}

/// The encoding round trip for a one-triple control stream: decoding what
/// `encode_triple` built yields the triple itself.
pub proof fn lemma_encode_triple(diff_len: nat, extra_len: nat)
    requires
        diff_len < 0x8000_0000_0000_0000,
        extra_len < 0x8000_0000_0000_0000,
    ensures
        encode_triple(diff_len, extra_len).len() == 24,
        triple_at(encode_triple(diff_len, extra_len), 0) == (Triple {
            diff_len: diff_len as u64,
            extra_len: extra_len as u64,
            seek_off: 0,
        }),
{
    lemma_pow256_values();
    lemma_le_bytes_value(diff_len, 8);
    lemma_le_bytes_value(extra_len, 8);
    lemma_le_bytes_value(0, 8);
    let c = encode_triple(diff_len, extra_len);
    assert(c.subrange(0, 8) =~= le_bytes(diff_len, 8));
    assert(c.subrange(8, 16) =~= le_bytes(extra_len, 8));
    assert(c.subrange(16, 24) =~= le_bytes(0, 8));
}

/// One control instruction: add `diff_len` perturbed source bytes, copy
/// `extra_len` fresh bytes, then displace the source cursor by `seek_off`.
#[derive(Clone, Copy, Debug, PartialEq, Eq, Structural)]
pub struct Triple {
    pub diff_len: u64,
    pub extra_len: u64,
    pub seek_off: i64,
}

/// The triple encoded at position `p` of a control stream.
pub open spec fn triple_at(c: Seq<u8>, p: int) -> Triple {
    Triple {
        diff_len: wrap64(signed_value(c.subrange(p, p + 8))),
        extra_len: wrap64(signed_value(c.subrange(p + 8, p + 16))),
        seek_off: signed_value(c.subrange(p + 16, p + 24)) as i64,
    }
}

/// Decodes the triple at `c[pos..pos + 24]`.
pub fn read_triple(c: &[u8], pos: usize) -> (t: Triple)
    requires
        pos + TRIPLE_BYTES <= c@.len(),
    ensures
        t == triple_at(c@, pos as int),
{
    proof {
        vstd::slice::axiom_spec_len(c);
    }
    let diff_len = read_length(c, pos);
    let extra_len = read_length(c, pos + 8);
    let seek_off = read_seek(c, pos + 16);
    proof {
        lemma_signed_value_range(c@.subrange(pos as int + 16, pos as int + 24));
    }
    Triple { diff_len, extra_len, seek_off }
}

/// The full sequence of triples in a control stream, or `None` if the stream
/// ends in the middle of a triple.
pub open spec fn triples_spec(c: Seq<u8>) -> Option<Seq<Triple>> {
    if c.len() % 24 == 0 {
        Some(Seq::new(c.len() / 24, |i: int| triple_at(c, 24 * i)))
    } else {
        None
    }
}

/// Parsing is deterministic: any two decodings of the same control bytes
/// yield the same triple sequence, since each equals `triples_spec` of the
/// bytes alone.
pub proof fn lemma_parse_idempotent(c: Seq<u8>, v1: Seq<Triple>, v2: Seq<Triple>)
    requires
        triples_spec(c) == Some(v1),
        triples_spec(c) == Some(v2),
    ensures
        v1 == v2,
{
}

/// Decodes a whole control stream into its triples.
///
/// The reconstruction engine decodes triples lazily instead, one per step;
/// this eager form exists for callers that want to inspect a control stream
/// on its own, and it agrees with the lazy decoding triple for triple.
pub fn decode_triples(c: &[u8]) -> (r: Result<Vec<Triple>, Error>)
    ensures
        r matches Ok(v) ==> triples_spec(c@) == Some(v@),
        r matches Err(e) ==> triples_spec(c@) == None::<Seq<Triple>> && e == Error::TruncatedControl,
{
    let mut v: Vec<Triple> = Vec::new();
    let mut pos: usize = 0;
    let ghost k: int = 0;
    while c.len() - pos >= TRIPLE_BYTES
        invariant
            pos <= c@.len(),
            pos == 24 * k,
            v@.len() == k,
            forall|i: int| 0 <= i < k ==> v@[i] == triple_at(c@, 24 * i),
        decreases c@.len() - pos,
    {
        let t = read_triple(c, pos);
        v.push(t);
        pos = pos + TRIPLE_BYTES;
        proof {
            k = k + 1;
        }
    }
    if pos == c.len() {
        proof {
            assert(c@.len() % 24 == 0) by (nonlinear_arith)
                requires
                    c@.len() == 24 * k,
                    k >= 0,
            ;
            assert(c@.len() / 24 == k) by (nonlinear_arith)
                requires
                    c@.len() == 24 * k,
                    k >= 0,
            ;
            assert(v@ =~= Seq::new(c@.len() / 24, |i: int| triple_at(c@, 24 * i)));
        }
        Ok(v)
    } else {
        proof {
            assert(c@.len() % 24 != 0) by (nonlinear_arith)
                requires
                    c@.len() == 24 * k + (c@.len() - pos),
                    pos == 24 * k,
                    k >= 0,
                    0 < c@.len() - pos < 24,
            ;
        }
        Err(Error::TruncatedControl)
    }
}

} // verus!
