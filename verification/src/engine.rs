//! The reconstruction engine: replays control triples against a read-only
//! source buffer and the decoded diff and extra streams, producing the target
//! bytes.
//!
//! For each triple, in order: read `diff_len` diff bytes and add them
//! (modulo 256) to the source bytes under the cursor, advance the cursor by
//! `diff_len`, copy `extra_len` extra bytes verbatim, then displace the
//! cursor by `seek_off`. The cursor may drift outside `[0, source_len]`
//! between triples; only a diff read at an out-of-range cursor is an error,
//! raised at the moment of use.

use vstd::prelude::*;

use crate::codec::TRIPLE_BYTES;
use crate::codec::read_triple;
use crate::codec::triple_at;
use crate::error::Error;

verus! {

/// Byte addition wrapping modulo 256.
pub open spec fn byte_add(d: u8, s: u8) -> u8 {
    ((d + s) % 256) as u8
}

/// The window of source bytes at `cur` perturbed by the diff bytes at `dpos`.
pub open spec fn added_bytes(diff: Seq<u8>, src: Seq<u8>, dpos: int, cur: int, n: int) -> Seq<
    u8,
> {
    Seq::new(n as nat, |i: int| byte_add(diff[dpos + i], src[cur + i]))
}

/// What replaying the control stream from byte `cpos` onward produces, given
/// the positions already consumed from the diff and extra streams, the source
/// cursor, and the output built so far.
///
/// Within one triple the checks happen in order of use: a diff read at a
/// negative cursor, a diff read past the end of the source, a diff-stream
/// read past its end, an extra-stream read past its end. A triple with
/// `diff_len == 0` reads no source bytes and so tolerates any cursor.
pub open spec fn replay(
    ctrl: Seq<u8>,
    diff: Seq<u8>,
    extra: Seq<u8>,
    src: Seq<u8>,
    cpos: int,
    dpos: int,
    epos: int,
    cur: int,
    out: Seq<u8>,
) -> Result<Seq<u8>, Error>
    decreases ctrl.len() - cpos,
{
    if cpos < 0 || cpos >= ctrl.len() {
        Ok(out)
    } else if ctrl.len() - cpos < TRIPLE_BYTES {
        Err(Error::TruncatedControl)
    } else {
        let t = triple_at(ctrl, cpos);
        let dl = t.diff_len as int;
        let el = t.extra_len as int;
        if dl > 0 && cur < 0 {
            Err(Error::InvalidSeek)
        } else if dl > 0 && cur + dl > src.len() {
            Err(Error::SourceOverrun)
        } else if dpos + dl > diff.len() {
            Err(Error::StreamOverrun)
        } else if epos + el > extra.len() {
            Err(Error::StreamOverrun)
        } else {
            replay(
                ctrl,
                diff,
                extra,
                src,
                cpos + TRIPLE_BYTES,
                dpos + dl,
                epos + el,
                cur + dl + t.seek_off,
                out + added_bytes(diff, src, dpos, cur, dl) + extra.subrange(epos, epos + el),
            )
        }
    }
}

/// The result of applying decoded streams to a source: the replay of the
/// whole control stream, and a final check that the output has the declared
/// target length.
pub open spec fn apply_streams_spec(
    ctrl: Seq<u8>,
    diff: Seq<u8>,
    extra: Seq<u8>,
    src: Seq<u8>,
    target_len: u64,
) -> Result<Seq<u8>, Error> {
    match replay(ctrl, diff, extra, src, 0, 0, 0, 0, Seq::empty()) {
        Ok(out) => if out.len() == target_len {
            Ok(out)
        } else {
            Err(Error::SizeMismatch)
        },
        Err(e) => Err(e),
    }
}

/// Applies decoded control, diff and extra streams to `source`.
///
/// Returns the reconstructed target exactly when the replay of every triple
/// stays within bounds and the output has the declared length; otherwise
/// returns the error of the first failing step.
pub fn apply_streams(
    ctrl: &[u8],
    diff: &[u8],
    extra: &[u8],
    source: &[u8],
    target_len: u64,
) -> (r: Result<Vec<u8>, Error>)
    ensures
        r matches Ok(v) ==> apply_streams_spec(ctrl@, diff@, extra@, source@, target_len)
            == Ok::<Seq<u8>, Error>(v@),
        r matches Err(e) ==> apply_streams_spec(ctrl@, diff@, extra@, source@, target_len)
            == Err::<Seq<u8>, Error>(e),
{
    let ghost full = replay(ctrl@, diff@, extra@, source@, 0, 0, 0, 0, Seq::empty());
    let mut out: Vec<u8> = Vec::new();
    let mut cpos: usize = 0;
    let mut dpos: usize = 0;
    let mut epos: usize = 0;
    let mut cur: i128 = 0;
    let ghost k: int = 0;
    proof {
        vstd::slice::axiom_spec_len(ctrl);
        vstd::slice::axiom_spec_len(diff);
        vstd::slice::axiom_spec_len(extra);
        vstd::slice::axiom_spec_len(source);
    }
    while cpos < ctrl.len()
        invariant
            cpos <= ctrl@.len() <= usize::MAX,
            dpos <= diff@.len() <= usize::MAX,
            epos <= extra@.len() <= usize::MAX,
            source@.len() <= usize::MAX,
            k >= 0,
            cpos == 24 * k,
            full == replay(ctrl@, diff@, extra@, source@, 0, 0, 0, 0, Seq::empty()),
            -(0x1_0000_0000_0000_0000 + k * 0x8000_0000_0000_0000) <= cur as int <= 0x1_0000_0000_0000_0000
                + k * 0x8000_0000_0000_0000,
            replay(
                ctrl@,
                diff@,
                extra@,
                source@,
                cpos as int,
                dpos as int,
                epos as int,
                cur as int,
                out@,
            ) == full,
        decreases ctrl@.len() - cpos,
    {
        proof {
            // 24 * k == cpos <= usize::MAX, so k stays far below 2^60 and the
            // cursor bound stays far inside the i128 range.
            assert(k <= 0x1000_0000_0000_0000);
        }
        if ctrl.len() - cpos < TRIPLE_BYTES {
            return Err(Error::TruncatedControl);
        }
        let t = read_triple(ctrl, cpos);
        let dl = t.diff_len;
        let el = t.extra_len;
        let ghost entry_out = out@;
        let mut cu: usize = 0;
        if dl > 0 {
            if cur < 0 {
                return Err(Error::InvalidSeek);
            }
            if cur > source.len() as i128 || dl as i128 > source.len() as i128 - cur {
                return Err(Error::SourceOverrun);
            }
            cu = cur as usize;
        }
        if dl > (diff.len() - dpos) as u64 {
            return Err(Error::StreamOverrun);
        }
        let dlu = dl as usize;
        if dl > 0 {
            let mut j: usize = 0;
            while j < dlu
                invariant
                    j <= dlu,
                    dpos + dlu <= diff@.len() <= usize::MAX,
                    cu + dlu <= source@.len() <= usize::MAX,
                    out@ == entry_out + added_bytes(diff@, source@, dpos as int, cu as int, j as int),
                decreases dlu - j,
            {
                let sum = diff[dpos + j] as u16 + source[cu + j] as u16;
                out.push((sum % 256) as u8);
                j = j + 1;
                proof {
                    assert(out@ =~= entry_out + added_bytes(
                        diff@,
                        source@,
                        dpos as int,
                        cu as int,
                        j as int,
                    ));
                }
            }
        }
        proof {
            if dl == 0 {
                assert(out@ =~= entry_out + added_bytes(
                    diff@,
                    source@,
                    dpos as int,
                    cur as int,
                    0,
                ));
            }
        }
        if el > (extra.len() - epos) as u64 {
            return Err(Error::StreamOverrun);
        }
        let elu = el as usize;
        let ghost mid_out = out@;
        let mut j: usize = 0;
        while j < elu
            invariant
                j <= elu,
                epos + elu <= extra@.len() <= usize::MAX,
                out@ == mid_out + extra@.subrange(epos as int, epos + j as int),
            decreases elu - j,
        {
            out.push(extra[epos + j]);
            j = j + 1;
            proof {
                assert(out@ =~= mid_out + extra@.subrange(epos as int, epos + j as int));
            }
        }
        proof {
            if dl > 0 {
                assert(cu as int == cur as int);
            }
            assert(out@ =~= entry_out + added_bytes(diff@, source@, dpos as int, cur as int, dl as int)
                + extra@.subrange(epos as int, epos + el as int));
            assert(replay(
                ctrl@,
                diff@,
                extra@,
                source@,
                cpos as int,
                dpos as int,
                epos as int,
                cur as int,
                entry_out,
            ) == replay(
                ctrl@,
                diff@,
                extra@,
                source@,
                cpos + TRIPLE_BYTES as int,
                dpos + dl as int,
                epos + el as int,
                cur as int + dl as int + t.seek_off as int,
                out@,
            ));
        }
        cpos = cpos + TRIPLE_BYTES;
        dpos = dpos + dlu;
        epos = epos + elu;
        cur = cur + dl as i128 + t.seek_off as i128;
        proof {
            k = k + 1;
        }
    }
    if out.len() as u64 == target_len {
        Ok(out)
    } else {
        Err(Error::SizeMismatch)
    }
}

/// Byte subtraction wrapping modulo 256: the diff byte that turns source
/// byte `s` into target byte `t`.
pub open spec fn byte_sub(t: u8, s: u8) -> u8 {
    ((t - s) % 256) as u8
}

/// Combined diff and extra length of the triples a control stream encodes
/// from position `cpos` on; a short trailing fragment contributes nothing.
pub open spec fn sum_lens(ctrl: Seq<u8>, cpos: int) -> int
    decreases ctrl.len() - cpos,
{
    if cpos < 0 || cpos >= ctrl.len() || ctrl.len() - cpos < TRIPLE_BYTES {
        0
    } else {
        let t = triple_at(ctrl, cpos);
        t.diff_len + t.extra_len + sum_lens(ctrl, cpos + TRIPLE_BYTES)
    }
}

proof fn lemma_replay_len(
    ctrl: Seq<u8>,
    diff: Seq<u8>,
    extra: Seq<u8>,
    src: Seq<u8>,
    cpos: int,
    dpos: int,
    epos: int,
    cur: int,
    out: Seq<u8>,
)
    requires
        0 <= dpos,
        0 <= epos,
    ensures
        replay(ctrl, diff, extra, src, cpos, dpos, epos, cur, out) matches Ok(o) ==> o.len()
            == out.len() + sum_lens(ctrl, cpos),
    decreases ctrl.len() - cpos,
{
    if 0 <= cpos < ctrl.len() && ctrl.len() - cpos >= TRIPLE_BYTES {
        let t = triple_at(ctrl, cpos);
        let dl = t.diff_len as int;
        let el = t.extra_len as int;
        if !(dl > 0 && cur < 0) && !(dl > 0 && cur + dl > src.len()) && dpos + dl <= diff.len()
            && epos + el <= extra.len() {
            let out2 = out + added_bytes(diff, src, dpos, cur, dl) + extra.subrange(
                epos,
                epos + el,
            );
            assert(replay(ctrl, diff, extra, src, cpos, dpos, epos, cur, out) == replay(
                ctrl,
                diff,
                extra,
                src,
                cpos + TRIPLE_BYTES,
                dpos + dl,
                epos + el,
                cur + dl + t.seek_off,
                out2,
            ));
            assert(out2.len() == out.len() + dl + el);
            assert(sum_lens(ctrl, cpos) == dl + el + sum_lens(ctrl, cpos + TRIPLE_BYTES));
            lemma_replay_len(
                ctrl,
                diff,
                extra,
                src,
                cpos + TRIPLE_BYTES,
                dpos + dl,
                epos + el,
                cur + dl + t.seek_off,
                out2,
            );
        }
    }
}

/// Size invariant: a replay succeeds as a whole only when the combined
/// `diff_len + extra_len` over all triples equals the declared target
/// length; a replay whose output has any other length fails with
/// `SizeMismatch`.
pub proof fn lemma_size_invariant(
    ctrl: Seq<u8>,
    diff: Seq<u8>,
    extra: Seq<u8>,
    src: Seq<u8>,
    target_len: u64,
)
    ensures
        apply_streams_spec(ctrl, diff, extra, src, target_len) matches Ok(out) ==> out.len()
            == target_len && sum_lens(ctrl, 0) == target_len,
        (replay(ctrl, diff, extra, src, 0, 0, 0, 0, Seq::empty()) matches Ok(o) && o.len()
            != target_len) ==> apply_streams_spec(ctrl, diff, extra, src, target_len) == Err::<
            Seq<u8>,
            Error,
        >(Error::SizeMismatch),
{
    lemma_replay_len(ctrl, diff, extra, src, 0, 0, 0, 0, Seq::empty());
}

/// Boundary, valid side: a single triple whose diff window ends exactly at
/// the end of the source is accepted, and reconstructs the perturbed source
/// tail.
pub proof fn lemma_boundary_exact(ctrl: Seq<u8>, diff: Seq<u8>, extra: Seq<u8>, src: Seq<u8>)
    requires
        ctrl.len() == 24,
        triple_at(ctrl, 0).diff_len == src.len(),
        triple_at(ctrl, 0).extra_len == 0,
        diff.len() == src.len(),
    ensures
        apply_streams_spec(ctrl, diff, extra, src, src.len() as u64) == Ok::<Seq<u8>, Error>(
            added_bytes(diff, src, 0, 0, src.len() as int),
        ),
{
    let stepped = replay(
        ctrl,
        diff,
        extra,
        src,
        24,
        src.len() as int,
        0,
        src.len() as int + triple_at(ctrl, 0).seek_off,
        Seq::empty() + added_bytes(diff, src, 0, 0, src.len() as int) + extra.subrange(0, 0),
    );
    assert(Seq::empty() + added_bytes(diff, src, 0, 0, src.len() as int) + extra.subrange(0, 0)
        =~= added_bytes(diff, src, 0, 0, src.len() as int));
    assert(stepped == Ok::<Seq<u8>, Error>(added_bytes(diff, src, 0, 0, src.len() as int)));
}

/// Boundary, failing side: a single triple whose diff window runs past the
/// end of the source fails with `SourceOverrun`, whatever the streams hold
/// and whatever target length is declared.
pub proof fn lemma_boundary_overrun(
    ctrl: Seq<u8>,
    diff: Seq<u8>,
    extra: Seq<u8>,
    src: Seq<u8>,
    target_len: u64,
)
    requires
        ctrl.len() == 24,
        triple_at(ctrl, 0).diff_len > src.len(),
    ensures
        apply_streams_spec(ctrl, diff, extra, src, target_len) == Err::<Seq<u8>, Error>(
            Error::SourceOverrun,
        ),
{
}

/// Round trip, insertion form: a patch generated for target `tgt` as one
/// triple that takes every byte from the extra stream reconstructs `tgt`
/// exactly, against any source.
pub proof fn lemma_round_trip_extra(ctrl: Seq<u8>, src: Seq<u8>, tgt: Seq<u8>)
    requires
        ctrl.len() == 24,
        triple_at(ctrl, 0).diff_len == 0,
        triple_at(ctrl, 0).extra_len == tgt.len(),
    ensures
        apply_streams_spec(ctrl, Seq::empty(), tgt, src, tgt.len() as u64) == Ok::<
            Seq<u8>,
            Error,
        >(tgt),
{
    reveal_with_fuel(replay, 3);
    assert(Seq::empty() + added_bytes(Seq::empty(), src, 0, 0, 0) + tgt.subrange(
        0,
        tgt.len() as int,
    ) =~= tgt);
}

/// Round trip, perturbation form: a patch generated for source `src` and
/// target `tgt` as one triple whose diff bytes are the wrapping byte-wise
/// difference `tgt[i] - src[i]` reconstructs `tgt` exactly.
pub proof fn lemma_round_trip_diff(ctrl: Seq<u8>, diff: Seq<u8>, src: Seq<u8>, tgt: Seq<u8>)
    requires
        ctrl.len() == 24,
        triple_at(ctrl, 0).diff_len == tgt.len(),
        triple_at(ctrl, 0).extra_len == 0,
        tgt.len() <= src.len(),
        diff.len() == tgt.len(),
        forall|i: int| 0 <= i < tgt.len() ==> diff[i] == byte_sub(tgt[i], src[i]),
    ensures
        apply_streams_spec(ctrl, diff, Seq::empty(), src, tgt.len() as u64) == Ok::<
            Seq<u8>,
            Error,
        >(tgt),
{
    reveal_with_fuel(replay, 3);
    let n = tgt.len() as int;
    assert forall|i: int| 0 <= i < n implies added_bytes(diff, src, 0, 0, n)[i] == tgt[i] by {
        assert(diff[i] == byte_sub(tgt[i], src[i]));
        assert(byte_add(byte_sub(tgt[i], src[i]), src[i]) == tgt[i]);
    }
    assert(Seq::empty() + added_bytes(diff, src, 0, 0, n) + Seq::<u8>::empty().subrange(0, 0)
        =~= added_bytes(diff, src, 0, 0, n));
    assert(added_bytes(diff, src, 0, 0, n) =~= tgt);
}

/// Round trip: for any source and target there is a patch that reconstructs
/// the target exactly — here the one-triple control stream that takes every
/// target byte from the extra stream.
pub proof fn lemma_round_trip_patch_exists(src: Seq<u8>, tgt: Seq<u8>)
    requires
        tgt.len() < 0x8000_0000_0000_0000,
    ensures
        apply_streams_spec(
            crate::codec::encode_triple(0, tgt.len()),
            Seq::empty(),
            tgt,
            src,
            tgt.len() as u64,
        ) == Ok::<Seq<u8>, Error>(tgt),
{
    crate::codec::lemma_encode_triple(0, tgt.len());
    lemma_round_trip_extra(crate::codec::encode_triple(0, tgt.len()), src, tgt);
}

/// Round trip through the diff stream: for any source and any target no
/// longer than it, the one-triple patch whose diff bytes are the wrapping
/// byte-wise differences reconstructs the target exactly.
pub proof fn lemma_round_trip_diff_patch_exists(src: Seq<u8>, tgt: Seq<u8>)
    requires
        tgt.len() <= src.len(),
        tgt.len() < 0x8000_0000_0000_0000,
    ensures
        apply_streams_spec(
            crate::codec::encode_triple(tgt.len(), 0),
            Seq::new(tgt.len(), |i: int| byte_sub(tgt[i], src[i])),
            Seq::empty(),
            src,
            tgt.len() as u64,
        ) == Ok::<Seq<u8>, Error>(tgt),
{
    crate::codec::lemma_encode_triple(tgt.len(), 0);
    lemma_round_trip_diff(
        crate::codec::encode_triple(tgt.len(), 0),
        Seq::new(tgt.len(), |i: int| byte_sub(tgt[i], src[i])),
        src,
        tgt,
    );
}

} // verus!
