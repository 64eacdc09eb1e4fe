//! A verified patcher for the bsdiff 4.x binary-delta format.
//!
//! A patch carries a 32-byte header and three compressed segments: a control
//! stream of `(diff_len, extra_len, seek_off)` triples, a diff stream whose
//! bytes are added (modulo 256) to a window of the source, and an extra
//! stream copied verbatim. Applying a patch replays the triples against a
//! read-only source buffer and either reconstructs the declared target bytes
//! exactly or fails with a precise [`error::Error`].

use vstd::prelude::*;

pub mod codec;
pub mod engine;
pub mod patch;
pub mod error;

verus! {

use crate::error::Error;
use vstd::string::StringSliceAdditionalSpecFns;

/// The digits of `s`, with a leading plus sign stripped.
pub open spec fn decimal_digits(s: Seq<u8>) -> Seq<u8> {
    if s.len() > 0 && s[0] == 43 {
        s.subrange(1, s.len() as int)
    } else {
        s
    }
}

/// Whether `s` is the decimal spelling of an unsigned number: an optional
/// leading plus sign followed by at least one ASCII digit.
pub open spec fn is_decimal(s: Seq<u8>) -> bool {
    let d = decimal_digits(s);
    d.len() > 0 && forall|i: int| 0 <= i < d.len() ==> 48 <= #[trigger] d[i] <= 57
}

/// The number a sequence of ASCII digits spells.
pub open spec fn decimal_value(s: Seq<u8>) -> nat
    decreases s.len(),
{
    if s.len() == 0 {
        0
    } else {
        10 * decimal_value(s.drop_last()) + (s.last() - 48) as nat
    }
}

proof fn lemma_decimal_value_prefix_le(s: Seq<u8>, i: int)
    requires
        0 <= i <= s.len(),
        forall|j: int| 0 <= j < s.len() ==> 48 <= #[trigger] s[j] <= 57,
    ensures
        decimal_value(s.subrange(0, i)) <= decimal_value(s),
    decreases s.len() - i,
{
    if i < s.len() {
        lemma_decimal_value_prefix_le(s, i + 1);
        let p = s.subrange(0, i + 1);
        assert(p.drop_last() =~= s.subrange(0, i));
        assert(decimal_value(s.subrange(0, i + 1)) == 10 * decimal_value(s.subrange(0, i)) + (
        s[i] - 48));
    } else {
        assert(s.subrange(0, i) =~= s);
    }
}

/// Parses a decimal, optionally plus-signed, number that fits in `usize`.
///
/// Returns `Ok(n)` exactly when the text is such a spelling of `n`, and
/// `Err(Error::InvalidConfiguration)` on any other text, including numbers
/// too large for `usize`.
pub fn parse_usize(expr: &str) -> (r: Result<usize, Error>)
    ensures
        r matches Ok(n) ==> is_decimal(expr.spec_bytes()) && n == decimal_value(
            decimal_digits(expr.spec_bytes()),
        ),
        r is Err ==> r == Err::<usize, Error>(Error::InvalidConfiguration) && (!is_decimal(
            expr.spec_bytes(),
        ) || decimal_value(decimal_digits(expr.spec_bytes())) > usize::MAX),
{
    let b = expr.as_bytes();
    let ghost digits = decimal_digits(expr.spec_bytes());
    let start: usize = if b.len() > 0 && b[0] == 43 {
        1
    } else {
        0
    };
    proof {
        assert(digits =~= b@.subrange(start as int, b@.len() as int));
        assert(b@.subrange(0, b@.len() as int) =~= b@);
    }
    if b.len() == start {
        return Err(Error::InvalidConfiguration);
    }
    let mut acc: usize = 0;
    let mut i: usize = start;
    while i < b.len()
        invariant
            b@ == expr.spec_bytes(),
            start <= i <= b@.len(),
            start == 0 || start == 1,
            start < b@.len(),
            (start == 1) <==> (b@.len() > 0 && b@[0] == 43),
            b@.subrange(0, b@.len() as int) == b@,
            digits == decimal_digits(expr.spec_bytes()),
            digits == b@.subrange(start as int, b@.len() as int),
            acc == decimal_value(digits.subrange(0, i - start)),
            forall|j: int| start <= j < i ==> 48 <= #[trigger] b@[j] <= 57,
        decreases b@.len() - i,
    {
        let d = b[i];
        if d < 48 || d > 57 {
            proof {
                assert(digits[i - start] == b@[i as int]);
                assert(!is_decimal(expr.spec_bytes()));
            }
            return Err(Error::InvalidConfiguration);
        }
        let ghost pre = digits.subrange(0, i - start);
        let ghost ext = digits.subrange(0, i + 1 - start);
        proof {
            assert(ext.drop_last() =~= pre);
            assert(ext.last() == b@[i as int]);
            assert(decimal_value(ext) == 10 * decimal_value(pre) + (d - 48));
        }
        if acc > (usize::MAX - (d - 48) as usize) / 10 {
            proof {
                assert(decimal_value(ext) > usize::MAX);
                if is_decimal(expr.spec_bytes()) {
                    assert(forall|jj: int|
                        0 <= jj < digits.len() ==> 48 <= #[trigger] digits[jj] <= 57);
                    lemma_decimal_value_prefix_le(digits, i + 1 - start);
                }
            }
            return Err(Error::InvalidConfiguration);
        }
        acc = acc * 10 + (d - 48) as usize;
        i = i + 1;
    }
    proof {
        assert(digits.subrange(0, i - start) =~= digits);
        assert forall|jj: int| 0 <= jj < digits.len() implies 48 <= #[trigger] digits[jj]
            <= 57 by {
            assert(digits[jj] == b@[start + jj]);
        }
        assert(is_decimal(expr.spec_bytes()));
    }
    Ok(acc)
}

} // verus!
