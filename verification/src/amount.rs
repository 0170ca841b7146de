use vstd::prelude::*;
use vstd::string::StringSliceAdditionalSpecFns;

verus! {

/// Token amounts travel across the contract boundary as decimal strings and
/// are parsed into unsigned 128-bit integers, so no precision is lost.
pub open spec fn is_digit(b: u8) -> bool {
    48 <= b <= 57
}

pub open spec fn all_digits(s: Seq<u8>) -> bool {
    forall|i: int| 0 <= i < s.len() ==> is_digit(#[trigger] s[i])
}

/// The value of a sequence of decimal digit bytes, most significant first.
pub open spec fn digits_value(s: Seq<u8>) -> int
    decreases s.len(),
{
    if s.len() == 0 {
        0
    } else {
        digits_value(s.drop_last()) * 10 + (s.last() - 48)
    }
}

/// What parsing a decimal string yields: the value of its digits, provided the
/// string is non-empty, holds digits only, and the value fits in 128 bits.
pub open spec fn spec_parse_u128(s: Seq<u8>) -> Option<u128> {
    if s.len() > 0 && all_digits(s) && digits_value(s) <= u128::MAX {
        Some(digits_value(s) as u128)
    } else {
        None
    }
}

/// The value of a digit string never shrinks when digits are appended.
proof fn lemma_digits_value_prefix(s: Seq<u8>, k: int)
    requires
        0 <= k <= s.len(),
        all_digits(s),
    ensures
        digits_value(s) >= digits_value(s.subrange(0, k)),
    decreases s.len() - k,
{
    if k < s.len() {
        let t = s.subrange(0, k + 1);
        assert(t.drop_last() =~= s.subrange(0, k));
        assert(digits_value(t) == digits_value(s.subrange(0, k)) * 10 + (s[k] - 48));
        lemma_digits_value_nonneg(s.subrange(0, k));
        assert(digits_value(t) >= digits_value(s.subrange(0, k))) by (nonlinear_arith)
            requires
                digits_value(t) == digits_value(s.subrange(0, k)) * 10 + (s[k] - 48),
                digits_value(s.subrange(0, k)) >= 0,
                s[k] >= 48,
        {}
        lemma_digits_value_prefix(s, k + 1);
        assert(s.subrange(0, s.len() as int) =~= s);
    } else {
        assert(s.subrange(0, s.len() as int) =~= s);
    }
}

proof fn lemma_digits_value_nonneg(s: Seq<u8>)
    requires
        all_digits(s),
    ensures
        digits_value(s) >= 0,
    decreases s.len(),
{
    if s.len() > 0 {
        assert(all_digits(s.drop_last()));
        lemma_digits_value_nonneg(s.drop_last());
    }
}

/// Parses a decimal string into an unsigned 128-bit amount. Returns `None`
/// exactly when the string is empty, holds a non-digit, or overflows.
pub fn parse_u128(s: &str) -> (r: Option<u128>)
    ensures
        r == spec_parse_u128(s.spec_bytes()),
{
    let bytes = s.as_bytes();
    let ghost sq = s.spec_bytes();
    if bytes.len() == 0 {
        return None;
    }
    let mut acc: u128 = 0;
    let mut i: usize = 0;
    while i < bytes.len()
        invariant
            0 <= i <= sq.len(),
            sq == s.spec_bytes(),
            bytes@ == sq,
            all_digits(sq.subrange(0, i as int)),
            acc == digits_value(sq.subrange(0, i as int)),
        decreases sq.len() - i,
    {
        let b = bytes[i];
        if b < 48 || b > 57 {
            assert(!all_digits(sq));
            return None;
        }
        let d = (b - 48) as u128;
        let ghost pre = sq.subrange(0, i as int);
        let ghost ext = sq.subrange(0, i as int + 1);
        assert(ext.drop_last() =~= pre);
        assert(digits_value(ext) == digits_value(pre) * 10 + (sq[i as int] - 48));
        let next = match acc.checked_mul(10) {
            Some(m) => m.checked_add(d),
            None => None,
        };
        match next {
            Some(v) => {
                acc = v;
            },
            None => {
                // The value of the prefix already exceeds the range, so the
                // whole string does too.
                proof {
                    assert(digits_value(ext) > u128::MAX) by (nonlinear_arith)
                        requires
                            digits_value(ext) == digits_value(pre) * 10 + (sq[i as int] - 48),
                            digits_value(pre) == acc,
                            acc * 10 > u128::MAX || acc * 10 + d > u128::MAX,
                            d == sq[i as int] - 48,
                            acc >= 0,
                            d >= 0,
                    {}
                    if all_digits(sq) {
                        lemma_digits_value_prefix(sq, i as int + 1);
                    }
                }
                return None;
            },
        }
        i = i + 1;
    }
    proof {
        assert(sq.subrange(0, sq.len() as int) =~= sq);
    }
    Some(acc)
}

} // verus!
