//! JWT NumericDate values: the whole seconds that a JSON number written as
//! a claim stands for, rounded to the nearest second.
use vstd::prelude::*;

use crate::text::{
    all_digits, chars_all_digits, chars_range, digits_value, is_digit, parse_digits_bounded,
    spec_split_once, split_once_chars, str_chars,
};

verus! {

/// Ten to the power `k`.
pub open spec fn pow10(k: nat) -> nat
    decreases k,
{
    if k == 0 {
        1
    } else {
        10 * pow10((k - 1) as nat)
    }
}

proof fn lemma_pow10_mono(i: nat, k: nat)
    requires
        i <= k,
    ensures
        1 <= pow10(i) <= pow10(k),
    decreases k,
{
    if k > 0 {
        if i < k {
            lemma_pow10_mono(i, (k - 1) as nat);
        } else {
            lemma_pow10_mono(0, (k - 1) as nat);
        }
    }
}

/// At least one digit, and nothing else.
pub open spec fn nonempty_digits(s: Seq<char>) -> bool {
    s.len() > 0 && all_digits(s)
}

/// The digits `s` with the decimal point after position `p` (which may lie
/// outside them), rounded to the nearest whole number, halves up.
pub open spec fn spec_rounded(s: Seq<char>, p: int) -> nat {
    if p <= 0 {
        if p == 0 && s.len() > 0 && s[0] >= '5' {
            1
        } else {
            0
        }
    } else if p >= s.len() {
        digits_value(s) * pow10((p - s.len()) as nat)
    } else {
        digits_value(s.take(p)) + if s[p] >= '5' {
            1nat
        } else {
            0nat
        }
    }
}

/// The decimal exponent after `e`: digits, possibly after a minus sign, of
/// magnitude at most 400 (JSON text of a double never needs more).
pub open spec fn spec_exponent(x: Seq<char>) -> Option<int> {
    if x.len() > 0 && x[0] == '-' && nonempty_digits(x.drop_first()) && digits_value(
        x.drop_first(),
    ) <= 400 {
        Some(-(digits_value(x.drop_first()) as int))
    } else if nonempty_digits(x) && digits_value(x) <= 400 {
        Some(digits_value(x) as int)
    } else {
        None
    }
}

/// The integer and fraction digits of `D` or `D.F`.
pub open spec fn spec_mantissa(m: Seq<char>) -> Option<(Seq<char>, Seq<char>)> {
    match spec_split_once(m, '.') {
        Some((d, f)) => if nonempty_digits(d) && nonempty_digits(f) {
            Some((d, f))
        } else {
            None
        },
        None => if nonempty_digits(m) {
            Some((m, Seq::empty()))
        } else {
            None
        },
    }
}

/// The whole seconds of a JSON number `D[.F][e[-]X]` (as JSON text renders
/// a non-negative number), rounded to the nearest second, halves up; `None`
/// for any other text, or an exponent beyond 400.
pub open spec fn spec_numeric_date(text: Seq<char>) -> Option<nat> {
    let (m, e) = match spec_split_once(text, 'e') {
        Some((m, x)) => (m, spec_exponent(x)),
        None => (text, Some(0int)),
    };
    match (spec_mantissa(m), e) {
        (Some((d, f)), Some(e)) => Some(spec_rounded(d + f, d.len() + e)),
        _ => None,
    }
}

/// `v`, or `u64::MAX` when it does not fit.
pub open spec fn spec_capped(v: int) -> u64 {
    if v > u64::MAX {
        u64::MAX
    } else {
        v as u64
    }
}

/// `digits * 10^k`, capped at `u64::MAX`.
fn scaled_capped(digits: u64, k: u128) -> (out: u64)
    ensures
        out == spec_capped(digits * pow10(k as nat)),
{
    if digits == 0 {
        assert(0 * pow10(k as nat) == 0) by (nonlinear_arith);
        return 0;
    }
    let mut acc: u64 = digits;
    let mut i: u128 = 0;
    assert(digits * pow10(0) == digits) by {
        assert(pow10(0) == 1);
    }
    while i < k && acc < u64::MAX
        invariant
            i <= k,
            digits >= 1,
            acc == spec_capped(digits * pow10(i as nat)),
        decreases k - i,
    {
        let ghost x = digits * pow10(i as nat);
        assert(digits * pow10((i + 1) as nat) == x * 10) by (nonlinear_arith)
            requires
                pow10((i + 1) as nat) == 10 * pow10(i as nat),
                x == digits * pow10(i as nat),
        ;
        if acc > u64::MAX / 10 {
            acc = u64::MAX;
        } else {
            acc = acc * 10;
        }
        i = i + 1;
    }
    if i < k {
        proof {
            lemma_pow10_mono(i as nat, k as nat);
            let a = digits * pow10(i as nat);
            let b = digits * pow10(k as nat);
            assert(a <= b) by (nonlinear_arith)
                requires
                    pow10(i as nat) <= pow10(k as nat),
                    a == digits * pow10(i as nat),
                    b == digits * pow10(k as nat),
            ;
        }
    }
    acc
}

/// The digits `s` with the point after position `p`, rounded, capped at
/// `u64::MAX`.
fn rounded_capped(s: &[char], p: i128) -> (out: u64)
    requires
        all_digits(s@),
        s@.len() > 0,
        p <= s@.len() + 400,
    ensures
        out == spec_capped(spec_rounded(s@, p as int) as int),
{
    if p <= 0 {
        return if p == 0 && s[0] >= '5' {
            1
        } else {
            0
        };
    }
    if p >= s.len() as i128 {
        let k: u128 = (p - s.len() as i128) as u128;
        return match parse_digits_bounded(s, u64::MAX) {
            Some(v) => scaled_capped(v, k),
            None => {
                proof {
                    lemma_pow10_mono(0, k as nat);
                    let a = digits_value(s@);
                    let b = digits_value(s@) * pow10(k as nat);
                    assert(a <= b) by (nonlinear_arith)
                        requires
                            pow10(k as nat) >= 1,
                            b == a * pow10(k as nat),
                    ;
                }
                u64::MAX
            },
        };
    }
    let head = chars_range(s, 0, p as usize);
    assert(head@ =~= s@.take(p as int));
    assert(all_digits(head@));
    let round: u64 = if s[p as usize] >= '5' {
        1
    } else {
        0
    };
    match parse_digits_bounded(head.as_slice(), u64::MAX) {
        Some(v) => if v == u64::MAX {
            u64::MAX
        } else {
            v + round
        },
        None => u64::MAX,
    }
}

/// The exponent after `e`, as `spec_exponent` reads it.
fn parse_exponent(x: &[char]) -> (out: Option<i128>)
    ensures
        match spec_exponent(x@) {
            Some(e) => out is Some && out->0 == e,
            None => out is None,
        },
{
    let negative = x.len() > 0 && x[0] == '-';
    let digits = if negative {
        chars_range(x, 1, x.len())
    } else {
        chars_range(x, 0, x.len())
    };
    assert(x@.subrange(0, x@.len() as int) =~= x@);
    assert(negative ==> x@.subrange(1, x@.len() as int) =~= x@.drop_first());
    if digits.len() == 0 || !chars_all_digits(digits.as_slice()) {
        proof {
            if negative {
                assert(!nonempty_digits(x@)) by {
                    assert(!is_digit(x@[0]));
                }
            }
        }
        return None;
    }
    match parse_digits_bounded(digits.as_slice(), 400) {
        Some(v) => {
            if negative {
                Some(-(v as i128))
            } else {
                Some(v as i128)
            }
        },
        None => {
            proof {
                if negative {
                    assert(!nonempty_digits(x@)) by {
                        assert(!is_digit(x@[0]));
                    }
                }
            }
            None
        },
    }
}

/// The integer and fraction digits of a mantissa, as `spec_mantissa`
/// reads them.
fn parse_mantissa(m: &[char]) -> (out: Option<(Vec<char>, Vec<char>)>)
    ensures
        match spec_mantissa(m@) {
            Some((d, f)) => out matches Some((a, b)) && a@ == d && b@ == f,
            None => out is None,
        },
{
    match split_once_chars(m, '.') {
        Some((d, f)) => {
            if d.len() == 0 || f.len() == 0 || !chars_all_digits(d.as_slice()) || !chars_all_digits(
                f.as_slice(),
            ) {
                return None;
            }
            Some((d, f))
        },
        None => {
            if m.len() == 0 || !chars_all_digits(m) {
                return None;
            }
            let whole = chars_range(m, 0, m.len());
            assert(whole@ =~= m@);
            Some((whole, Vec::new()))
        },
    }
}

/// The whole seconds of a JSON number as `spec_numeric_date` reads it,
/// capped at `u64::MAX`.
pub fn numeric_date_seconds(text: &str) -> (out: Option<u64>)
    ensures
        match spec_numeric_date(text@) {
            Some(v) => out is Some && out->0 == spec_capped(v as int),
            None => out is None,
        },
{
    let chars = str_chars(text);
    let (mantissa, exponent): (Vec<char>, i128) = match split_once_chars(chars.as_slice(), 'e') {
        Some((m, x)) => match parse_exponent(x.as_slice()) {
            Some(e) => (m, e),
            None => return None,
        },
        None => {
            let whole = chars_range(chars.as_slice(), 0, chars.len());
            assert(whole@ =~= chars@);
            (whole, 0)
        },
    };
    let (d, f) = match parse_mantissa(mantissa.as_slice()) {
        Some(parts) => parts,
        None => return None,
    };
    let mut s = chars_range(d.as_slice(), 0, d.len());
    assert(s@ =~= d@ + f@.take(0));
    let mut j: usize = 0;
    while j < f.len()
        invariant
            j <= f@.len(),
            s@ == d@ + f@.take(j as int),
        decreases f@.len() - j,
    {
        s.push(f[j]);
        j = j + 1;
        assert(s@ =~= d@ + f@.take(j as int));
    }
    assert(f@.take(f@.len() as int) =~= f@);
    assert(all_digits(s@)) by {
        assert forall|i: int| 0 <= i < s@.len() implies is_digit(#[trigger] s@[i]) by {
            if i < d@.len() {
                assert(s@[i] == d@[i]);
            } else {
                assert(s@[i] == f@[i - d@.len()]);
            }
        }
    }
    let p: i128 = d.len() as i128 + exponent;
    Some(rounded_capped(s.as_slice(), p))
}

} // verus!
