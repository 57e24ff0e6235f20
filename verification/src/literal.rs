//! The values of basic literals.

use vstd::prelude::*;
use vstd::arithmetic::div_mod::{lemma_fundamental_div_mod, lemma_small_mod};
use vstd::arithmetic::power2::{
    lemma2_to64, lemma2_to64_rest, lemma_pow2_pos, lemma_pow2_strictly_increases, pow2,
};
use vstd::bits::{lemma_u64_shl_is_mul, lemma_u64_shr_is_div};
use crate::value::TypeError;

verus! {

/// Whether a character is a decimal digit.
pub open spec fn is_digit(c: char) -> bool {
    '0' <= c <= '9'
}

/// Whether a text consists of decimal digits.
pub open spec fn all_digits(s: Seq<char>) -> bool {
    forall|i: int| 0 <= i < s.len() ==> is_digit(#[trigger] s[i])
}

/// The number that decimal digits denote.
pub open spec fn digits_value(s: Seq<char>) -> int
    decreases s.len(),
{
    if s.len() == 0 {
        0
    } else {
        digits_value(s.drop_last()) * 10 + (s.last() as int - '0' as int)
    }
}

/// The value of an integer literal: decimal digits that denote a number
/// within the range of the integer type.
pub open spec fn int_literal(s: Seq<char>) -> Result<i64, TypeError> {
    if s.len() == 0 || !all_digits(s) {
        Err(TypeError::InvalidLiteral)
    } else if digits_value(s) > i64::MAX {
        Err(TypeError::OverflowsInt)
    } else {
        Ok(digits_value(s) as i64)
    }
}

/// The value of a character literal: the code of the character after the
/// opening quote.
pub open spec fn char_literal(s: Seq<char>) -> Result<i64, TypeError> {
    if s.len() < 2 {
        Err(TypeError::InvalidLiteral)
    } else {
        Ok(s[1] as i64)
    }
}

/// The text of a string literal without the quotes around it.
pub open spec fn string_literal(s: Seq<char>) -> Result<Seq<char>, TypeError> {
    if s.len() < 2 {
        Err(TypeError::InvalidLiteral)
    } else {
        Ok(s.subrange(1, s.len() - 1))
    }
}

/// The exponent field of a double.
pub open spec fn f64_exponent(bits: u64) -> int {
    (bits as int / 0x10_0000_0000_0000) % 2048
}

/// The fraction field of a double.
pub open spec fn f64_fraction(bits: u64) -> int {
    bits as int % 0x10_0000_0000_0000
}

/// The sign of a double.
pub open spec fn f64_negative(bits: u64) -> bool {
    bits >= 0x8000_0000_0000_0000
}

/// The magnitude of a double, where it is a whole number: zero, or the
/// significand scaled by the power of two that the exponent gives.
pub open spec fn f64_magnitude(bits: u64) -> Result<int, TypeError> {
    let e = f64_exponent(bits);
    let sig = f64_fraction(bits) + 0x10_0000_0000_0000;
    if e == 0 {
        if f64_fraction(bits) == 0 {
            Ok(0int)
        } else {
            Err(TypeError::Truncated)
        }
    } else if e == 2047 {
        Err(TypeError::OverflowsInt)
    } else if e < 1075 {
        if sig % (pow2((1075 - e) as nat) as int) == 0 {
            Ok(sig / (pow2((1075 - e) as nat) as int))
        } else {
            Err(TypeError::Truncated)
        }
    } else {
        Ok(sig * pow2((e - 1075) as nat))
    }
}

/// The integer that a double is converted to: the double must be a whole
/// number within the range of the integer type.
pub open spec fn float_to_int(bits: u64) -> Result<i64, TypeError> {
    match f64_magnitude(bits) {
        Ok(mag) => {
            let v = if f64_negative(bits) {
                -mag
            } else {
                mag
            };
            if i64::MIN <= v <= i64::MAX {
                Ok(v as i64)
            } else {
                Err(TypeError::OverflowsInt)
            }
        },
        Err(t) => Err(t),
    }
}

/// The number that digits denote does not get smaller with more digits.
pub proof fn lemma_digits_value_prefix(s: Seq<char>, i: int)
    requires
        all_digits(s),
        0 <= i <= s.len(),
    ensures
        0 <= digits_value(s.subrange(0, i)) <= digits_value(s),
    decreases s.len() - i,
{
    lemma_digits_value_nonneg(s.subrange(0, i));
    if i < s.len() {
        let t = s.subrange(0, i + 1);
        assert(t.drop_last() =~= s.subrange(0, i));
        assert(is_digit(s[i]));
        assert(t.last() == s[i]);
        lemma_digits_value_prefix(s, i + 1);
    } else {
        assert(s.subrange(0, i) =~= s);
    }
}

pub proof fn lemma_digits_value_nonneg(s: Seq<char>)
    requires
        all_digits(s),
    ensures
        0 <= digits_value(s),
    decreases s.len(),
{
    if s.len() > 0 {
        assert(is_digit(s.last()));
        lemma_digits_value_nonneg(s.drop_last());
    }
}

/// Reads an integer literal.
pub fn parse_int(text: &str) -> (r: Result<i64, TypeError>)
    ensures
        r == int_literal(text@),
{
    let n: usize = text.unicode_len();
    if n == 0 {
        return Err(TypeError::InvalidLiteral);
    }
    let mut i: usize = 0;
    while i < n
        invariant
            i <= n,
            n == text@.len(),
            forall|j: int| 0 <= j < i ==> is_digit(#[trigger] text@[j]),
        decreases n - i,
    {
        let c = text.get_char(i);
        if !(c >= '0' && c <= '9') {
            return Err(TypeError::InvalidLiteral);
        }
        i = i + 1;
    }
    let mut acc: i64 = 0;
    let mut k: usize = 0;
    assert(text@.subrange(0, 0) =~= Seq::<char>::empty());
    while k < n
        invariant
            k <= n,
            n == text@.len(),
            all_digits(text@),
            acc == digits_value(text@.subrange(0, k as int)),
            0 <= acc,
        decreases n - k,
    {
        let c = text.get_char(k);
        let d: i64 = (c as u32 - '0' as u32) as i64;
        proof {
            let t = text@.subrange(0, k + 1);
            assert(t.drop_last() =~= text@.subrange(0, k as int));
            assert(t.last() == text@[k as int]);
            assert(is_digit(text@[k as int]));
            lemma_digits_value_prefix(text@, k + 1);
        }
        if acc > (i64::MAX - d) / 10 {
            return Err(TypeError::OverflowsInt);
        }
        acc = acc * 10 + d;
        k = k + 1;
    }
    assert(text@.subrange(0, n as int) =~= text@);
    Ok(acc)
}

/// Reads a character literal.
pub fn parse_char(text: &str) -> (r: Result<i64, TypeError>)
    ensures
        r == char_literal(text@),
{
    let n: usize = text.unicode_len();
    if n < 2 {
        return Err(TypeError::InvalidLiteral);
    }
    let c = text.get_char(1);
    Ok(c as u32 as i64)
}

/// Takes the quotes off a string literal.
pub fn parse_string(text: &str) -> (r: Result<String, TypeError>)
    ensures
        match string_literal(text@) {
            Ok(s) => r is Ok && r->Ok_0@ == s,
            Err(e) => r == Err::<String, TypeError>(e),
        },
{
    let n: usize = text.unicode_len();
    if n < 2 {
        return Err(TypeError::InvalidLiteral);
    }
    Ok(text.substring_char(1, n - 1).to_owned())
}

/// Converts a double, given by its bits, to an integer. The double must be
/// a whole number within the range of the integer type.
pub fn convert_float(bits: u64) -> (r: Result<i64, TypeError>)
    ensures
        r == float_to_int(bits),
{
    let e: u64 = (bits >> 52) & 0x7ff;
    let frac: u64 = bits & 0xf_ffff_ffff_ffff;
    let neg: bool = bits >= 0x8000_0000_0000_0000;
    assert(e == (bits / 0x10_0000_0000_0000) % 2048 && frac == bits % 0x10_0000_0000_0000
        && frac < 0x10_0000_0000_0000) by (bit_vector)
        requires
            e == (bits >> 52) & 0x7ff,
            frac == bits & 0xf_ffff_ffff_ffff,
    ;
    assert(e == f64_exponent(bits));
    assert(frac == f64_fraction(bits));
    if e == 0 {
        return if frac == 0 {
            Ok(0)
        } else {
            Err(TypeError::Truncated)
        };
    }
    if e == 2047 {
        return Err(TypeError::OverflowsInt);
    }
    let sig: u64 = frac + 0x10_0000_0000_0000;
    proof {
        lemma2_to64();
        lemma2_to64_rest();
    }
    if e < 1075 {
        let k: u64 = 1075 - e;
        let ghost d: int = pow2(k as nat) as int;
        proof {
            lemma_pow2_pos(k as nat);
        }
        if k > 52 {
            proof {
                if k > 53 {
                    lemma_pow2_strictly_increases(53, k as nat);
                }
                lemma_small_mod(sig as nat, d as nat);
            }
            return Err(TypeError::Truncated);
        }
        let q: u64 = sig >> k;
        proof {
            lemma_u64_shr_is_div(sig, k);
            lemma_fundamental_div_mod(sig as int, d);
            assert(q == sig as int / d);
            assert(q * d <= sig) by (nonlinear_arith)
                requires
                    sig == d * q + (sig as int % d),
                    0 <= sig as int % d,
            ;
            lemma_u64_shl_is_mul(q, k);
            assert(0 <= q <= sig) by (nonlinear_arith)
                requires
                    q * d <= sig,
                    d >= 1,
                    q >= 0,
            ;
        }
        if (q << k) != sig {
            proof {
                assert(sig as int % d != 0) by (nonlinear_arith)
                    requires
                        sig == d * q + (sig as int % d),
                        q * d != sig,
                ;
            }
            return Err(TypeError::Truncated);
        }
        proof {
            assert(sig as int % d == 0) by (nonlinear_arith)
                requires
                    sig == d * q + (sig as int % d),
                    q * d == sig,
            ;
        }
        let v: i64 = q as i64;
        if neg {
            Ok(-v)
        } else {
            Ok(v)
        }
    } else {
        let k: u64 = e - 1075;
        let ghost p: int = pow2(k as nat) as int;
        if k <= 10 {
            proof {
                if k < 10 {
                    lemma_pow2_strictly_increases(k as nat, 10);
                }
                assert(sig * p < 0x8000_0000_0000_0000) by (nonlinear_arith)
                    requires
                        0 <= sig < 0x20_0000_0000_0000,
                        0 < p <= 1024,
                ;
                assert(sig * p >= 0) by (nonlinear_arith)
                    requires
                        0 <= sig,
                        0 < p,
                ;
                lemma_u64_shl_is_mul(sig, k);
            }
            let v: i64 = (sig << k) as i64;
            if neg {
                Ok(-v)
            } else {
                Ok(v)
            }
        } else if k == 11 && neg && frac == 0 {
            Ok(i64::MIN)
        } else {
            proof {
                if k == 11 {
                    assert(sig * p >= 0x8000_0000_0000_0000) by (nonlinear_arith)
                        requires
                            sig >= 0x10_0000_0000_0000,
                            p == 2048,
                    ;
                    if frac != 0 {
                        assert(sig * p > 0x8000_0000_0000_0000) by (nonlinear_arith)
                            requires
                                sig > 0x10_0000_0000_0000,
                                p == 2048,
                        ;
                    }
                } else {
                    if k > 12 {
                        lemma_pow2_strictly_increases(12, k as nat);
                    }
                    assert(sig * p > 0x8000_0000_0000_0000) by (nonlinear_arith)
                        requires
                            sig >= 0x10_0000_0000_0000,
                            p >= 4096,
                    ;
                }
            }
            Err(TypeError::OverflowsInt)
        }
    }
}

} // verus!
