//! Numbers as written in configuration values ("1.5", "80", "2e3", "inf"):
//! the grammar that `f64::from_str` accepts, read exactly.

use vstd::prelude::*;
use crate::text::{all_digits, append_chars, digits_value, is_digit, lower_eq, lower_eq_str, sub_chars};

verus! {

/// Written exponents beyond this magnitude are read as this magnitude.
pub const EXPONENT_LIMIT: u64 = 1_000_000_000_000;

/// What kind of number a [`Decimal`] is.
#[derive(Clone, Copy, Debug, PartialEq, Eq, Structural)]
pub enum DecimalKind {
    Finite,
    Infinite,
    NaN,
}

/// A number read from text the way `f64::from_str` reads it, but kept exact:
/// a finite value is `digits × 10^exponent` (with the sign in `negative`).
#[derive(Debug)]
pub struct Decimal {
    pub negative: bool,
    pub kind: DecimalKind,
    /// Decimal digit characters, most significant first.
    pub digits: Vec<char>,
    pub exponent: i128,
}

pub open spec fn clamp_exponent(e: int) -> int {
    if e > EXPONENT_LIMIT {
        EXPONENT_LIMIT as int
    } else if e < -EXPONENT_LIMIT {
        -EXPONENT_LIMIT
    } else {
        e
    }
}

/// The first index at or after `i` that does not hold a decimal digit.
pub open spec fn digit_run_end(s: Seq<char>, i: int) -> int
    decreases s.len() - i,
{
    if i < 0 || i >= s.len() {
        i
    } else if is_digit(s[i]) {
        digit_run_end(s, i + 1)
    } else {
        i
    }
}

/// The grammar of `f64::from_str`: an optional sign, then `inf`, `infinity`
/// or `nan` in any ASCII case, or digits with an optional `.` and fraction
/// (at least one digit in all) and an optional exponent (`e` or `E`, an
/// optional sign and at least one digit). The result is
/// `(negative, kind, digits, exponent)`, the exponent being the written one
/// (clamped to `EXPONENT_LIMIT`) less the number of fraction digits.
pub open spec fn parse_decimal_spec(s: Seq<char>) -> Option<(bool, DecimalKind, Seq<char>, int)> {
    let negative = s.len() > 0 && s[0] == '-';
    let b = if s.len() > 0 && (s[0] == '-' || s[0] == '+') {
        s.drop_first()
    } else {
        s
    };
    if lower_eq(b, "inf"@) || lower_eq(b, "infinity"@) {
        Some((negative, DecimalKind::Infinite, Seq::empty(), 0))
    } else if lower_eq(b, "nan"@) {
        Some((negative, DecimalKind::NaN, Seq::empty(), 0))
    } else {
        parse_finite_spec(negative, b)
    }
}

/// The finite-number part of `parse_decimal_spec`, for the text after the sign.
pub open spec fn parse_finite_spec(negative: bool, b: Seq<char>) -> Option<(bool, DecimalKind, Seq<char>, int)> {
    let i1 = digit_run_end(b, 0);
    let f0 = if i1 < b.len() && b[i1] == '.' {
        i1 + 1
    } else {
        i1
    };
    let f1 = digit_run_end(b, f0);
    let digits = b.subrange(0, i1) + b.subrange(f0, f1);
    let frac = f1 - f0;
    if digits.len() == 0 {
        None
    } else if f1 == b.len() {
        Some((negative, DecimalKind::Finite, digits, -frac))
    } else if b[f1] == 'e' || b[f1] == 'E' {
        let e_neg = f1 + 1 < b.len() && b[f1 + 1] == '-';
        let e0 = if f1 + 1 < b.len() && (b[f1 + 1] == '-' || b[f1 + 1] == '+') {
            f1 + 2
        } else {
            f1 + 1
        };
        let e1 = digit_run_end(b, e0);
        if e0 < e1 && e1 == b.len() {
            let ev = digits_value(b.subrange(e0, e1)) as int;
            Some(
                (
                    negative,
                    DecimalKind::Finite,
                    digits,
                    clamp_exponent(
                        if e_neg {
                            -ev
                        } else {
                            ev
                        },
                    ) - frac,
                ),
            )
        } else {
            None
        }
    } else {
        None
    }
}

impl Decimal {
    pub open spec fn wf(&self) -> bool {
        &&& all_digits(self.digits@)
        &&& -(EXPONENT_LIMIT + usize::MAX) <= self.exponent <= EXPONENT_LIMIT
    }

    /// The parts of the number, as `parse_decimal_spec` gives them.
    pub open spec fn parts(&self) -> (bool, DecimalKind, Seq<char>, int) {
        (self.negative, self.kind, self.digits@, self.exponent as int)
    }
}

pub proof fn lemma_digit_run_end(s: Seq<char>, i: int)
    requires
        0 <= i <= s.len(),
    ensures
        i <= digit_run_end(s, i) <= s.len(),
        digit_run_end(s, i) < s.len() ==> !is_digit(s[digit_run_end(s, i)]),
        all_digits(s.subrange(i, digit_run_end(s, i))),
    decreases s.len() - i,
{
    if i < s.len() && is_digit(s[i]) {
        lemma_digit_run_end(s, i + 1);
        let e = digit_run_end(s, i);
        assert forall|k: int| 0 <= k < e - i implies is_digit(#[trigger] s.subrange(i, e)[k]) by {
            if k > 0 {
                assert(s.subrange(i, e)[k] == s.subrange(i + 1, e)[k - 1]);
            }
        }
    }
}

/// The index of the first non-digit character of `s` at or after `i`.
pub fn digit_run(s: &[char], i: usize) -> (r: usize)
    requires
        i <= s@.len(),
    ensures
        r == digit_run_end(s@, i as int),
{
    let mut j = i;
    while j < s.len() && '0' <= s[j] && s[j] <= '9'
        invariant
            i <= j <= s@.len(),
            digit_run_end(s@, i as int) == digit_run_end(s@, j as int),
        decreases s.len() - j,
    {
        j = j + 1;
    }
    j
}

/// `min(value of the digits s[a..b], cap)`.
pub fn digits_value_capped(s: &[char], a: usize, b: usize, cap: u128) -> (r: u128)
    requires
        a <= b <= s@.len(),
        all_digits(s@.subrange(a as int, b as int)),
        cap <= 0x1_0000_0000_0000_0000_0000_0000u128,
    ensures
        r == if digits_value(s@.subrange(a as int, b as int)) > cap {
            cap as nat
        } else {
            digits_value(s@.subrange(a as int, b as int))
        },
{
    let mut acc: u128 = 0;
    let mut i = a;
    while i < b
        invariant
            a <= i <= b <= s@.len(),
            all_digits(s@.subrange(a as int, b as int)),
            cap <= 0x1_0000_0000_0000_0000_0000_0000u128,
            acc == if digits_value(s@.subrange(a as int, i as int)) > cap {
                cap as nat
            } else {
                digits_value(s@.subrange(a as int, i as int))
            },
        decreases b - i,
    {
        assert(s@.subrange(a as int, i + 1).drop_last() == s@.subrange(a as int, i as int));
        assert(s@.subrange(a as int, i + 1).last() == s@[i as int]);
        assert(is_digit(s@[i as int])) by {
            assert(s@[i as int] == s@.subrange(a as int, b as int)[i - a]);
        }
        let dv = (s[i] as u32 - '0' as u32) as u128;
        if acc < cap {
            let next = acc * 10 + dv;
            acc = if next > cap {
                cap
            } else {
                next
            };
        }
        i = i + 1;
    }
    acc
}


impl Decimal {
    /// Reads a number the way `f64::from_str` does, exactly.
    pub fn parse(s: &[char]) -> (r: Option<Decimal>)
        ensures
            match r {
                Some(d) => d.wf() && parse_decimal_spec(s@) == Some(d.parts()),
                None => parse_decimal_spec(s@) is None,
            },
    {
        let negative = s.len() > 0 && s[0] == '-';
        let start: usize = if s.len() > 0 && (s[0] == '-' || s[0] == '+') {
            1
        } else {
            0
        };
        let b = sub_chars(s, start, s.len());
        proof {
            if start == 1 {
                assert(b@ == s@.drop_first());
            } else {
                assert(b@ == s@);
            }
        }
        if lower_eq_str(b.as_slice(), "inf") || lower_eq_str(b.as_slice(), "infinity") {
            return Some(
                Decimal {
                    negative,
                    kind: DecimalKind::Infinite,
                    digits: Vec::new(),
                    exponent: 0,
                },
            );
        }
        if lower_eq_str(b.as_slice(), "nan") {
            return Some(
                Decimal { negative, kind: DecimalKind::NaN, digits: Vec::new(), exponent: 0 },
            );
        }
        Self::parse_finite(negative, b.as_slice())
    }

    /// The finite-number part of [`Decimal::parse`].
    #[verifier::rlimit(40)]
    fn parse_finite(negative: bool, b: &[char]) -> (r: Option<Decimal>)
        ensures
            match r {
                Some(d) => d.wf() && parse_finite_spec(negative, b@) == Some(d.parts()),
                None => parse_finite_spec(negative, b@) is None,
            },
    {
        let n = b.len();
        let i1 = digit_run(b, 0);
        proof {
            lemma_digit_run_end(b@, 0);
        }
        let f0 = if i1 < n && b[i1] == '.' {
            i1 + 1
        } else {
            i1
        };
        let f1 = digit_run(b, f0);
        proof {
            lemma_digit_run_end(b@, f0 as int);
        }
        let mut digits = sub_chars(b, 0, i1);
        let frac_digits = sub_chars(b, f0, f1);
        append_chars(&mut digits, frac_digits.as_slice());
        let frac = f1 - f0;
        if digits.len() == 0 {
            return None;
        }
        assert(all_digits(digits@)) by {
            assert forall|k: int| 0 <= k < digits@.len() implies is_digit(#[trigger] digits@[k]) by {
                if k < i1 {
                    assert(digits@[k] == b@.subrange(0, i1 as int)[k]);
                } else {
                    assert(digits@[k] == b@.subrange(f0 as int, f1 as int)[k - i1]);
                }
            }
        }
        if f1 == n {
            return Some(
                Decimal {
                    negative,
                    kind: DecimalKind::Finite,
                    digits,
                    exponent: 0 - (frac as i128),
                },
            );
        }
        if !(b[f1] == 'e' || b[f1] == 'E') {
            return None;
        }
        let e_neg = f1 + 1 < n && b[f1 + 1] == '-';
        let e0 = if f1 + 1 < n && (b[f1 + 1] == '-' || b[f1 + 1] == '+') {
            f1 + 2
        } else {
            f1 + 1
        };
        let e1 = digit_run(b, e0);
        if !(e0 < e1 && e1 == n) {
            return None;
        }
        proof {
            lemma_digit_run_end(b@, e0 as int);
        }
        let ev = digits_value_capped(b, e0, e1, (EXPONENT_LIMIT as u128) + 1);
        let clamped: i128 = if ev > EXPONENT_LIMIT as u128 {
            EXPONENT_LIMIT as i128
        } else {
            ev as i128
        };
        let signed: i128 = if e_neg {
            0 - clamped
        } else {
            clamped
        };
        Some(
            Decimal {
                negative,
                kind: DecimalKind::Finite,
                digits,
                exponent: signed - (frac as i128),
            },
        )
    }
}

} // verus!
