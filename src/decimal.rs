//! Exact decimal numbers as they appear in G-code fields (`12.400`, `1.25`).
use vstd::prelude::*;
use vstd::arithmetic::div_mod::lemma_div_denominator;
use crate::text::{is_digit, is_digit_or_point};

verus! {

/// A non-negative decimal number `mantissa / 10^scale`, kept exactly as
/// written: `12.400` is mantissa 12400 with scale 3.
#[derive(Clone, Copy, Debug, PartialEq, Eq, Structural)]
pub struct Decimal {
    pub mantissa: u64,
    pub scale: u32,
}

pub open spec fn pow10(n: nat) -> nat
    decreases n,
{
    if n == 0 {
        1
    } else {
        10 * pow10((n - 1) as nat)
    }
}

/// Value of the digits of `s`, read as one integer; points are skipped.
pub open spec fn digits_value(s: Seq<char>) -> nat
    decreases s.len(),
{
    if s.len() == 0 {
        0
    } else if s.last() == '.' {
        digits_value(s.drop_last())
    } else {
        digits_value(s.drop_last()) * 10 + (s.last() as nat - '0' as nat) as nat
    }
}

pub open spec fn count_points(s: Seq<char>) -> nat
    decreases s.len(),
{
    if s.len() == 0 {
        0
    } else {
        count_points(s.drop_last()) + if s.last() == '.' { 1nat } else { 0nat }
    }
}

/// Number of characters after the point (zero when there is none).
pub open spec fn fraction_len(s: Seq<char>) -> nat
    decreases s.len(),
{
    if s.len() == 0 || s.last() == '.' {
        0
    } else {
        fraction_len(s.drop_last()) + if count_points(s.drop_last()) > 0 { 1nat } else { 0nat }
    }
}

/// `s` is written as digits with at most one point, and has a digit.
pub open spec fn is_number_text(s: Seq<char>) -> bool {
    &&& forall|i: int| 0 <= i < s.len() ==> is_digit_or_point(#[trigger] s[i])
    &&& count_points(s) <= 1
    &&& exists|i: int| 0 <= i < s.len() && is_digit(#[trigger] s[i])
}

/// The number that `s` writes, if it is one and fits the representation.
pub open spec fn parse_spec(s: Seq<char>) -> Option<Decimal> {
    if is_number_text(s) && digits_value(s) <= u64::MAX && fraction_len(s) <= u32::MAX {
        Some(Decimal { mantissa: digits_value(s) as u64, scale: fraction_len(s) as u32 })
    } else {
        None
    }
}

/// The integer part of the number, as by truncation toward zero.
pub open spec fn whole_part(d: Decimal) -> nat {
    d.mantissa as nat / pow10(d.scale as nat)
}

/// Whole part of a number field that is read as an unsigned 32-bit value:
/// saturating, and zero for text that is no number.
pub open spec fn whole_u32(s: Seq<char>) -> u32 {
    match parse_spec(s) {
        Some(d) => if whole_part(d) > u32::MAX { u32::MAX } else { whole_part(d) as u32 },
        None => 0,
    }
}

/// Value of an all-digit field as an unsigned 32-bit number: zero when the
/// field is empty, has another character, or does not fit.
pub open spec fn digits_u32(s: Seq<char>) -> u32 {
    if s.len() > 0 && (forall|i: int| 0 <= i < s.len() ==> is_digit(#[trigger] s[i]))
        && digits_value(s) <= u32::MAX {
        digits_value(s) as u32
    } else {
        0
    }
}

proof fn lemma_digits_value_grows(s: Seq<char>, i: int, j: int)
    requires
        0 <= i <= j <= s.len(),
    ensures
        digits_value(s.subrange(0, i)) <= digits_value(s.subrange(0, j)),
    decreases j - i,
{
    if i < j {
        lemma_digits_value_grows(s, i, j - 1);
        assert(s.subrange(0, j).drop_last() =~= s.subrange(0, j - 1));
    }
}

proof fn lemma_pow10_positive(n: nat)
    ensures
        pow10(n) >= 1,
    decreases n,
{
    if n > 0 {
        lemma_pow10_positive((n - 1) as nat);
    }
}

impl Decimal {
    pub open spec fn zero_spec() -> Decimal {
        Decimal { mantissa: 0, scale: 0 }
    }

    pub fn zero() -> (r: Decimal)
        ensures
            r == Decimal::zero_spec(),
    {
        Decimal { mantissa: 0, scale: 0 }
    }

    /// Reads a number written as digits with at most one point. Text that
    /// is no such number, or whose digits exceed 64 bits, gives `None`.
    pub fn parse(v: &Vec<char>) -> (r: Option<Decimal>)
        ensures
            r == parse_spec(v@),
    {
        let mut acc: u64 = 0;
        let mut points: u32 = 0;
        let mut frac: usize = 0;
        let mut seen_digit = false;
        let mut i: usize = 0;
        while i < v.len()
            invariant
                i <= v@.len(),
                acc as nat == digits_value(v@.subrange(0, i as int)),
                points as nat == count_points(v@.subrange(0, i as int)),
                points <= 1,
                frac as nat == fraction_len(v@.subrange(0, i as int)),
                frac as nat <= i,
                points == 0 ==> frac == 0,
                forall|k: int| 0 <= k < i ==> is_digit_or_point(#[trigger] v@[k]),
                seen_digit <==> exists|k: int| 0 <= k < i && is_digit(#[trigger] v@[k]),
            decreases v.len() - i,
        {
            let c = v[i];
            let ghost pre = v@.subrange(0, i as int);
            assert(v@.subrange(0, i + 1).drop_last() =~= pre);
            if c == '.' {
                if points == 1 {
                    proof {
                        assert(count_points(v@.subrange(0, i + 1)) == 2);
                        assert(!is_number_text(v@)) by {
                            lemma_count_points_grows(v@, i + 1, v@.len() as int);
                            assert(v@.subrange(0, v@.len() as int) =~= v@);
                        }
                    }
                    return None;
                }
                points = 1;
            } else if '0' <= c && c <= '9' {
                let d = (c as u32 - '0' as u32) as u64;
                if acc > (u64::MAX - d) / 10 {
                    proof {
                        assert(digits_value(v@.subrange(0, i + 1)) == acc * 10 + d);
                        assert(acc * 10 + d > u64::MAX) by (nonlinear_arith)
                            requires acc > (u64::MAX - d) / 10, d <= 9;
                        lemma_digits_value_grows(v@, i + 1, v@.len() as int);
                        assert(v@.subrange(0, v@.len() as int) =~= v@);
                    }
                    return None;
                }
                acc = acc * 10 + d;
                if points == 1 {
                    frac = frac + 1;
                }
                seen_digit = true;
            } else {
                assert(!is_digit_or_point(v@[i as int]));
                return None;
            }
            i = i + 1;
            proof {
                assert forall|k: int| 0 <= k < i implies is_digit_or_point(#[trigger] v@[k]) by {
                    if k < i - 1 {
                    }
                }
                if seen_digit {
                    if !is_digit(c) {
                        let k0 = choose|k: int| 0 <= k < i - 1 && is_digit(#[trigger] v@[k]);
                        assert(0 <= k0 < i && is_digit(v@[k0]));
                    } else {
                        assert(is_digit(v@[i - 1]));
                    }
                } else {
                    assert forall|k: int| 0 <= k < i implies !is_digit(#[trigger] v@[k]) by {
                        if k < i - 1 {
                        }
                    }
                }
            }
        }
        assert(v@.subrange(0, v@.len() as int) =~= v@);
        if !seen_digit || frac > u32::MAX as usize {
            return None;
        }
        Some(Decimal { mantissa: acc, scale: frac as u32 })
    }

    /// The integer part, saturating at the largest `u32`.
    pub fn whole_saturating(&self) -> (r: u32)
        ensures
            r as nat == if whole_part(*self) > u32::MAX { u32::MAX as nat } else { whole_part(*self) },
    {
        let mut m: u64 = self.mantissa;
        let mut k: u32 = 0;
        assert(pow10(0) == 1);
        assert(self.mantissa as nat / 1 == self.mantissa as nat);
        while k < self.scale
            invariant
                k <= self.scale,
                m as nat == self.mantissa as nat / pow10(k as nat),
            decreases self.scale - k,
        {
            proof {
                lemma_pow10_positive(k as nat);
                lemma_div_denominator(self.mantissa as int, pow10(k as nat) as int, 10);
                assert(pow10((k + 1) as nat) == 10 * pow10(k as nat));
                assert(pow10(k as nat) * 10 == 10 * pow10(k as nat));
            }
            m = m / 10;
            k = k + 1;
        }
        if m > u32::MAX as u64 {
            u32::MAX
        } else {
            m as u32
        }
    }
}

proof fn lemma_count_points_grows(s: Seq<char>, i: int, j: int)
    requires
        0 <= i <= j <= s.len(),
    ensures
        count_points(s.subrange(0, i)) <= count_points(s.subrange(0, j)),
    decreases j - i,
{
    if i < j {
        lemma_count_points_grows(s, i, j - 1);
        assert(s.subrange(0, j).drop_last() =~= s.subrange(0, j - 1));
    }
}

/// Reads an all-digit field as `u32`; zero where it is empty, has another
/// character, or does not fit.
pub fn parse_digits_u32(v: &Vec<char>) -> (r: u32)
    ensures
        r == digits_u32(v@),
{
    if v.len() == 0 {
        return 0;
    }
    let mut acc: u64 = 0;
    let mut i: usize = 0;
    while i < v.len()
        invariant
            i <= v@.len(),
            acc as nat == digits_value(v@.subrange(0, i as int)),
            acc <= u32::MAX,
            forall|k: int| 0 <= k < i ==> is_digit(#[trigger] v@[k]),
        decreases v.len() - i,
    {
        let c = v[i];
        assert(v@.subrange(0, i + 1).drop_last() =~= v@.subrange(0, i as int));
        if !('0' <= c && c <= '9') {
            return 0;
        }
        let d = (c as u32 - '0' as u32) as u64;
        acc = acc * 10 + d;
        if acc > u32::MAX as u64 {
            proof {
                lemma_digits_value_grows(v@, i + 1, v@.len() as int);
                assert(v@.subrange(0, v@.len() as int) =~= v@);
            }
            return 0;
        }
        i = i + 1;
        assert forall|k: int| 0 <= k < i implies is_digit(#[trigger] v@[k]) by {
            if k < i - 1 {
            }
        }
    }
    assert(v@.subrange(0, v@.len() as int) =~= v@);
    acc as u32
}

} // verus!
