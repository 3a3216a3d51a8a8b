//! Signed fixed-point amounts with four fractional digits.

use vstd::prelude::*;

verus! {

/// Largest magnitude of an amount, counted in ten-thousandths: the 96-bit
/// decimal range, kept at four fractional digits.
pub const AMOUNT_LIMIT: i128 = 792281625142643375935439503350000;

/// Number of ten-thousandths in one unit.
pub const UNIT: i128 = 10000;

/// Whether `v` ten-thousandths is a representable amount.
pub open spec fn in_amount_range(v: int) -> bool {
    -(AMOUNT_LIMIT as int) <= v <= AMOUNT_LIMIT as int
}

pub open spec fn pow10(n: nat) -> nat
    decreases n,
{
    if n == 0 {
        1
    } else {
        10 * pow10((n - 1) as nat)
    }
}

/// The value `m * 10^-scale`, rounded to four fractional digits with ties
/// away from zero, counted in ten-thousandths.
pub open spec fn round4(m: int, scale: nat) -> int {
    if scale <= 4 {
        m * pow10((4 - scale) as nat)
    } else {
        let d: int = pow10((scale - 4) as nat) as int;
        if m >= 0 {
            (m + d / 2) / d
        } else {
            -((-m + d / 2) / d)
        }
    }
}

/// The result of adding `a` and `b`, or `None` when it leaves the range.
pub open spec fn checked_add_spec(a: int, b: int) -> Option<int> {
    if in_amount_range(a + b) {
        Some(a + b)
    } else {
        None
    }
}

/// The result of subtracting `b` from `a`, or `None` when it leaves the range.
pub open spec fn checked_sub_spec(a: int, b: int) -> Option<int> {
    if in_amount_range(a - b) {
        Some(a - b)
    } else {
        None
    }
}

/// Largest magnitude of a decimal's mantissa: 2^96 - 1.
pub const MANTISSA_LIMIT: i128 = 79228162514264337593543950335;

/// Largest number of fractional digits a decimal carries.
pub const MAX_SCALE: u32 = 28;

/// What `rust_decimal` reads from a text: the mantissa and the scale of the
/// decimal `mantissa * 10^-scale`, or `None` where the text is no decimal.
pub uninterp spec fn decimal_parts_of(s: Seq<char>) -> Option<(int, nat)>;

/// Relies on `rust_decimal::Decimal::from_str`, read back through
/// `Decimal::mantissa` and `Decimal::scale`: a decimal holds a 96-bit
/// mantissa and a scale of at most 28.
#[verifier::external_body]
fn decimal_parts(s: &str) -> (r: Option<(i128, u32)>)
    ensures
        match r {
            Some((m, sc)) => {
                &&& decimal_parts_of(s@) == Some((m as int, sc as nat))
                &&& sc <= MAX_SCALE
                &&& -MANTISSA_LIMIT <= m <= MANTISSA_LIMIT
            },
            None => decimal_parts_of(s@) is None,
        },
{
    match s.parse::<rust_decimal::Decimal>() {
        Ok(d) => Some((d.mantissa(), d.scale())),
        Err(_) => None,
    }
}

/// The amount that a text denotes, rounded to four fractional digits.
pub open spec fn parsed_amount(s: Seq<char>) -> Option<int> {
    match decimal_parts_of(s) {
        Some((m, sc)) => Some(round4(m, sc)),
        None => None,
    }
}

proof fn lemma_pow10_monotone(a: nat, b: nat)
    requires
        a <= b,
    ensures
        1 <= pow10(a) <= pow10(b),
    decreases b,
{
    if a < b {
        lemma_pow10_monotone(a, (b - 1) as nat);
    } else if a > 0 {
        lemma_pow10_monotone((a - 1) as nat, (a - 1) as nat);
    }
}

proof fn lemma_pow10_27()
    ensures
        pow10(27) == 1000000000000000000000000000,
{
    reveal_with_fuel(pow10, 28);
}

/// `10^n` for the exponents a decimal's scale can take.
fn pow10_exec(n: u32) -> (r: u128)
    requires
        n <= MAX_SCALE,
    ensures
        r as int == pow10(n as nat),
{
    let mut r: u128 = 1;
    let mut i: u32 = 0;
    while i < n
        invariant
            i <= n <= MAX_SCALE,
            r as int == pow10(i as nat),
        decreases n - i,
    {
        proof {
            lemma_pow10_monotone(i as nat, 27);
            lemma_pow10_27();
        }
        r = r * 10;
        i = i + 1;
    }
    r
}

/// A signed decimal quantity with exactly four fractional digits, held as a
/// count of ten-thousandths that always lies within `AMOUNT_LIMIT`.
#[derive(Clone, Copy, Debug, PartialEq, Eq, Hash)]
pub struct Amount {
    units: i128,
}

impl View for Amount {
    type V = int;

    closed spec fn view(&self) -> int {
        self.units as int
    }
}

impl Amount {
    #[verifier::type_invariant]
    spec fn inv(self) -> bool {
        in_amount_range(self.units as int)
    }

    /// The amount zero.
    pub fn zero() -> (r: Amount)
        ensures
            r@ == 0,
    {
        Amount { units: 0 }
    }

    /// The amount of `units` ten-thousandths, or `None` outside the range.
    pub fn from_units(units: i128) -> (r: Option<Amount>)
        ensures
            r is Some <==> in_amount_range(units as int),
            r matches Some(a) ==> a@ == units as int,
    {
        if -AMOUNT_LIMIT <= units && units <= AMOUNT_LIMIT {
            Some(Amount { units })
        } else {
            None
        }
    }

    /// The amount as a count of ten-thousandths.
    pub fn units(&self) -> (r: i128)
        ensures
            r as int == self@,
            in_amount_range(r as int),
    {
        proof {
            use_type_invariant(self);
        }
        self.units
    }

    /// Whether the amount is strictly greater than zero.
    pub fn is_positive(&self) -> (r: bool)
        ensures
            r == (self@ > 0),
    {
        self.units > 0
    }

    /// Whether this amount is at least `other`.
    pub fn ge(&self, other: &Amount) -> (r: bool)
        ensures
            r == (self@ >= other@),
    {
        self.units >= other.units
    }

    /// The amount with its sign flipped; the range is symmetric, so this
    /// never fails.
    pub fn negate(&self) -> (r: Amount)
        ensures
            r@ == -self@,
    {
        proof {
            use_type_invariant(self);
        }
        Amount { units: -self.units }
    }

    /// The decimal `mantissa * 10^-scale` rounded to four fractional digits,
    /// ties away from zero.
    pub fn round4_half_away_from_zero(mantissa: i128, scale: u32) -> (r: Amount)
        requires
            scale <= MAX_SCALE,
            -MANTISSA_LIMIT <= mantissa <= MANTISSA_LIMIT,
        ensures
            r@ == round4(mantissa as int, scale as nat),
    {
        let neg = mantissa < 0;
        let a: u128 = if neg {
            (-mantissa) as u128
        } else {
            mantissa as u128
        };
        if scale <= 4 {
            let p = pow10_exec(4 - scale);
            proof {
                lemma_pow10_monotone((4 - scale) as nat, 4);
                assert(pow10(4) == 10000) by {
                    reveal_with_fuel(pow10, 5);
                }
                assert(a * p <= 79228162514264337593543950335 * 10000) by (nonlinear_arith)
                    requires
                        a <= 79228162514264337593543950335,
                        p <= 10000,
                ;
            }
            let q: u128 = a * p;
            proof {
                if neg {
                    assert(-(q as int) == (mantissa as int) * pow10((4 - scale) as nat))
                        by (nonlinear_arith)
                        requires
                            q == a * p,
                            a == -mantissa,
                            p == pow10((4 - scale) as nat),
                    ;
                }
            }
            let units: i128 = if neg {
                -(q as i128)
            } else {
                q as i128
            };
            Amount { units }
        } else {
            let d = pow10_exec(scale - 4);
            proof {
                lemma_pow10_monotone(1, (scale - 4) as nat);
                assert(pow10(1) == 10) by {
                    reveal_with_fuel(pow10, 2);
                }
                lemma_pow10_monotone((scale - 4) as nat, 27);
                lemma_pow10_27();
            }
            let q: u128 = (a + d / 2) / d;
            proof {
                assert(q <= a) by (nonlinear_arith)
                    requires
                        q as int == (a as int + d as int / 2) / (d as int),
                        d >= 10,
                ;
            }
            let units: i128 = if neg {
                -(q as i128)
            } else {
                q as i128
            };
            Amount { units }
        }
    }

    /// The amount a text denotes, rounded to four fractional digits, ties
    /// away from zero; `None` where the text is no decimal.
    pub fn parse(s: &str) -> (r: Option<Amount>)
        ensures
            match r {
                Some(a) => parsed_amount(s@) == Some(a@),
                None => parsed_amount(s@) is None,
            },
    {
        match decimal_parts(s) {
            Some((m, sc)) => Some(Amount::round4_half_away_from_zero(m, sc)),
            None => None,
        }
    }

    /// `self + other`, or `None` when the sum leaves the range.
    pub fn checked_add(&self, other: &Amount) -> (r: Option<Amount>)
        ensures
            r matches Some(a) ==> checked_add_spec(self@, other@) == Some(a@),
            r is None ==> checked_add_spec(self@, other@) is None,
    {
        proof {
            use_type_invariant(self);
            use_type_invariant(other);
        }
        let s: i128 = self.units + other.units;
        if -AMOUNT_LIMIT <= s && s <= AMOUNT_LIMIT {
            Some(Amount { units: s })
        } else {
            None
        }
    }

    /// `self - other`, or `None` when the difference leaves the range.
    pub fn checked_sub(&self, other: &Amount) -> (r: Option<Amount>)
        ensures
            r matches Some(a) ==> checked_sub_spec(self@, other@) == Some(a@),
            r is None ==> checked_sub_spec(self@, other@) is None,
    {
        proof {
            use_type_invariant(self);
            use_type_invariant(other);
        }
        let s: i128 = self.units - other.units;
        if -AMOUNT_LIMIT <= s && s <= AMOUNT_LIMIT {
            Some(Amount { units: s })
        } else {
            None
        }
    }
}

} // verus!
