//! Fixed-point amounts with four fractional digits.
use std::str::FromStr;
use vstd::arithmetic::div_mod::{
    lemma_fundamental_div_mod, lemma_fundamental_div_mod_converse, lemma_mod_pos_bound,
};
use vstd::prelude::*;

verus! {

/// `10^e`.
pub open spec fn pow10(e: nat) -> int
    decreases e,
{
    if e == 0 {
        1
    } else {
        10 * pow10((e - 1) as nat)
    }
}

/// `|x|`.
pub open spec fn abs(x: int) -> int {
    if x < 0 {
        -x
    } else {
        x
    }
}

/// Whether `x` can be held as an `i128`.
pub open spec fn fits_i128(x: int) -> bool {
    i128::MIN <= x <= i128::MAX
}

/// The number of ten-thousandths in `mantissa / 10^scale`, where that is a whole
/// number (the value has no non-zero digit past the fourth fractional one) that
/// fits in an `i128`.
pub open spec fn units_of_parts(mantissa: int, scale: nat) -> Option<int> {
    let num = abs(mantissa) * 10000;
    let den = pow10(scale);
    let u = if mantissa < 0 {
        -(num / den)
    } else {
        num / den
    };
    if num % den != 0 || !fits_i128(u) {
        None
    } else {
        Some(u)
    }
}

proof fn lemma_pow10_positive(a: nat)
    ensures
        pow10(a) > 0,
    decreases a,
{
    if a > 0 {
        lemma_pow10_positive((a - 1) as nat);
    }
}

proof fn lemma_pow10_add(a: nat, b: nat)
    ensures
        pow10(a + b) == pow10(a) * pow10(b),
    decreases a,
{
    if a > 0 {
        lemma_pow10_add((a - 1) as nat, b);
        assert(pow10(a + b) == 10 * pow10((a - 1 + b) as nat));
        assert(10 * (pow10((a - 1) as nat) * pow10(b)) == (10 * pow10((a - 1) as nat)) * pow10(b))
            by (nonlinear_arith);
    }
}

/// Dividing `b * x` by `b * c` is dividing `x` by `c`.
proof fn lemma_div_mod_common_factor(x: int, b: int, c: int)
    requires
        0 <= x,
        0 < b,
        0 < c,
    ensures
        (b * x) % (b * c) == b * (x % c),
        (b * x) / (b * c) == x / c,
{
    lemma_fundamental_div_mod(x, c);
    lemma_mod_pos_bound(x, c);
    let q = x / c;
    let r = x % c;
    assert(b * x == q * (b * c) + b * r) by (nonlinear_arith)
        requires
            x == c * q + r,
    ;
    assert(0 <= b * r < b * c) by (nonlinear_arith)
        requires
            0 <= r < c,
            0 < b,
    ;
    lemma_fundamental_div_mod_converse(b * x, b * c, q, b * r);
}

/// `10^k` for `k <= 4`.
fn small_pow10(k: u32) -> (r: u128)
    requires
        k <= 4,
    ensures
        r == pow10(k as nat),
{
    proof {
        reveal_with_fuel(pow10, 5);
    }
    if k == 0 {
        1
    } else if k == 1 {
        10
    } else if k == 2 {
        100
    } else if k == 3 {
        1000
    } else {
        10000
    }
}

/// `mag * 10^4 / 10^scale`, where the division leaves no remainder and the
/// quotient fits in a `u128`.
fn magnitude_units(mag: u128, scale: u32) -> (r: Option<u128>)
    ensures
        ({
            let num = mag * 10000;
            let den = pow10(scale as nat);
            match r {
                Some(q) => num % den == 0 && q == num / den,
                None => num % den != 0 || num / den > u128::MAX,
            }
        }),
{
    proof {
        lemma_pow10_positive(scale as nat);
        reveal_with_fuel(pow10, 5);
        assert(pow10(4) == 10000);
    }
    if scale <= 4 {
        let p = small_pow10(4 - scale);
        proof {
            lemma_pow10_add((4 - scale) as nat, scale as nat);
            lemma_pow10_positive(scale as nat);
            let q = mag * p;
            assert(mag * 10000 == q * pow10(scale as nat) + 0) by (nonlinear_arith)
                requires
                    10000 == p * pow10(scale as nat),
                    q == mag * p,
            ;
            lemma_fundamental_div_mod_converse(mag * 10000, pow10(scale as nat), q, 0);
        }
        mag.checked_mul(p)
    } else {
        let mut m: u128 = mag;
        let mut e: u32 = scale;
        assert(mag == m * pow10((scale - e) as nat)) by {
            assert((scale - e) as nat == 0);
            assert(pow10(0) == 1);
            assert(m * 1 == m);
        }
        while e > 4
            invariant
                4 <= e <= scale,
                mag == m * pow10((scale - e) as nat),
            decreases e,
        {
            if m % 10 != 0 {
                proof {
                    let j = (scale - e) as nat;
                    let k = (e - 4) as nat;
                    let t = (scale - 4) as nat;
                    lemma_pow10_positive(j);
                    lemma_pow10_positive(k);
                    lemma_pow10_positive(t);
                    lemma_pow10_add(j, k);
                    lemma_pow10_add(4, t);
                    assert(j + k == t);
                    assert(4 + t == scale);
                    reveal_with_fuel(pow10, 5);
                    assert(pow10(scale as nat) == 10000 * pow10(t));
                    assert(pow10(t) == pow10(j) * pow10(k));
                    lemma_div_mod_common_factor(m as int, pow10(j), pow10(k));
                    lemma_div_mod_common_factor(mag as int, 10000, pow10(t));
                    if (m as int) % pow10(k) == 0 {
                        lemma_fundamental_div_mod(m as int, pow10(k));
                        let q = (m as int) / pow10(k);
                        assert(m == (pow10((k - 1) as nat) * q) * 10 + 0) by (nonlinear_arith)
                            requires
                                m == pow10(k) * q + 0,
                                pow10(k) == 10 * pow10((k - 1) as nat),
                        ;
                        lemma_fundamental_div_mod_converse(m as int, 10, pow10((k - 1) as nat) * q, 0);
                    }
                    assert(pow10(j) * ((m as int) % pow10(k)) != 0) by (nonlinear_arith)
                        requires
                            pow10(j) > 0,
                            (m as int) % pow10(k) != 0,
                    ;
                    assert(mag == pow10(j) * m) by (nonlinear_arith)
                        requires
                            mag == m * pow10(j),
                    ;
                    assert((mag as int) % pow10(t) != 0);
                    assert(10000 * ((mag as int) % pow10(t)) != 0);
                    assert(mag * 10000 == 10000 * mag);
                }
                return None;
            }
            proof {
                let j = (scale - e) as nat;
                lemma_fundamental_div_mod(m as int, 10);
                lemma_pow10_add(1, j);
                reveal_with_fuel(pow10, 2);
                assert(pow10(1) == 10);
                assert(mag == (m / 10) * pow10(j + 1)) by (nonlinear_arith)
                    requires
                        mag == m * pow10(j),
                        m == 10 * (m / 10) + 0,
                        pow10(j + 1) == 10 * pow10(j),
                ;
                assert((j + 1) as nat == (scale - (e - 1)) as nat);
            }
            m = m / 10;
            e = e - 1;
        }
        proof {
            let k = (scale - 4) as nat;
            lemma_pow10_positive(k);
            lemma_pow10_add(4, k);
            lemma_fundamental_div_mod_converse(mag as int, pow10(k), m as int, 0);
            lemma_div_mod_common_factor(mag as int, 10000, pow10(k));
            assert(mag * 10000 == 10000 * mag);
        }
        Some(m)
    }
}

/// What `rust_decimal` reads from a text, as its mantissa and scale: the value
/// `mantissa / 10^scale`, or `None` where the text is not a decimal number.
pub uninterp spec fn decimal_parts_of(s: Seq<char>) -> Option<(i128, u32)>;

/// A money amount with exactly four fractional digits, held as a whole number
/// of ten-thousandths, so that no rounding happens when amounts are added or
/// subtracted.
#[derive(Clone, Copy, Debug, PartialEq, Eq, Structural)]
pub struct Currency {
    pub units: i128,
}

impl View for Currency {
    type V = int;

    open spec fn view(&self) -> int {
        self.units as int
    }
}

/// The amount a text denotes: the decimal that `rust_decimal` reads from it,
/// where that has at most four significant fractional digits and fits.
pub open spec fn currency_of_text(s: Seq<char>) -> Option<Currency> {
    match decimal_parts_of(s) {
        None => None,
        Some((m, e)) => match units_of_parts(m as int, e as nat) {
            None => None,
            Some(u) => Some(Currency { units: u as i128 }),
        },
    }
}

/// Relies on `rust_decimal::Decimal::from_str` to read a decimal number, and on
/// `Decimal::mantissa` and `Decimal::scale` to hand it back as plain integers.
#[verifier::external_body]
fn read_decimal_parts(s: &str) -> (r: Option<(i128, u32)>)
    ensures
        r == decimal_parts_of(s@),
{
    match rust_decimal::Decimal::from_str(s) {
        Ok(d) => Some((d.mantissa(), d.scale())),
        Err(_) => None,
    }
}

impl Currency {
    /// The amount zero.
    pub fn zero() -> (r: Currency)
        ensures
            r@ == 0,
    {
        Currency { units: 0 }
    }

    /// The amount with the given number of ten-thousandths.
    pub fn from_units(units: i128) -> (r: Currency)
        ensures
            r@ == units,
    {
        Currency { units }
    }

    /// The amount that a decimal text denotes, read by `rust_decimal`; `None`
    /// where the text is no decimal number, has a non-zero digit past the fourth
    /// fractional one, or does not fit.
    pub fn parse(s: &str) -> (r: Option<Currency>)
        ensures
            r == currency_of_text(s@),
    {
        match read_decimal_parts(s) {
            None => None,
            Some((m, e)) => Currency::from_decimal_parts(m, e),
        }
    }

    /// `self + other`, or `None` where the sum does not fit.
    pub fn checked_add(self, other: Currency) -> (r: Option<Currency>)
        ensures
            r == (if fits_i128(self@ + other@) {
                Some(Currency { units: (self@ + other@) as i128 })
            } else {
                None
            }),
    {
        match self.units.checked_add(other.units) {
            Some(u) => Some(Currency { units: u }),
            None => None,
        }
    }

    /// `self - other`, or `None` where the difference does not fit.
    pub fn checked_sub(self, other: Currency) -> (r: Option<Currency>)
        ensures
            r == (if fits_i128(self@ - other@) {
                Some(Currency { units: (self@ - other@) as i128 })
            } else {
                None
            }),
    {
        match self.units.checked_sub(other.units) {
            Some(u) => Some(Currency { units: u }),
            None => None,
        }
    }

    /// The amount `mantissa / 10^scale`; `None` where it has a non-zero digit
    /// beyond the fourth fractional one, or does not fit.
    pub fn from_decimal_parts(mantissa: i128, scale: u32) -> (r: Option<Currency>)
        ensures
            r == (match units_of_parts(mantissa as int, scale as nat) {
                None => None,
                Some(u) => Some(Currency { units: u as i128 }),
            }),
    {
        let neg = mantissa < 0;
        let mag: u128 = if neg {
            (-(mantissa + 1)) as u128 + 1
        } else {
            mantissa as u128
        };
        assert(mag == abs(mantissa as int));
        match magnitude_units(mag, scale) {
            None => None,
            Some(q) => {
                if neg {
                    if q < 0x8000_0000_0000_0000_0000_0000_0000_0000u128 {
                        Some(Currency { units: -(q as i128) })
                    } else if q == 0x8000_0000_0000_0000_0000_0000_0000_0000u128 {
                        Some(Currency { units: i128::MIN })
                    } else {
                        None
                    }
                } else if q <= i128::MAX as u128 {
                    Some(Currency { units: q as i128 })
                } else {
                    None
                }
            },
        }
    }
}

} // verus!
