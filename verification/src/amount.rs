//! Exact monetary amounts.
//!
//! An [`Amount`] is a signed count of ten-thousandths of the currency unit,
//! i.e. a fixed-point decimal with four digits after the decimal point, the
//! precision at which account snapshots are rendered. Arithmetic on amounts
//! is exact integer arithmetic; its mathematical value is the view `@`.

use vstd::prelude::*;

use vstd::arithmetic::div_mod::{
    lemma_fundamental_div_mod, lemma_div_multiples_vanish, lemma_mod_multiples_basic,
};
use vstd::arithmetic::mul::lemma_mul_inequality;

verus! {

/// How many units make up one whole: ten-thousandths, four decimal digits.
pub const UNITS_PER_WHOLE: i128 = 10000;

/// Why a decimal number could not be converted to an [`Amount`].
#[derive(Clone, Copy, Debug, PartialEq, Eq, Structural)]
pub enum DecimalConversionError {
    /// The value has more than four meaningful decimal places, so no count
    /// of ten-thousandths is exactly equal to it.
    ExcessPrecision,
    /// The exact count of ten-thousandths does not fit the fixed-point
    /// range.
    OutOfRange,
}

/// Ten to the `n`th power.
pub open spec fn pow10(n: nat) -> int
    decreases n,
{
    if n == 0 {
        1
    } else {
        10 * pow10((n - 1) as nat)
    }
}

/// Powers of ten are positive.
proof fn lemma_pow10_positive(n: nat)
    ensures
        0 < pow10(n),
    decreases n,
{
    if n > 0 {
        lemma_pow10_positive((n - 1) as nat);
    }
}

/// Powers of ten grow with the exponent.
proof fn lemma_pow10_ordered(a: nat, b: nat)
    requires
        a <= b,
    ensures
        pow10(a) <= pow10(b),
    decreases b,
{
    lemma_pow10_positive(a);
    if a < b {
        lemma_pow10_ordered(a, (b - 1) as nat);
        lemma_pow10_positive((b - 1) as nat);
    }
}

/// Powers of ten multiply by adding exponents.
proof fn lemma_pow10_adds(a: nat, b: nat)
    ensures
        pow10(a + b) == pow10(a) * pow10(b),
    decreases b,
{
    if b == 0 {
    } else {
        lemma_pow10_adds(a, (b - 1) as nat);
        assert(10 * (pow10(a) * pow10((b - 1) as nat)) == pow10(a) * (10 * pow10(
            (b - 1) as nat,
        ))) by (nonlinear_arith);
        assert(a + b == (a + (b - 1) as nat) + 1);
    }
}

/// A value is an exact multiple of `pow10(k + 4)` in ten-thousandths
/// exactly when its mantissa is an exact multiple of `pow10(k)`, with the
/// same quotient.
proof fn lemma_scaled_divisibility(m: int, k: nat)
    ensures
        ((m * 10000) % pow10(k + 4) == 0) <==> (m % pow10(k) == 0),
        m % pow10(k) == 0 ==> (m * 10000) / pow10(k + 4) == m / pow10(k),
{
    let d = pow10(k);
    let p = pow10(k + 4);
    lemma_pow10_positive(k);
    lemma_pow10_positive(k + 4);
    lemma_pow10_adds(k, 4);
    reveal_with_fuel(pow10, 5);
    assert(p == d * 10000);
    if m % d == 0 {
        lemma_fundamental_div_mod(m, d);
        let q = m / d;
        assert(m * 10000 == q * p) by (nonlinear_arith)
            requires
                m == d * q,
                p == d * 10000,
        ;
        lemma_mod_multiples_basic(q, p);
        lemma_div_multiples_vanish(q, p);
    }
    if (m * 10000) % p == 0 {
        lemma_fundamental_div_mod(m * 10000, p);
        let u = (m * 10000) / p;
        assert(m == d * u) by (nonlinear_arith)
            requires
                m * 10000 == p * u,
                p == d * 10000,
        ;
        lemma_mod_multiples_basic(u, d);
    }
}

/// With at most four decimal places, scaling the mantissa up to
/// ten-thousandths is exact: multiply by the complementary power of ten.
proof fn lemma_scale_up(m: int, s: nat, f: int)
    requires
        s <= 4,
        f == (if s == 0 {
            10000int
        } else if s == 1 {
            1000int
        } else if s == 2 {
            100int
        } else if s == 3 {
            10int
        } else {
            1int
        }),
    ensures
        (m * 10000) % pow10(s) == 0,
        (m * 10000) / pow10(s) == m * f,
{
    reveal_with_fuel(pow10, 5);
    let p = pow10(s);
    assert(p * f == 10000);
    let q = m * f;
    assert(m * 10000 == q * p) by (nonlinear_arith)
        requires
            p * f == 10000,
            q == m * f,
    ;
    lemma_mod_multiples_basic(q, p);
    lemma_div_multiples_vanish(q, p);
}

/// A non-zero mantissa smaller in magnitude than `pow10(k)` is no exact
/// multiple of it, so the value has more than four meaningful decimal
/// places.
proof fn lemma_small_not_divisible(m: int, um: int, k: nat)
    requires
        m != 0,
        um == (if m < 0 {
            -m
        } else {
            m
        }),
        um < pow10(k),
    ensures
        (m * 10000) % pow10(k + 4) != 0,
{
    let d = pow10(k);
    lemma_pow10_positive(k);
    if m % d == 0 {
        lemma_fundamental_div_mod(m, d);
        let q = m / d;
        let aq = if q < 0 {
            -q
        } else {
            q
        };
        assert(um == d * aq) by (nonlinear_arith)
            requires
                0 < d,
                m == d * q,
                um == (if m < 0 {
                    -m
                } else {
                    m
                }),
                aq == (if q < 0 {
                    -q
                } else {
                    q
                }),
        ;
        assert(q != 0) by (nonlinear_arith)
            requires
                m == d * q,
                m != 0,
        ;
        assert(1 <= aq);
        lemma_mul_inequality(1, aq, d);
        assert(false);
    }
    lemma_scaled_divisibility(m, k);
}

/// A monetary amount, counted in ten-thousandths of the currency unit.
#[derive(Clone, Copy, Debug, PartialEq, Eq, Hash, Structural)]
pub struct Amount(pub i128);

impl View for Amount {
    type V = int;

    open spec fn view(&self) -> int {
        self.0 as int
    }
}

impl Amount {
    /// The zero amount.
    pub fn zero() -> (r: Amount)
        ensures
            r@ == 0,
    {
        Amount(0)
    }

    /// An amount given directly in ten-thousandths.
    pub fn from_units(units: i128) -> (r: Amount)
        ensures
            r@ == units,
    {
        Amount(units)
    }

    /// An amount of `whole` currency units.
    pub fn from_whole(whole: i64) -> (r: Amount)
        ensures
            r@ == whole * UNITS_PER_WHOLE,
    {
        Amount((whole as i128) * UNITS_PER_WHOLE)
    }

    /// The count of ten-thousandths this amount stands for.
    pub fn units(&self) -> (r: i128)
        ensures
            r == self@,
    {
        self.0
    }

    /// Whether this amount is strictly below zero.
    pub fn is_negative(&self) -> (r: bool)
        ensures
            r == (self@ < 0),
    {
        self.0 < 0
    }

    /// Whether this amount is exactly zero.
    pub fn is_zero(&self) -> (r: bool)
        ensures
            r == (self@ == 0),
    {
        self.0 == 0
    }

    /// Renders this amount in ASCII with exactly four digits after the
    /// decimal point, as account snapshots are reported.
    pub fn to_fixed_bytes(&self) -> (r: Vec<u8>)
        ensures
            r@ == spec_fixed_bytes(self@),
    {
        let units = self.0;
        let negative = units < 0;
        let magnitude: u128 = if units >= 0 {
            units as u128
        } else if units == i128::MIN {
            (i128::MAX as u128) + 1
        } else {
            (-units) as u128
        };
        let mut out: Vec<u8> = Vec::new();
        if negative {
            out.push(0x2d);  // '-'
        }
        push_decimal_digits(magnitude / 10000, &mut out);
        out.push(0x2e);  // '.'
        let frac = magnitude % 10000;
        out.push((((frac / 1000) % 10) as u8) + 0x30);
        out.push((((frac / 100) % 10) as u8) + 0x30);
        out.push((((frac / 10) % 10) as u8) + 0x30);
        out.push(((frac % 10) as u8) + 0x30);
        proof {
            assert(out@ =~= spec_fixed_bytes(self@));
        }
        out
    }

    /// Converts a decimal number, given as `mantissa` times ten to the
    /// power of `-scale`, into the exactly equal count of
    /// ten-thousandths. Fails with `ExcessPrecision` when no such count
    /// exists (a fifth meaningful decimal place) and with `OutOfRange`
    /// when the count does not fit the fixed-point range.
    #[verifier::loop_isolation(false)]
    pub fn from_decimal(mantissa: i128, scale: u32) -> (r: Result<Amount, DecimalConversionError>)
        ensures
            r is Ok <==> ((mantissa * 10000) % pow10(scale as nat) == 0 && i128::MIN <= (mantissa
                * 10000) / pow10(scale as nat) <= i128::MAX),
            (match r {
                Ok(a) => a@ == (mantissa * 10000) / pow10(scale as nat),
                Err(_) => true,
            }),
            (r == Err::<Amount, DecimalConversionError>(DecimalConversionError::ExcessPrecision))
                <==> (mantissa * 10000) % pow10(scale as nat) != 0,
    {
        proof {
            lemma_pow10_positive(scale as nat);
        }
        if mantissa == 0 {
            proof {
                let p = pow10(scale as nat);
                lemma_mod_multiples_basic(0, p);
                lemma_div_multiples_vanish(0, p);
            }
            return Ok(Amount(0));
        }
        if scale <= 4 {
            let factor: i128 = if scale == 0 {
                10000
            } else if scale == 1 {
                1000
            } else if scale == 2 {
                100
            } else if scale == 3 {
                10
            } else {
                1
            };
            proof {
                lemma_scale_up(mantissa as int, scale as nat, factor as int);
            }
            match mantissa.checked_mul(factor) {
                Some(units) => Ok(Amount(units)),
                None => Err(DecimalConversionError::OutOfRange),
            }
        } else {
            let k = scale - 4;
            let negative = mantissa < 0;
            let magnitude: u128 = if mantissa >= 0 {
                mantissa as u128
            } else if mantissa == i128::MIN {
                (i128::MAX as u128) + 1
            } else {
                (-mantissa) as u128
            };
            let mut divisor: u128 = 1;
            let mut i: u32 = 0;
            while i < k
                invariant
                    i <= k,
                    divisor as int == pow10(i as nat),
                decreases k - i,
            {
                if divisor > magnitude {
                    proof {
                        lemma_pow10_ordered(i as nat, k as nat);
                        lemma_small_not_divisible(mantissa as int, magnitude as int, k as nat);
                    }
                    return Err(DecimalConversionError::ExcessPrecision);
                }
                if divisor > u128::MAX / 10 {
                    proof {
                        lemma_pow10_ordered(i as nat + 1, k as nat);
                        lemma_small_not_divisible(mantissa as int, magnitude as int, k as nat);
                    }
                    return Err(DecimalConversionError::ExcessPrecision);
                }
                divisor = divisor * 10;
                i = i + 1;
            }
            proof {
                lemma_pow10_positive(k as nat);
            }
            let rem = magnitude % divisor;
            let quot = magnitude / divisor;
            proof {
                lemma_fundamental_div_mod(magnitude as int, divisor as int);
            }
            if rem != 0 {
                proof {
                    let d = pow10(k as nat);
                    let m = mantissa as int;
                    if m % d == 0 {
                        lemma_fundamental_div_mod(m, d);
                        let q = m / d;
                        let aq = if q < 0 {
                            -q
                        } else {
                            q
                        };
                        assert(magnitude as int == d * aq) by (nonlinear_arith)
                            requires
                                0 < d,
                                m == d * q,
                                magnitude as int == (if m < 0 {
                                    -m
                                } else {
                                    m
                                }),
                                aq == (if q < 0 {
                                    -q
                                } else {
                                    q
                                }),
                        ;
                        lemma_mod_multiples_basic(aq, d);
                        assert(false);
                    }
                    lemma_scaled_divisibility(m, k as nat);
                }
                return Err(DecimalConversionError::ExcessPrecision);
            }
            proof {
                let d = pow10(k as nat);
                let m = mantissa as int;
                let qu = quot as int;
                // the quotient's magnitude stays below the sign bit
                lemma_pow10_ordered(1nat, k as nat);
                if qu >= i128::MAX as int + 1 {
                    lemma_mul_inequality(10, d, qu);
                    assert(false);
                }
                // the signed quotient is exact for the signed mantissa
                let sm = if m < 0 {
                    -qu
                } else {
                    qu
                };
                assert(m == d * sm) by (nonlinear_arith)
                    requires
                        0 < d,
                        magnitude as int == d * qu,
                        magnitude as int == (if m < 0 {
                            -m
                        } else {
                            m
                        }),
                        sm == (if m < 0 {
                            -qu
                        } else {
                            qu
                        }),
                ;
                lemma_mod_multiples_basic(sm, d);
                lemma_div_multiples_vanish(sm, d);
                lemma_scaled_divisibility(m, k as nat);
            }
            if negative {
                Ok(Amount(-(quot as i128)))
            } else {
                Ok(Amount(quot as i128))
            }
        }
    }
}

/// The ASCII digit of `d`, which is meant to be a single decimal digit.
pub open spec fn ascii_digit(d: int) -> u8
    recommends
        0 <= d <= 9,
{
    (0x30 + d) as u8
}

/// The decimal digits of `n` in ASCII, most significant first, with no
/// leading zeros.
pub open spec fn spec_decimal_digits(n: nat) -> Seq<u8>
    decreases n,
{
    if n < 10 {
        seq![ascii_digit(n as int)]
    } else {
        spec_decimal_digits(n / 10).push(ascii_digit((n % 10) as int))
    }
}

/// The fixed-precision rendering of a count of ten-thousandths: an
/// optional minus sign, the whole part with no leading zeros, a dot, and
/// the fractional part zero-padded to four digits.
pub open spec fn spec_fixed_bytes(v: int) -> Seq<u8> {
    let m = if v < 0 {
        -v
    } else {
        v
    };
    let f = m % 10000;
    (if v < 0 {
        seq![0x2du8]
    } else {
        Seq::<u8>::empty()
    }) + spec_decimal_digits((m / 10000) as nat) + seq![
        0x2eu8,
        ascii_digit(f / 1000 % 10),
        ascii_digit(f / 100 % 10),
        ascii_digit(f / 10 % 10),
        ascii_digit(f % 10),
    ]
}

/// Appends the decimal digits of `n`, most significant first.
fn push_decimal_digits(n: u128, out: &mut Vec<u8>)
    ensures
        final(out)@ == old(out)@ + spec_decimal_digits(n as nat),
    decreases n,
{
    if n < 10 {
        out.push((n as u8) + 0x30);
    } else {
        push_decimal_digits(n / 10, out);
        out.push(((n % 10) as u8) + 0x30);
        proof {
            assert(out@ =~= old(out)@ + spec_decimal_digits(n as nat));
        }
    }
}

} // verus!
