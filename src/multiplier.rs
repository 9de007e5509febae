use vstd::arithmetic::div_mod::{lemma_basic_div, lemma_div_denominator, lemma_fundamental_div_mod};
use vstd::arithmetic::power2::{lemma2_to64, lemma_pow2_adds, lemma_pow2_pos, lemma_pow2_unfold, pow2};
use vstd::prelude::*;

verus! {

/// A price multiplier held exactly as the binary64 number it was read as:
/// `(-1)^negative * mantissa * 2^exponent`.
#[derive(Clone, Copy, Debug, PartialEq, Eq, Structural)]
pub struct Multiplier {
    pub negative: bool,
    pub mantissa: u64,
    pub exponent: i32,
}

/// 2^52: the weight of the implicit leading bit of a normal binary64 number.
pub const HIDDEN_BIT: u64 = 4503599627370496;

/// 2^63: the weight of the sign bit.
pub const SIGN_BIT: u64 = 9223372036854775808;

impl Multiplier {
    /// The ranges that a finite binary64 number spans.
    pub open spec fn wf(self) -> bool {
        &&& self.mantissa < 2 * HIDDEN_BIT
        &&& -1074 <= self.exponent <= 971
    }

    pub open spec fn signed_mantissa(self) -> int {
        if self.negative {
            -(self.mantissa as int)
        } else {
            self.mantissa as int
        }
    }
}

/// The finite binary64 number with the given bit pattern, or `None` for an
/// infinity or a NaN (sign bit, 11 exponent bits, 52 fraction bits).
pub open spec fn multiplier_of_bits(bits: u64) -> Option<Multiplier> {
    let negative = bits / SIGN_BIT == 1;
    let biased = (bits / HIDDEN_BIT) % 2048;
    let fraction = bits % HIDDEN_BIT;
    if biased == 2047 {
        None
    } else if biased == 0 {
        Some(Multiplier { negative, mantissa: fraction, exponent: -1074i32 })
    } else {
        Some(
            Multiplier {
                negative,
                mantissa: (fraction + HIDDEN_BIT) as u64,
                exponent: (biased - 1075) as i32,
            },
        )
    }
}

/// How far a positive integer must be shifted right to fit in the 53 bits of
/// a binary64 significand.
pub open spec fn significand_shift(v: nat) -> nat
    decreases v,
{
    if v < 2 * HIDDEN_BIT {
        0
    } else {
        1 + significand_shift(v / 2)
    }
}

/// `v` rounded to 53 significant bits, to nearest with ties to even: the
/// rounding of a binary64 multiplication.
pub open spec fn round_significand(v: nat) -> nat {
    let s = significand_shift(v);
    let unit = pow2(s) as int;
    let q = v as int / unit;
    let r = v as int % unit;
    let up = s > 0 && (2 * r > unit || (2 * r == unit && q % 2 == 1));
    ((q + if up { 1int } else { 0int }) * unit) as nat
}

/// The numerator of a product, rounded as binary64 rounds it (symmetrically
/// about zero).
pub open spec fn rounded_numerator(x: int) -> int {
    if x >= 0 {
        round_significand(x as nat) as int
    } else {
        -(round_significand((-x) as nat) as int)
    }
}

/// `floor(x * 2^e)`.
pub open spec fn floor_pow2(x: int, e: int) -> int {
    if e >= 0 {
        x * pow2(e as nat)
    } else {
        x / (pow2((-e) as nat) as int)
    }
}

/// `floor(p * m)`, where the product `p * m` is computed in binary64: the
/// exact product rounded to 53 significant bits, to nearest with ties to even.
pub open spec fn floor_scaled(p: int, m: Multiplier) -> int {
    floor_pow2(rounded_numerator(p * m.signed_mantissa()), m.exponent as int)
}

/// A price never drops below 1 (0 means "unavailable") and saturates at the
/// largest `i32`.
pub open spec fn clamp_price(x: int) -> i32 {
    if x < 1 {
        1
    } else if x > i32::MAX {
        i32::MAX
    } else {
        x as i32
    }
}

/// `max(floor(p * m), 1)`, saturated to the `i32` range.
pub open spec fn scaled_price_spec(p: i32, m: Multiplier) -> i32 {
    clamp_price(floor_scaled(p as int, m))
}

impl Multiplier {
    /// Reads a multiplier from the bit pattern of a binary64 number; infinities
    /// and NaNs have no multiplier.
    pub fn from_bits(bits: u64) -> (r: Option<Multiplier>)
        ensures
            r == multiplier_of_bits(bits),
            r matches Some(m) ==> m.wf(),
    {
        let negative = bits / SIGN_BIT == 1;
        let biased = (bits / HIDDEN_BIT) % 2048;
        let fraction = bits % HIDDEN_BIT;
        if biased == 2047 {
            None
        } else if biased == 0 {
            Some(Multiplier { negative, mantissa: fraction, exponent: -1074 })
        } else {
            Some(
                Multiplier {
                    negative,
                    mantissa: fraction + HIDDEN_BIT,
                    exponent: (biased as i32) - 1075,
                },
            )
        }
    }
}

proof fn lemma_pow2_zero()
    ensures
        pow2(0) == 1,
{
    lemma2_to64();
}

proof fn lemma_non_positive_floor(p: int, m: Multiplier)
    requires
        p * m.signed_mantissa() <= 0,
    ensures
        floor_scaled(p, m) <= 0,
{
    let num = rounded_numerator(p * m.signed_mantissa());
    lemma_pow2_zero();
    assert(significand_shift(0) == 0);
    assert(round_significand(0) == 0) by {
        assert(0int / (pow2(0) as int) == 0);
        assert(0int % (pow2(0) as int) == 0);
    }
    assert(num <= 0);
    if m.exponent >= 0 {
        let f = pow2(m.exponent as nat) as int;
        lemma_pow2_pos(m.exponent as nat);
        assert(num * f <= 0) by (nonlinear_arith)
            requires
                num <= 0,
                f > 0,
        ;
    } else {
        let d = pow2((-m.exponent) as nat) as int;
        lemma_pow2_pos((-m.exponent) as nat);
        assert(num / d <= 0) by (nonlinear_arith)
            requires
                num <= 0,
                d > 0,
        ;
    }
}

/// Rounds a positive integer to 53 significant bits, as a binary64
/// multiplication rounds its exact product.
fn round_to_significand(v: u128) -> (r: u128)
    requires
        0 < v < 0x1_0000_0000_0000_0000_0000_0000,
    ensures
        r == round_significand(v as nat),
        0 < r <= 2 * v,
{
    let mut t: u128 = v;
    let mut unit: u128 = 1;
    let ghost mut s: nat = 0;
    proof {
        lemma_pow2_zero();
    }
    while t >= 0x20_0000_0000_0000
        invariant
            unit == pow2(s as nat),
            t as int == v as int / (unit as int),
            significand_shift(v as nat) == s + significand_shift(t as nat),
            unit * t <= v,
            s > 0 ==> t >= HIDDEN_BIT && unit >= 2,
            s == 0 ==> unit == 1,
            0 < v < 0x1_0000_0000_0000_0000_0000_0000,
            t > 0,
            unit > 0,
        decreases t,
    {
        proof {
            lemma_pow2_unfold(s + 1);
            lemma_div_denominator(v as int, unit as int, 2);
            assert(unit * 2 <= v) by (nonlinear_arith)
                requires
                    unit * t <= v,
                    t >= 2,
                    unit > 0,
            ;
            assert(unit * 2 * (t / 2) <= v) by (nonlinear_arith)
                requires
                    unit * t <= v,
                    t >= 0,
                    unit > 0,
            ;
        }
        t = t / 2;
        unit = unit * 2;
        proof {
            s = s + 1;
        }
    }
    let q: u128 = t;
    let r: u128 = v - q * unit;
    proof {
        lemma_fundamental_div_mod(v as int, unit as int);
        assert(r as int == v as int % (unit as int));
    }
    let up: bool = unit > 1 && (2 * r > unit || (2 * r == unit && q % 2 == 1));
    let bumped: u128 = if up {
        q + 1
    } else {
        q
    };
    proof {
        assert(bumped * unit <= 2 * v) by (nonlinear_arith)
            requires
                bumped <= q + 1,
                q * unit <= v,
                s > 0 ==> q >= HIDDEN_BIT,
                s == 0 ==> unit == 1 && bumped == q,
                unit > 0,
        ;
        assert(bumped * unit > 0) by (nonlinear_arith)
            requires
                bumped >= q,
                q > 0,
                unit > 0,
        ;
    }
    bumped * unit
}

/// Scales a price by a multiplier as a binary64 multiplication followed by a
/// truncating conversion would: `max(floor(p * m), 1)`, saturated at the
/// largest `i32`.
pub fn scaled_price(p: i32, m: Multiplier) -> (r: i32)
    requires
        m.wf(),
    ensures
        r == scaled_price_spec(p, m),
        r >= 1,
{
    let opposite_signs = (p < 0) != m.negative;
    if p == 0 || m.mantissa == 0 || opposite_signs {
        proof {
            let sm = m.signed_mantissa();
            assert(p * sm <= 0) by (nonlinear_arith)
                requires
                    p == 0 || sm == 0 || (p < 0 && sm >= 0) || (p > 0 && sm <= 0),
            ;
            lemma_non_positive_floor(p as int, m);
        }
        return 1;
    }
    let magnitude: u128 = if p < 0 {
        (0 - (p as i64)) as u128
    } else {
        p as u128
    };
    proof {
        assert(magnitude <= 0x8000_0000);
        assert(magnitude * m.mantissa < 0x1_0000_0000_0000_0000_0000_0000) by (nonlinear_arith)
            requires
                magnitude <= 0x8000_0000,
                m.mantissa < 0x20_0000_0000_0000,
        ;
    }
    let exact: u128 = magnitude * (m.mantissa as u128);
    proof {
        let sm = m.signed_mantissa();
        assert(p * sm == exact as int) by (nonlinear_arith)
            requires
                exact == magnitude * m.mantissa,
                (p < 0 && magnitude == -p && sm == -m.mantissa) || (p > 0 && magnitude == p
                    && sm == m.mantissa),
        ;
        assert(exact > 0) by (nonlinear_arith)
            requires
                exact == magnitude * m.mantissa,
                magnitude > 0,
                m.mantissa > 0,
        ;
    }
    let v: u128 = round_to_significand(exact);
    proof {
        lemma_pow2_zero();
        assert(rounded_numerator(p * m.signed_mantissa()) == v as int);
    }
    let mut acc: u128 = v;
    let mut k: u32 = 0;
    if m.exponent >= 0 {
        let e: u32 = m.exponent as u32;
        while k < e && acc <= 0x7fff_ffff
            invariant
                k <= e,
                e == m.exponent,
                acc as int == v as int * pow2(k as nat),
                acc < 0x4_0000_0000_0000_0000_0000_0000,
                v > 0,
            decreases e - k,
        {
            proof {
                lemma_pow2_unfold((k + 1) as nat);
                let fk = pow2(k as nat) as int;
                assert(acc * 2 == v * (2 * fk)) by (nonlinear_arith)
                    requires
                        acc == v * fk,
                ;
            }
            acc = acc * 2;
            k = k + 1;
        }
        proof {
            let f = pow2(e as nat) as int;
            lemma_pow2_adds(k as nat, (e - k) as nat);
            lemma_pow2_pos(k as nat);
            lemma_pow2_pos((e - k) as nat);
            let fk = pow2(k as nat) as int;
            let fr = pow2((e - k) as nat) as int;
            assert(v * f >= acc) by (nonlinear_arith)
                requires
                    acc == v * fk,
                    f == fk * fr,
                    fr >= 1,
                    v > 0,
                    fk > 0,
            ;
            assert(v * fk >= v) by (nonlinear_arith)
                requires
                    fk >= 1,
                    v > 0,
            ;
            assert(floor_scaled(p as int, m) == v * f);
        }
        if acc > 0x7fff_ffff {
            i32::MAX
        } else {
            acc as i32
        }
    } else {
        let s: u32 = (0 - (m.exponent as i64)) as u32;
        while k < s && acc > 0
            invariant
                k <= s,
                s == -m.exponent,
                acc as int == v as int / (pow2(k as nat) as int),
                acc <= v,
                v > 0,
            decreases s - k,
        {
            proof {
                lemma_pow2_unfold((k + 1) as nat);
                lemma_pow2_pos(k as nat);
                lemma_div_denominator(v as int, pow2(k as nat) as int, 2);
            }
            acc = acc / 2;
            k = k + 1;
        }
        proof {
            let d = pow2(s as nat) as int;
            let dk = pow2(k as nat) as int;
            lemma_pow2_pos(k as nat);
            lemma_pow2_pos(s as nat);
            if acc == 0 {
                lemma_pow2_adds(k as nat, (s - k) as nat);
                lemma_pow2_pos((s - k) as nat);
                let dr = pow2((s - k) as nat) as int;
                assert(v < dk) by (nonlinear_arith)
                    requires
                        v as int / dk == 0,
                        v >= 0,
                        dk > 0,
                ;
                assert(v < d) by (nonlinear_arith)
                    requires
                        v < dk,
                        d == dk * dr,
                        dr >= 1,
                ;
                lemma_basic_div(v as int, d);
            }
            assert(floor_scaled(p as int, m) == acc as int);
        }
        if acc == 0 {
            1
        } else if acc > 0x7fff_ffff {
            i32::MAX
        } else {
            acc as i32
        }
    }
}

} // verus!
