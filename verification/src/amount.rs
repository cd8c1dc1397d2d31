//! Exact fixed-point amounts and the whole number of times one goes into another.

use vstd::arithmetic::div_mod::{
    lemma_basic_div, lemma_div_is_ordered, lemma_div_multiples_vanish, lemma_div_multiples_vanish_quotient,
    lemma_fundamental_div_mod, lemma_mod_bound,
};
use vstd::arithmetic::power::{
    lemma_pow0, lemma_pow_adds, lemma_pow_increases, lemma_pow_positive, pow,
};
use vstd::prelude::*;

verus! {

/// A decimal number held as an integer count of its smallest unit:
/// the value is `units / 10^decimals`.
#[derive(Clone, Copy, Debug, PartialEq, Eq, Structural)]
pub struct Amount {
    pub units: i64,
    pub decimals: u32,
}

/// Above this bound a scaled operand is only known to be "too large".
/// It exceeds every product of a 63-bit divisor with a ticket count plus one.
pub const SATURATION: u128 = 0x1_0000_0000_0000_0000_0000;

/// `floor(payment / price)`: how many whole times `price` goes into `payment`.
///
/// With `payment = pu / 10^pd` and `price = qu / 10^qd` the quotient is
/// `(pu * 10^qd) / (qu * 10^pd)`; for a positive `price` the divisor is
/// positive and integer division rounds down.
pub open spec fn whole_units(payment: Amount, price: Amount) -> int
    recommends
        price.units > 0,
{
    (payment.units * pow(10, price.decimals as nat)) / (price.units * pow(
        10,
        payment.decimals as nat,
    ))
}

/// `whole_units` limited to the range `0 ..= cap`.
pub open spec fn capped_units(payment: Amount, price: Amount, cap: u16) -> int {
    let q = whole_units(payment, price);
    if q > cap {
        cap as int
    } else if q < 0 {
        0
    } else {
        q
    }
}

/// `whole_units(payment, price)` is the one integer `q` with
/// `q * price <= payment < (q + 1) * price`, both sides taken over the
/// common denominator `10^pd * 10^qd`.
pub proof fn lemma_whole_units_is_floor(payment: Amount, price: Amount)
    requires
        price.units > 0,
    ensures
        ({
            let q = whole_units(payment, price);
            let den = price.units * pow(10, payment.decimals as nat);
            let num = payment.units * pow(10, price.decimals as nat);
            &&& den > 0
            &&& q * den <= num
            &&& num < (q + 1) * den
        }),
{
    let den = price.units * pow(10, payment.decimals as nat);
    let num = payment.units * pow(10, price.decimals as nat);
    lemma_pow_positive(10, payment.decimals as nat);
    assert(den > 0) by (nonlinear_arith)
        requires
            den == price.units * pow(10, payment.decimals as nat),
            price.units > 0,
            pow(10, payment.decimals as nat) > 0,
    ;
    lemma_fundamental_div_mod(num, den);
    lemma_mod_bound(num, den);
    let q = num / den;
    assert(q * den == den * q) by (nonlinear_arith);
    assert((q + 1) * den == den * q + den) by (nonlinear_arith);
}

/// A payment that is not positive buys no whole unit.
proof fn lemma_nothing_for_nothing(payment: Amount, price: Amount)
    requires
        price.units > 0,
        payment.units <= 0,
    ensures
        whole_units(payment, price) <= 0,
{
    lemma_whole_units_is_floor(payment, price);
    let q = whole_units(payment, price);
    let den = price.units * pow(10, payment.decimals as nat);
    let num = payment.units * pow(10, price.decimals as nat);
    lemma_pow_positive(10, price.decimals as nat);
    assert(num <= 0) by (nonlinear_arith)
        requires
            num == payment.units * pow(10, price.decimals as nat),
            payment.units <= 0,
            pow(10, price.decimals as nat) > 0,
    ;
    assert(q <= 0) by (nonlinear_arith)
        requires
            q * den <= num,
            num <= 0,
            den > 0,
    ;
}

/// Powers of ten common to both sides cancel: only the difference of the
/// two scales matters.
proof fn lemma_cancel_scales(pu: int, pd: nat, qu: int, qd: nat)
    requires
        pu >= 0,
        qu > 0,
    ensures
        qd >= pd ==> (pu * pow(10, qd)) / (qu * pow(10, pd)) == (pu * pow(10, (qd - pd) as nat))
            / qu,
        pd >= qd ==> (pu * pow(10, qd)) / (qu * pow(10, pd)) == pu / (qu * pow(
            10,
            (pd - qd) as nat,
        )),
{
    if qd >= pd {
        let e = (qd - pd) as nat;
        let c = pow(10, pd);
        let a = pu * pow(10, e);
        lemma_pow_positive(10, pd);
        lemma_pow_positive(10, e);
        lemma_pow_adds(10, e, pd);
        assert(a >= 0) by (nonlinear_arith)
            requires
                a == pu * pow(10, e),
                pu >= 0,
                pow(10, e) > 0,
        ;
        lemma_div_multiples_vanish_quotient(c, a, qu);
        assert(c * a == pu * pow(10, qd)) by (nonlinear_arith)
            requires
                a == pu * pow(10, e),
                pow(10, qd) == pow(10, e) * c,
        ;
        assert(c * qu == qu * pow(10, pd)) by (nonlinear_arith)
            requires
                c == pow(10, pd),
        ;
    }
    if pd >= qd {
        let e = (pd - qd) as nat;
        let c = pow(10, qd);
        let d = qu * pow(10, e);
        lemma_pow_positive(10, qd);
        lemma_pow_positive(10, e);
        lemma_pow_adds(10, e, qd);
        assert(d > 0) by (nonlinear_arith)
            requires
                d == qu * pow(10, e),
                qu > 0,
                pow(10, e) > 0,
        ;
        lemma_div_multiples_vanish_quotient(c, pu, d);
        assert(c * pu == pu * pow(10, qd)) by (nonlinear_arith)
            requires
                c == pow(10, qd),
        ;
        assert(c * d == qu * pow(10, pd)) by (nonlinear_arith)
            requires
                d == qu * pow(10, e),
                c == pow(10, qd),
                pow(10, pd) == pow(10, e) * c,
        ;
    }
}

/// `x * 10^e`, or `None` once the product passes `SATURATION`.
fn scaled(x: u128, e: u32) -> (r: Option<u128>)
    requires
        1 <= x <= SATURATION,
    ensures
        match r {
            Some(v) => v == x * pow(10, e as nat) && 1 <= v <= SATURATION,
            None => x * pow(10, e as nat) > SATURATION,
        },
{
    let mut v: u128 = x;
    let mut i: u32 = 0;
    proof {
        lemma_pow0(10);
    }
    while i < e
        invariant
            i <= e,
            1 <= x,
            1 <= v <= SATURATION,
            v == x * pow(10, i as nat),
        decreases e - i,
    {
        if v > SATURATION / 10 {
            proof {
                let next = (i + 1) as nat;
                lemma_pow_adds(10, 1, i as nat);
                assert(pow(10, 1) == 10) by {
                    reveal_with_fuel(pow, 2);
                }
                lemma_pow_increases(10, next, e as nat);
                assert(x * pow(10, e as nat) >= 10 * v) by (nonlinear_arith)
                    requires
                        v == x * pow(10, i as nat),
                        pow(10, next) == 10 * pow(10, i as nat),
                        pow(10, next) <= pow(10, e as nat),
                        x >= 1,
                ;
            }
            return None;
        }
        proof {
            lemma_pow_adds(10, 1, i as nat);
            assert(pow(10, 1) == 10) by {
                reveal_with_fuel(pow, 2);
            }
            assert(x * pow(10, (i + 1) as nat) == 10 * v) by (nonlinear_arith)
                requires
                    v == x * pow(10, i as nat),
                    pow(10, (i + 1) as nat) == 10 * pow(10, i as nat),
            ;
        }
        v = v * 10;
        i = i + 1;
    }
    Some(v)
}

impl Amount {
    /// A whole number of units, without decimals.
    pub fn whole(units: i64) -> (r: Amount)
        ensures
            r.units == units,
            r.decimals == 0,
    {
        Amount { units, decimals: 0 }
    }

    /// Whether the amount is greater than zero.
    pub fn is_positive(&self) -> (r: bool)
        ensures
            r == (self.units > 0),
    {
        self.units > 0
    }

    /// How many whole times `price` goes into `self`, limited to `0 ..= cap`,
    /// and whether the limit `cap` cut the quotient short.
    ///
    /// Every scale is handled exactly: the operands are brought to a common
    /// scale, and one that grows past `SATURATION` settles the answer without
    /// being computed.
    pub fn units_of(&self, price: &Amount, cap: u16) -> (r: (u16, bool))
        requires
            price.units > 0,
        ensures
            r.0 == capped_units(*self, *price, cap),
            r.1 == (whole_units(*self, *price) > cap),
    {
        if self.units <= 0 {
            proof {
                lemma_nothing_for_nothing(*self, *price);
            }
            return (0, false);
        }
        let pu: u128 = self.units as u128;
        let qu: u128 = price.units as u128;
        proof {
            lemma_cancel_scales(
                self.units as int,
                self.decimals as nat,
                price.units as int,
                price.decimals as nat,
            );
        }
        if price.decimals >= self.decimals {
            let e: u32 = price.decimals - self.decimals;
            match scaled(pu, e) {
                None => {
                    proof {
                        let n = pu * pow(10, e as nat);
                        let bound = (cap + 1) * qu;
                        assert(bound <= SATURATION) by (nonlinear_arith)
                            requires
                                bound == (cap + 1) * qu,
                                0 <= cap <= 0xffff,
                                0 < qu < 0x8000_0000_0000_0000,
                        ;
                        lemma_div_is_ordered(bound, n, qu as int);
                        lemma_div_multiples_vanish(cap + 1, qu as int);
                        assert(qu * (cap + 1) == bound) by (nonlinear_arith)
                            requires
                                bound == (cap + 1) * qu,
                        ;
                    }
                    (cap, true)
                },
                Some(n) => {
                    let q: u128 = n / qu;
                    if q > cap as u128 {
                        (cap, true)
                    } else {
                        (q as u16, false)
                    }
                },
            }
        } else {
            let e: u32 = self.decimals - price.decimals;
            match scaled(qu, e) {
                None => {
                    proof {
                        let d = qu * pow(10, e as nat);
                        lemma_basic_div(pu as int, d);
                    }
                    (0, false)
                },
                Some(d) => {
                    let q: u128 = pu / d;
                    if q > cap as u128 {
                        (cap, true)
                    } else {
                        (q as u16, false)
                    }
                },
            }
        }
    }
}

} // verus!
