//! Exact decimal numbers: a signed mantissa and a base-ten scale.
use vstd::prelude::*;

verus! {

/// Largest scale (digits after the point) that a decimal may carry.
pub const MAX_SCALE: u32 = 28;

/// Ten to the power `n`.
pub open spec fn pow10(n: nat) -> int
    decreases n,
{
    if n == 0 {
        1
    } else {
        10 * pow10((n - 1) as nat)
    }
}

pub proof fn lemma_pow10_pos(n: nat)
    ensures
        pow10(n) >= 1,
    decreases n,
{
    if n > 0 {
        lemma_pow10_pos((n - 1) as nat);
    }
}

pub proof fn lemma_pow10_add(a: nat, b: nat)
    ensures
        pow10(a + b) == pow10(a) * pow10(b),
    decreases a,
{
    if a > 0 {
        lemma_pow10_add((a - 1) as nat, b);
        assert(pow10(a + b) == 10 * pow10((a - 1 + b) as nat));
        assert(10 * (pow10((a - 1) as nat) * pow10(b)) == (10 * pow10((a - 1) as nat)) * pow10(b))
            by (nonlinear_arith);
    }
}

pub proof fn lemma_pow10_bound(n: nat)
    requires
        n <= 28,
    ensures
        1 <= pow10(n) <= 10000000000000000000000000000,
    decreases 28 - n,
{
    if n < 28 {
        lemma_pow10_bound(n + 1);
        assert(pow10(n + 1) == 10 * pow10(n));
    } else {
        reveal_with_fuel(pow10, 29);
    }
}

/// A decimal number `mantissa / 10^scale`.
#[derive(Clone, Copy, Debug, PartialEq, Eq, Structural)]
pub struct Decimal {
    pub mantissa: i64,
    pub scale: u32,
}

/// A mantissa that an `i64` can hold.
pub open spec fn fits(m: int) -> bool {
    i64::MIN <= m <= i64::MAX
}

impl Decimal {
    /// The scale is within the supported precision.
    pub open spec fn wf(self) -> bool {
        self.scale <= MAX_SCALE
    }

    /// The number's value, counted in units of `10^-28`.
    pub open spec fn value(self) -> int {
        self.mantissa * pow10((MAX_SCALE - self.scale) as nat)
    }

    /// The mantissa brought to a larger scale `s`.
    pub open spec fn mantissa_at(self, s: nat) -> int {
        self.mantissa * pow10((s - self.scale) as nat)
    }

    /// Builds `mantissa / 10^scale`; `None` where the scale exceeds the precision.
    pub fn new(mantissa: i64, scale: u32) -> (r: Option<Decimal>)
        ensures
            r == (if scale <= MAX_SCALE {
                Some(Decimal { mantissa, scale })
            } else {
                None
            }),
    {
        if scale <= MAX_SCALE {
            Some(Decimal { mantissa, scale })
        } else {
            None
        }
    }

    /// The whole number `n`.
    pub fn from_int(n: i64) -> (r: Decimal)
        ensures
            r == (Decimal { mantissa: n, scale: 0 }),
            r.wf(),
    {
        Decimal { mantissa: n, scale: 0 }
    }

    /// Zero.
    pub fn zero() -> (r: Decimal)
        ensures
            r == (Decimal { mantissa: 0, scale: 0 }),
            r.wf(),
    {
        Decimal { mantissa: 0, scale: 0 }
    }

    /// `self < other` by value.
    pub fn lt(&self, other: &Decimal) -> (r: bool)
        requires
            self.wf(),
            other.wf(),
        ensures
            r == (self.value() < other.value()),
    {
        decimal_lt(self, other)
    }

    /// `self - other`, exact; `None` where the result does not fit.
    pub fn checked_sub(&self, other: &Decimal) -> (r: Option<Decimal>)
        requires
            self.wf(),
            other.wf(),
        ensures
            r == dec_sub(*self, *other),
            r matches Some(d) ==> d.wf(),
    {
        combine(self, other, false)
    }

    /// `self + other`, exact; `None` where the result does not fit.
    pub fn checked_add(&self, other: &Decimal) -> (r: Option<Decimal>)
        requires
            self.wf(),
            other.wf(),
        ensures
            r == dec_add(*self, *other),
            r matches Some(d) ==> d.wf(),
    {
        combine(self, other, true)
    }

    /// `self * other`, exact; `None` where the result does not fit.
    pub fn checked_mul(&self, other: &Decimal) -> (r: Option<Decimal>)
        requires
            self.wf(),
            other.wf(),
        ensures
            r == dec_mul(*self, *other),
            r matches Some(d) ==> d.wf(),
    {
        if self.mantissa == 0 || other.mantissa == 0 {
            return Some(Decimal { mantissa: 0, scale: 0 });
        }
        proof {
            let (x, y) = (self.mantissa as int, other.mantissa as int);
            assert(-0x4000_0000_0000_0000_0000_0000_0000_0000 <= x * y <= 0x4000_0000_0000_0000_0000_0000_0000_0000)
                by (nonlinear_arith)
                requires
                    -0x8000_0000_0000_0000 <= x <= 0x7fff_ffff_ffff_ffff,
                    -0x8000_0000_0000_0000 <= y <= 0x7fff_ffff_ffff_ffff,
            ;
        }
        let m: i128 = self.mantissa as i128 * other.mantissa as i128;
        let s: u32 = self.scale + other.scale;
        if s <= MAX_SCALE && i64::MIN as i128 <= m && m <= i64::MAX as i128 {
            Some(Decimal { mantissa: m as i64, scale: s })
        } else {
            None
        }
    }
}

/// The larger of two scales.
pub open spec fn common_scale(a: Decimal, b: Decimal) -> nat {
    if a.scale >= b.scale {
        a.scale as nat
    } else {
        b.scale as nat
    }
}

/// Sum (or difference, where `add` is false) of the mantissas at the common scale.
pub open spec fn combined_mantissa(a: Decimal, b: Decimal, add: bool) -> int {
    let s = common_scale(a, b);
    if add {
        a.mantissa_at(s) + b.mantissa_at(s)
    } else {
        a.mantissa_at(s) - b.mantissa_at(s)
    }
}

pub open spec fn dec_combine(a: Decimal, b: Decimal, add: bool) -> Option<Decimal> {
    if b.mantissa == 0 {
        Some(a)
    } else if fits(combined_mantissa(a, b, add)) {
        Some(
            Decimal {
                mantissa: combined_mantissa(a, b, add) as i64,
                scale: common_scale(a, b) as u32,
            },
        )
    } else {
        None
    }
}

/// Exact difference; `None` where the mantissa leaves `i64`.
pub open spec fn dec_sub(a: Decimal, b: Decimal) -> Option<Decimal> {
    dec_combine(a, b, false)
}

/// Exact sum; `None` where the mantissa leaves `i64`.
pub open spec fn dec_add(a: Decimal, b: Decimal) -> Option<Decimal> {
    dec_combine(a, b, true)
}

/// Exact product; zero where a factor is zero, `None` where the result
/// leaves `i64` or the precision.
pub open spec fn dec_mul(a: Decimal, b: Decimal) -> Option<Decimal> {
    if a.mantissa == 0 || b.mantissa == 0 {
        Some(Decimal { mantissa: 0, scale: 0 })
    } else if a.scale + b.scale <= MAX_SCALE && fits(a.mantissa * b.mantissa) {
        Some(Decimal { mantissa: (a.mantissa * b.mantissa) as i64, scale: (a.scale + b.scale) as u32 })
    } else {
        None
    }
}

/// `10^n` as a machine integer.
fn pow10_exec(n: u32) -> (r: i128)
    requires
        n <= MAX_SCALE,
    ensures
        r == pow10(n as nat),
{
    let mut r: i128 = 1;
    let mut i: u32 = 0;
    while i < n
        invariant
            i <= n,
            n <= MAX_SCALE,
            r == pow10(i as nat),
        decreases n - i,
    {
        proof {
            lemma_pow10_bound((i + 1) as nat);
        }
        r = r * 10;
        i = i + 1;
    }
    r
}

/// `m * 10^k`, or `None` where that leaves `i128`.
fn rescale(m: i64, k: u32) -> (r: Option<i128>)
    requires
        k <= MAX_SCALE,
    ensures
        match r {
            Some(v) => v == m * pow10(k as nat),
            None => !(i128::MIN <= m * pow10(k as nat) <= i128::MAX),
        },
{
    let p = pow10_exec(k);
    (m as i128).checked_mul(p)
}

fn combine(a: &Decimal, b: &Decimal, add: bool) -> (r: Option<Decimal>)
    requires
        a.wf(),
        b.wf(),
    ensures
        r == dec_combine(*a, *b, add),
{
    if b.mantissa == 0 {
        return Some(*a);
    }
    let s: u32 = if a.scale >= b.scale { a.scale } else { b.scale };
    let ka = rescale(a.mantissa, s - a.scale);
    let kb = rescale(b.mantissa, s - b.scale);
    proof {
        lemma_pow10_pos((s - a.scale) as nat);
        lemma_pow10_pos((s - b.scale) as nat);
        assert(s - a.scale == 0 || s - b.scale == 0);
    }
    match (ka, kb) {
        (Some(x), Some(y)) => {
            proof {
                assert(x == a.mantissa_at(s as nat));
                assert(y == b.mantissa_at(s as nat));
            }
            let m = if add {
                x.checked_add(y)
            } else {
                x.checked_sub(y)
            };
            match m {
                Some(v) => {
                    if i64::MIN as i128 <= v && v <= i64::MAX as i128 {
                        Some(Decimal { mantissa: v as i64, scale: s })
                    } else {
                        None
                    }
                },
                None => None,
            }
        },
        _ => {
            proof {
                if s - a.scale == 0 {
                    assert(pow10(0) == 1);
                } else {
                    assert(pow10(0) == 1);
                }
            }
            None
        },
    }
}

/// Relies on `rust_decimal::Decimal::new` (exact for a scale up to 28) and on
/// its `Ord`, which compares two decimals by value.
#[verifier::external_body]
fn decimal_lt(a: &Decimal, b: &Decimal) -> (r: bool)
    requires
        a.wf(),
        b.wf(),
    ensures
        r == (a.value() < b.value()),
{
    rust_decimal::Decimal::new(a.mantissa, a.scale) < rust_decimal::Decimal::new(b.mantissa, b.scale)
}

} // verus!

verus! {

/// A mantissa brought to a larger scale keeps its value.
pub proof fn lemma_mantissa_at_value(a: Decimal, s: nat)
    requires
        a.scale <= s <= MAX_SCALE,
    ensures
        a.mantissa_at(s) * pow10((MAX_SCALE - s) as nat) == a.value(),
{
    lemma_pow10_add((s - a.scale) as nat, (MAX_SCALE - s) as nat);
    assert((s - a.scale) as nat + (MAX_SCALE - s) as nat == (MAX_SCALE - a.scale) as nat);
    let x = a.mantissa as int;
    let p = pow10((s - a.scale) as nat);
    let q = pow10((MAX_SCALE - s) as nat);
    assert(x * p * q == x * (p * q)) by (nonlinear_arith);
}

/// The difference of two decimals of equal value is an exact zero.
pub proof fn lemma_sub_of_equal(a: Decimal, b: Decimal)
    requires
        a.wf(),
        b.wf(),
        a.value() == b.value(),
    ensures
        dec_sub(a, b) matches Some(k) && k.mantissa == 0 && k.wf(),
{
    if b.mantissa == 0 {
        lemma_pow10_pos((MAX_SCALE - a.scale) as nat);
        let x = a.mantissa as int;
        let p = pow10((MAX_SCALE - a.scale) as nat);
        assert(x * p == 0 && p >= 1 ==> x == 0) by (nonlinear_arith);
    } else {
        let s = common_scale(a, b);
        lemma_mantissa_at_value(a, s);
        lemma_mantissa_at_value(b, s);
        lemma_pow10_pos((MAX_SCALE - s) as nat);
        let q = pow10((MAX_SCALE - s) as nat);
        let x = a.mantissa_at(s);
        let y = b.mantissa_at(s);
        assert(x * q == y * q && q >= 1 ==> x == y) by (nonlinear_arith);
    }
}

} // verus!

verus! {

/// Exact subtraction: where the difference fits, its value is the difference
/// of the values.
pub proof fn lemma_sub_value(a: Decimal, b: Decimal)
    requires
        a.wf(),
        b.wf(),
    ensures
        dec_sub(a, b) matches Some(d) ==> d.wf() && d.value() == a.value() - b.value(),
{
    lemma_combine_value(a, b, false);
}

/// Exact addition: where the sum fits, its value is the sum of the values.
pub proof fn lemma_add_value(a: Decimal, b: Decimal)
    requires
        a.wf(),
        b.wf(),
    ensures
        dec_add(a, b) matches Some(d) ==> d.wf() && d.value() == a.value() + b.value(),
{
    lemma_combine_value(a, b, true);
}

proof fn lemma_combine_value(a: Decimal, b: Decimal, add: bool)
    requires
        a.wf(),
        b.wf(),
    ensures
        dec_combine(a, b, add) matches Some(d) ==> d.wf() && d.value() == (if add {
            a.value() + b.value()
        } else {
            a.value() - b.value()
        }),
{
    if b.mantissa == 0 {
        assert(b.value() == 0);
    } else {
        let s = common_scale(a, b);
        lemma_mantissa_at_value(a, s);
        lemma_mantissa_at_value(b, s);
        let q = pow10((MAX_SCALE - s) as nat);
        let x = a.mantissa_at(s);
        let y = b.mantissa_at(s);
        assert((x + y) * q == x * q + y * q) by (nonlinear_arith);
        assert((x - y) * q == x * q - y * q) by (nonlinear_arith);
    }
}

/// Exact multiplication: where the product fits, its value (in units of
/// `10^-28`) times `10^28` is the product of the values.
pub proof fn lemma_mul_value(a: Decimal, b: Decimal)
    requires
        a.wf(),
        b.wf(),
    ensures
        dec_mul(a, b) matches Some(d) ==> d.wf() && d.value() * pow10(MAX_SCALE as nat) == a.value()
            * b.value(),
{
    if a.mantissa == 0 || b.mantissa == 0 {
        assert(a.value() * b.value() == 0) by (nonlinear_arith)
            requires
                a.mantissa == 0 || b.mantissa == 0,
                a.value() == a.mantissa * pow10((MAX_SCALE - a.scale) as nat),
                b.value() == b.mantissa * pow10((MAX_SCALE - b.scale) as nat),
        ;
        let d = Decimal { mantissa: 0, scale: 0 };
        assert(d.value() == 0);
        assert(d.value() * pow10(MAX_SCALE as nat) == 0);
    } else if a.scale + b.scale <= MAX_SCALE && fits(a.mantissa * b.mantissa) {
        let s = (a.scale + b.scale) as nat;
        let pa = pow10((MAX_SCALE - a.scale) as nat);
        let pb = pow10((MAX_SCALE - b.scale) as nat);
        let pd = pow10((MAX_SCALE - s) as nat);
        let p28 = pow10(MAX_SCALE as nat);
        lemma_pow10_add((MAX_SCALE - s) as nat, MAX_SCALE as nat);
        lemma_pow10_add((MAX_SCALE - a.scale) as nat, (MAX_SCALE - b.scale) as nat);
        assert((MAX_SCALE - s) as nat + MAX_SCALE as nat == (MAX_SCALE - a.scale) as nat + (MAX_SCALE
            - b.scale) as nat);
        let x = a.mantissa as int;
        let y = b.mantissa as int;
        assert((x * y) * pd * p28 == (x * pa) * (y * pb)) by (nonlinear_arith)
            requires
                pd * p28 == pa * pb,
        ;
        let d = dec_mul(a, b)->0;
        assert(d.mantissa == x * y);
        assert(d.value() == (x * y) * pd);
    }
}

} // verus!
