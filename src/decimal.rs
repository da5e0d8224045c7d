//! Exact decimal numbers: an integer count of units of `10^-scale`.
use vstd::prelude::*;

verus! {

/// The largest number of fractional digits a `Decimal` may carry.
pub const MAX_SCALE: u32 = 18;

/// `10` raised to `n`.
pub open spec fn pow10(n: nat) -> int
    decreases n,
{
    if n == 0 {
        1
    } else {
        10 * pow10((n - 1) as nat)
    }
}

pub proof fn lemma_pow10_positive(n: nat)
    ensures
        pow10(n) >= 1,
    decreases n,
{
    if n > 0 {
        lemma_pow10_positive((n - 1) as nat);
    }
}

pub proof fn lemma_pow10_monotone(m: nat, n: nat)
    requires
        m <= n,
    ensures
        pow10(m) <= pow10(n),
    decreases n,
{
    if m < n {
        lemma_pow10_monotone(m, (n - 1) as nat);
        lemma_pow10_positive((n - 1) as nat);
    }
}

pub proof fn lemma_pow10_max_scale(n: nat)
    requires
        n <= MAX_SCALE,
    ensures
        1 <= pow10(n) <= 1_000_000_000_000_000_000,
{
    reveal_with_fuel(pow10, 19);
    lemma_pow10_positive(n);
    lemma_pow10_monotone(n, MAX_SCALE as nat);
}

/// `10^n` as a machine integer.
pub(crate) fn pow10_exec(n: u32) -> (r: i128)
    requires
        n <= MAX_SCALE,
    ensures
        r == pow10(n as nat),
{
    let mut r: i128 = 1;
    let mut i: u32 = 0;
    while i < n
        invariant
            i <= n <= MAX_SCALE,
            r == pow10(i as nat),
        decreases n - i,
    {
        proof {
            lemma_pow10_max_scale((i + 1) as nat);
        }
        r = r * 10;
        i = i + 1;
    }
    r
}

/// An exact decimal number, worth `units / 10^scale`.
#[derive(Clone, Copy, Debug, PartialEq, Eq, Structural, Default)]
pub struct Decimal {
    pub units: i64,
    pub scale: u32,
}

impl Decimal {
    /// The scale stays within `MAX_SCALE`, so that two decimals can be
    /// brought to a common scale without overflow.
    pub open spec fn wf(self) -> bool {
        self.scale <= MAX_SCALE
    }

    /// `self <= other` as numbers (cross-multiplied to a common scale).
    pub open spec fn le_spec(self, other: Decimal) -> bool {
        self.units * pow10(other.scale as nat) <= other.units * pow10(self.scale as nat)
    }

    /// `self` and `other` are the same number, whatever their scales.
    pub open spec fn same_value(self, other: Decimal) -> bool {
        self.units * pow10(other.scale as nat) == other.units * pow10(self.scale as nat)
    }

    /// `self > 0`.
    pub open spec fn is_positive_spec(self) -> bool {
        self.units > 0
    }

    /// The smaller of the two numbers; `self` on a tie.
    pub open spec fn min_spec(self, other: Decimal) -> Decimal {
        if self.le_spec(other) {
            self
        } else {
            other
        }
    }

    /// The decimal `units / 10^scale`, where the scale is in range.
    pub fn new(units: i64, scale: u32) -> (r: Option<Decimal>)
        ensures
            r == (if scale <= MAX_SCALE {
                Some(Decimal { units, scale })
            } else {
                None
            }),
    {
        if scale <= MAX_SCALE {
            Some(Decimal { units, scale })
        } else {
            None
        }
    }

    /// The whole number `n`.
    pub fn from_int(n: i64) -> (r: Decimal)
        ensures
            r == (Decimal { units: n, scale: 0 }),
            r.wf(),
    {
        Decimal { units: n, scale: 0 }
    }

    /// Zero.
    pub fn zero() -> (r: Decimal)
        ensures
            r == (Decimal { units: 0, scale: 0 }),
            r.wf(),
    {
        Decimal { units: 0, scale: 0 }
    }

    /// Whether `self <= other` as numbers.
    pub fn le(&self, other: &Decimal) -> (r: bool)
        requires
            self.wf(),
            other.wf(),
        ensures
            r == self.le_spec(*other),
    {
        let a = pow10_exec(other.scale);
        let b = pow10_exec(self.scale);
        proof {
            lemma_pow10_max_scale(other.scale as nat);
            lemma_pow10_max_scale(self.scale as nat);
            let u = self.units as int;
            let v = other.units as int;
            assert(-9_223_372_036_854_775_808 * 1_000_000_000_000_000_000 <= u * a
                <= 9_223_372_036_854_775_807 * 1_000_000_000_000_000_000) by (nonlinear_arith)
                requires
                    -9_223_372_036_854_775_808 <= u <= 9_223_372_036_854_775_807,
                    1 <= a <= 1_000_000_000_000_000_000,
            ;
            assert(-9_223_372_036_854_775_808 * 1_000_000_000_000_000_000 <= v * b
                <= 9_223_372_036_854_775_807 * 1_000_000_000_000_000_000) by (nonlinear_arith)
                requires
                    -9_223_372_036_854_775_808 <= v <= 9_223_372_036_854_775_807,
                    1 <= b <= 1_000_000_000_000_000_000,
            ;
        }
        (self.units as i128) * a <= (other.units as i128) * b
    }

    /// Whether `self > 0`.
    pub fn is_positive(&self) -> (r: bool)
        ensures
            r == self.is_positive_spec(),
    {
        self.units > 0
    }

    /// The smaller of `self` and `other`, as one of the two values; `self`
    /// when they are equal as numbers.
    pub fn min(&self, other: &Decimal) -> (r: Decimal)
        requires
            self.wf(),
            other.wf(),
        ensures
            r == self.min_spec(*other),
            r.wf(),
    {
        if self.le(other) {
            *self
        } else {
            *other
        }
    }
}

} // verus!
