//! Fixed-point money values: an integer count of minor units tagged with a unit.
use vstd::prelude::*;

verus! {

/// A three-letter unit code such as `USD`.
#[derive(Clone, Copy, Debug, PartialEq, Eq, Structural)]
pub struct UnitCode {
    pub first: char,
    pub second: char,
    pub third: char,
}

/// A currency or share class, with its fixed number of minor-unit digits.
#[derive(Clone, Copy, Debug, PartialEq, Eq, Structural)]
pub struct Unit {
    pub code: UnitCode,
    pub id: u16,
    pub precision: u8,
}

/// An exact amount: `minor` minor units of `unit`.
#[derive(Clone, Copy, Debug, PartialEq, Eq, Structural)]
pub struct Money {
    pub minor: i64,
    pub unit: Unit,
}

pub open spec fn pow10(p: nat) -> int
    decreases p,
{
    if p == 0 {
        1
    } else {
        10 * pow10((p - 1) as nat)
    }
}

pub open spec fn unit_code_chars(u: Unit) -> Seq<char> {
    seq![u.code.first, u.code.second, u.code.third]
}

proof fn lemma_pow10_positive(p: nat)
    ensures
        pow10(p) >= 1,
    decreases p,
{
    if p > 0 {
        lemma_pow10_positive((p - 1) as nat);
    }
}

impl Unit {
    pub fn new(first: char, second: char, third: char, id: u16, precision: u8) -> (r: Unit)
        ensures
            r.code == (UnitCode { first, second, third }),
            r.id == id,
            r.precision == precision,
    {
        Unit { code: UnitCode { first, second, third }, id, precision }
    }

    /// The unit's code as text, such as `"USD"`.
    pub fn code_text(&self) -> (r: String)
        ensures
            r@ == unit_code_chars(*self),
    {
        let v: Vec<char> = vec![self.code.first, self.code.second, self.code.third];
        crate::text::string_of(&v)
    }
}

/// `10^p` as an exact integer, for `p <= 18`.
fn pow10_exec(p: u8) -> (r: i64)
    requires
        p <= 18,
    ensures
        r == pow10(p as nat),
{
    let mut r: i64 = 1;
    let mut i: u8 = 0;
    while i < p
        invariant
            i <= p <= 18,
            r == pow10(i as nat),
        decreases p - i,
    {
        assert(pow10((i + 1) as nat) == 10 * pow10(i as nat));
        assert(pow10(i as nat) <= 100000000000000000) by {
            lemma_pow10_bound(i as nat);
        }
        proof {
            lemma_pow10_positive(i as nat);
        }
        r = r * 10;
        i = i + 1;
    }
    r
}

proof fn lemma_pow10_monotone(a: nat, b: nat)
    requires
        a <= b,
    ensures
        pow10(a) <= pow10(b),
    decreases b - a,
{
    if a < b {
        lemma_pow10_monotone(a, (b - 1) as nat);
        lemma_pow10_positive((b - 1) as nat);
    }
}

proof fn lemma_pow10_bound(p: nat)
    requires
        p <= 17,
    ensures
        pow10(p) <= 100000000000000000,
{
    reveal_with_fuel(pow10, 18);
    assert(pow10(17) == 100000000000000000);
    lemma_pow10_monotone(p, 17);
}

impl Money {
    /// Combines a major and a minor field as `major * 10^precision + minor`;
    /// a negative amount carries its sign on both fields.
    pub fn of_major_minor(unit: Unit, major: i64, minor: i64) -> (r: Money)
        requires
            unit.precision <= 18,
            i64::MIN <= major * pow10(unit.precision as nat) + minor <= i64::MAX,
        ensures
            r.unit == unit,
            r.minor == major * pow10(unit.precision as nat) + minor,
    {
        let scale = pow10_exec(unit.precision);
        proof {
            lemma_pow10_positive(unit.precision as nat);
        }
        let wide: i128 = (major as i128) * (scale as i128) + (minor as i128);
        Money { minor: wide as i64, unit }
    }

    /// `major` whole units.
    pub fn of_major(unit: Unit, major: i64) -> (r: Money)
        requires
            unit.precision <= 18,
            i64::MIN <= major * pow10(unit.precision as nat) <= i64::MAX,
        ensures
            r.unit == unit,
            r.minor == major * pow10(unit.precision as nat),
    {
        Money::of_major_minor(unit, major, 0)
    }

    pub fn minor_amount(&self) -> (r: i64)
        ensures
            r == self.minor,
    {
        self.minor
    }

    /// The same amount with the opposite sign.
    pub fn negate(&self) -> (r: Money)
        requires
            self.minor != i64::MIN,
        ensures
            r.unit == self.unit,
            r.minor == -self.minor,
    {
        Money { minor: -self.minor, unit: self.unit }
    }
}

} // verus!
