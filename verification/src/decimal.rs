//! Fixed-point decimal numbers, held as a signed mantissa and a scale, with
//! the arithmetic done by `rust_decimal`.

use vstd::prelude::*;
use vstd::arithmetic::power::pow;

verus! {

/// The largest magnitude a mantissa can have: 96 bits.
pub const MAX_MANTISSA: i128 = 0xFFFF_FFFF_FFFF_FFFF_FFFF_FFFF;

/// The largest scale: the number of digits behind the decimal point.
pub const MAX_SCALE: u32 = 28;

/// The number `mantissa / 10^scale`.
#[derive(Clone, Copy, Debug)]
pub struct Decimal {
    pub(crate) mantissa: i128,
    pub(crate) scale: u32,
}

/// What `rust_decimal::Decimal::saturating_add` returns for the numbers
/// `am / 10^a_scale` and `bm / 10^b_scale`, as mantissa and scale.
pub uninterp spec fn decimal_sum(am: int, a_scale: nat, bm: int, b_scale: nat) -> (int, nat);

/// What `rust_decimal::Decimal::saturating_sub` returns for the numbers
/// `am / 10^a_scale` and `bm / 10^b_scale`, as mantissa and scale.
pub uninterp spec fn decimal_difference(am: int, a_scale: nat, bm: int, b_scale: nat) -> (int, nat);

/// What `rust_decimal::Decimal` writes for the number `m / 10^scale`
/// (`Display`).
pub uninterp spec fn decimal_text(m: int, scale: nat) -> Seq<char>;

/// What `rust_decimal::Decimal` reads from the text (`FromStr`): mantissa
/// and scale, or nothing where it reads no number.
pub uninterp spec fn decimal_parsed(text: Seq<char>) -> Option<(int, nat)>;

/// `10^n`.
pub open spec fn pow10(n: nat) -> int {
    pow(10, n)
}

/// Whether `am / 10^a_scale` is greater than `bm / 10^b_scale`.
pub open spec fn value_gt(am: int, a_scale: nat, bm: int, b_scale: nat) -> bool {
    am * pow10(b_scale) > bm * pow10(a_scale)
}

impl View for Decimal {
    type V = (int, nat);

    closed spec fn view(&self) -> (int, nat) {
        (self.mantissa as int, self.scale as nat)
    }
}

impl Decimal {
    /// What holds of every number: the mantissa has at most 96 bits and
    /// the scale is at most 28.
    #[verifier::type_invariant]
    pub closed spec fn wf(self) -> bool {
        &&& -MAX_MANTISSA <= self.mantissa <= MAX_MANTISSA
        &&& self.scale <= MAX_SCALE
    }

    /// The number `num / 10^scale`.
    pub fn new(num: i64, scale: u32) -> (r: Decimal)
        requires
            scale <= MAX_SCALE,
        ensures
            r@ == (num as int, scale as nat),
    {
        Decimal { mantissa: num as i128, scale }
    }

    /// The mantissa: the number without its decimal point.
    pub fn mantissa(&self) -> (m: i128)
        ensures
            m == self@.0,
            -MAX_MANTISSA <= m <= MAX_MANTISSA,
    {
        proof {
            use_type_invariant(self);
        }
        self.mantissa
    }

    /// The number of digits behind the decimal point.
    pub fn scale(&self) -> (s: u32)
        ensures
            s == self@.1,
            s <= MAX_SCALE,
    {
        proof {
            use_type_invariant(self);
        }
        self.scale
    }

    /// Zero, with no digits behind the decimal point.
    pub fn zero() -> (r: Decimal)
        ensures
            r@ == (0int, 0nat),
    {
        Decimal { mantissa: 0, scale: 0 }
    }

    /// The number with its sign turned, at the same scale.
    pub fn neg(self) -> (r: Decimal)
        ensures
            r@ == (-self@.0, self@.1),
    {
        proof {
            use_type_invariant(self);
        }
        Decimal { mantissa: -self.mantissa, scale: self.scale }
    }

    /// The number without its sign, at the same scale.
    pub fn abs(self) -> (r: Decimal)
        ensures
            r@ == (if self@.0 < 0 { -self@.0 } else { self@.0 }, self@.1),
    {
        proof {
            use_type_invariant(self);
        }
        if self.mantissa < 0 {
            Decimal { mantissa: -self.mantissa, scale: self.scale }
        } else {
            self
        }
    }

    /// The sum of two numbers, held at the largest or smallest number where
    /// it would leave the range.
    pub fn add(self, other: Decimal) -> (r: Decimal)
        ensures
            r@ == decimal_sum(self@.0, self@.1, other@.0, other@.1),
    {
        proof {
            use_type_invariant(self);
            use_type_invariant(other);
        }
        saturating_sum(self, other)
    }

    /// The difference of two numbers, held at the largest or smallest number
    /// where it would leave the range.
    pub fn sub(self, other: Decimal) -> (r: Decimal)
        ensures
            r@ == decimal_difference(self@.0, self@.1, other@.0, other@.1),
    {
        proof {
            use_type_invariant(self);
            use_type_invariant(other);
        }
        saturating_difference(self, other)
    }

    /// The number that the text holds, if it holds one.
    pub fn parse(text: &str) -> (r: Option<Decimal>)
        ensures
            match r {
                Some(d) => decimal_parsed(text@) == Some(d@),
                None => decimal_parsed(text@) is None,
            },
    {
        read_decimal(text)
    }

    /// The number as text, with as many digits behind the point as its scale.
    pub fn to_text(&self) -> (r: String)
        ensures
            r@ == decimal_text(self@.0, self@.1),
    {
        proof {
            use_type_invariant(self);
        }
        render_decimal(*self)
    }

    /// Whether this number is greater than the other.
    pub fn gt(self, other: Decimal) -> (r: bool)
        ensures
            r == value_gt(self@.0, self@.1, other@.0, other@.1),
    {
        proof {
            use_type_invariant(self);
            use_type_invariant(other);
        }
        greater(self, other)
    }
}

/// Calls `rust_decimal::Decimal::saturating_add` on the two numbers. The
/// result is not stated but named: `decimal_sum` of the operands; like every
/// number of `rust_decimal` it has at most 96 bits and a scale of at most
/// 28. Both operands are in that range, so that making them does not fail.
#[verifier::external_body]
fn saturating_sum(a: Decimal, b: Decimal) -> (r: Decimal)
    requires
        a.wf(),
        b.wf(),
    ensures
        r.wf(),
        r@ == decimal_sum(a@.0, a@.1, b@.0, b@.1),
{
    let x = rust_decimal::Decimal::from_i128_with_scale(a.mantissa, a.scale);
    let y = rust_decimal::Decimal::from_i128_with_scale(b.mantissa, b.scale);
    let z = x.saturating_add(y);
    Decimal { mantissa: z.mantissa(), scale: z.scale() }
}

/// Calls `rust_decimal::Decimal::saturating_sub` on the two numbers. The
/// result is not stated but named: `decimal_difference` of the operands.
#[verifier::external_body]
fn saturating_difference(a: Decimal, b: Decimal) -> (r: Decimal)
    requires
        a.wf(),
        b.wf(),
    ensures
        r.wf(),
        r@ == decimal_difference(a@.0, a@.1, b@.0, b@.1),
{
    let x = rust_decimal::Decimal::from_i128_with_scale(a.mantissa, a.scale);
    let y = rust_decimal::Decimal::from_i128_with_scale(b.mantissa, b.scale);
    let z = x.saturating_sub(y);
    Decimal { mantissa: z.mantissa(), scale: z.scale() }
}

/// Reads a number with the `FromStr` of `rust_decimal::Decimal`. What is
/// read is not stated but named: `decimal_parsed` of the text, which is
/// nothing where `from_str` returns an error, and else the mantissa and the
/// scale of the number.
#[verifier::external_body]
fn read_decimal(text: &str) -> (r: Option<Decimal>)
    ensures
        match r {
            Some(d) => d.wf() && decimal_parsed(text@) == Some(d@),
            None => decimal_parsed(text@) is None,
        },
{
    match text.parse::<rust_decimal::Decimal>() {
        Ok(d) => Some(Decimal { mantissa: d.mantissa(), scale: d.scale() }),
        Err(_) => None,
    }
}

/// Writes the number with the `Display` of `rust_decimal::Decimal`. The
/// text is not stated but named: `decimal_text` of mantissa and scale.
#[verifier::external_body]
fn render_decimal(a: Decimal) -> (r: String)
    requires
        a.wf(),
    ensures
        r@ == decimal_text(a@.0, a@.1),
{
    rust_decimal::Decimal::from_i128_with_scale(a.mantissa, a.scale).to_string()
}

/// Calls `>` of `rust_decimal::Decimal`, which compares the two numbers by
/// their value, whatever their scales.
#[verifier::external_body]
fn greater(a: Decimal, b: Decimal) -> (r: bool)
    requires
        a.wf(),
        b.wf(),
    ensures
        r == value_gt(a@.0, a@.1, b@.0, b@.1),
{
    let x = rust_decimal::Decimal::from_i128_with_scale(a.mantissa, a.scale);
    let y = rust_decimal::Decimal::from_i128_with_scale(b.mantissa, b.scale);
    x > y
}

} // verus!
