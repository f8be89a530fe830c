//! Exact decimal prices.
//!
//! A price is a 96-bit signed mantissa together with a power-of-ten scale,
//! the representation that `rust_decimal` uses. The library holds the two
//! parts as plain values; the arithmetic itself is done by `rust_decimal`
//! behind the trusted wrappers below, and everything downstream is proved
//! against their contracts.

use vstd::prelude::*;

verus! {

/// Largest mantissa magnitude a decimal can carry: 2^96 - 1.
pub const MAX_MANTISSA: i128 = 79228162514264337593543950335;

/// Largest number of digits after the decimal point.
pub const MAX_SCALE: u32 = 28;

/// An exact decimal number, read as `mantissa / 10^scale`.
#[derive(Clone, Copy, Debug, PartialEq, Eq, Structural)]
pub struct Dec {
    pub mantissa: i128,
    pub scale: u32,
}

/// 10^e.
pub open spec fn pow10(e: nat) -> int
    decreases e,
{
    if e == 0 {
        1
    } else {
        10 * pow10((e - 1) as nat)
    }
}

/// The representation every decimal held by the library keeps to.
pub open spec fn dec_wf(d: Dec) -> bool {
    d.scale <= MAX_SCALE && -(MAX_MANTISSA as int) <= d.mantissa as int <= MAX_MANTISSA as int
}

/// `a` and `b` denote the same number.
pub open spec fn dec_num_eq(a: Dec, b: Dec) -> bool {
    a.mantissa as int * pow10(b.scale as nat) == b.mantissa as int * pow10(a.scale as nat)
}

/// The number `a` denotes is at most the number `b` denotes.
pub open spec fn dec_num_le(a: Dec, b: Dec) -> bool {
    a.mantissa as int * pow10(b.scale as nat) <= b.mantissa as int * pow10(a.scale as nat)
}

/// The number `a` denotes is strictly below the number `b` denotes.
pub open spec fn dec_num_lt(a: Dec, b: Dec) -> bool {
    a.mantissa as int * pow10(b.scale as nat) < b.mantissa as int * pow10(a.scale as nat)
}

/// `d` denotes exactly the integer `n`.
pub open spec fn dec_is_int(d: Dec, n: int) -> bool {
    d.mantissa as int == n * pow10(d.scale as nat)
}

/// The larger of two scales.
pub open spec fn scale_max(a: u32, b: u32) -> u32 {
    if a >= b {
        a
    } else {
        b
    }
}

/// The exact sum of `a` and `b`, as a mantissa at scale `scale_max(a.scale, b.scale)`.
pub open spec fn rescaled_sum(a: Dec, b: Dec) -> int {
    let s = scale_max(a.scale, b.scale);
    a.mantissa as int * pow10((s - a.scale) as nat) + b.mantissa as int * pow10(
        (s - b.scale) as nat,
    )
}

/// The exact difference of `a` and `b`, as a mantissa at scale `scale_max(a.scale, b.scale)`.
pub open spec fn rescaled_diff(a: Dec, b: Dec) -> int {
    let s = scale_max(a.scale, b.scale);
    a.mantissa as int * pow10((s - a.scale) as nat) - b.mantissa as int * pow10(
        (s - b.scale) as nat,
    )
}

/// The exact sum of `a` and `b` is representable without rounding.
pub open spec fn add_fits(a: Dec, b: Dec) -> bool {
    -(MAX_MANTISSA as int) <= rescaled_sum(a, b) <= MAX_MANTISSA as int
}

/// The exact difference of `a` and `b` is representable without rounding.
pub open spec fn sub_fits(a: Dec, b: Dec) -> bool {
    -(MAX_MANTISSA as int) <= rescaled_diff(a, b) <= MAX_MANTISSA as int
}

/// The exact product of `a` and `b` is representable without rounding.
pub open spec fn mul_fits(a: Dec, b: Dec) -> bool {
    a.scale + b.scale <= MAX_SCALE && -(MAX_MANTISSA as int) <= a.mantissa as int
        * b.mantissa as int <= MAX_MANTISSA as int
}

/// `r` denotes exactly the sum of the numbers `a` and `b` denote.
pub open spec fn is_num_sum(r: Dec, a: Dec, b: Dec) -> bool {
    r.mantissa as int * pow10((a.scale + b.scale) as nat) == (a.mantissa as int * pow10(
        b.scale as nat,
    ) + b.mantissa as int * pow10(a.scale as nat)) * pow10(r.scale as nat)
}

/// `r` denotes exactly the difference of the numbers `a` and `b` denote.
pub open spec fn is_num_diff(r: Dec, a: Dec, b: Dec) -> bool {
    r.mantissa as int * pow10((a.scale + b.scale) as nat) == (a.mantissa as int * pow10(
        b.scale as nat,
    ) - b.mantissa as int * pow10(a.scale as nat)) * pow10(r.scale as nat)
}

/// `r` denotes exactly the product of the numbers `a` and `b` denote.
pub open spec fn is_num_prod(r: Dec, a: Dec, b: Dec) -> bool {
    r.mantissa as int * pow10((a.scale + b.scale) as nat) == a.mantissa as int * b.mantissa as int
        * pow10(r.scale as nat)
}

/// The mantissa `qm` at scale `qs` is representable and denotes exactly
/// the quotient of the numbers `a` and `b` denote.
pub open spec fn exact_quot_cond(qm: int, qs: nat, a: Dec, b: Dec) -> bool {
    qs <= MAX_SCALE as nat && -(MAX_MANTISSA as int) <= qm <= MAX_MANTISSA as int && qm
        * (b.mantissa as int) * pow10(a.scale as nat) == (a.mantissa as int) * pow10(
        qs + b.scale as nat,
    )
}

/// `r` denotes exactly the number `qm / 10^qs`.
pub open spec fn quot_matches(qm: int, qs: nat, r: Dec) -> bool {
    r.mantissa as int * pow10(qs) == qm * pow10(r.scale as nat)
}

/// What `rust_decimal` returns for the sum of two decimals.
pub uninterp spec fn sum_of(a: Dec, b: Dec) -> Dec;

/// What `rust_decimal` returns for the difference of two decimals.
pub uninterp spec fn diff_of(a: Dec, b: Dec) -> Dec;

/// What `rust_decimal` returns for the product of two decimals.
pub uninterp spec fn prod_of(a: Dec, b: Dec) -> Dec;

/// What `rust_decimal` returns for the quotient of two decimals.
pub uninterp spec fn quot_of(a: Dec, b: Dec) -> Dec;

/// Relies on rust_decimal's Decimal::checked_add: the sum is exact whenever it is
/// representable without rounding, every returned value is a valid decimal, and
/// the result's scale never exceeds the larger operand scale.
#[verifier::external_body]
fn raw_add(a: &Dec, b: &Dec) -> (r: Option<Dec>)
    requires
        dec_wf(*a),
        dec_wf(*b),
    ensures
        r is Some ==> r->0 == sum_of(*a, *b),
        r is Some ==> dec_wf(r->0),
        r is Some ==> r->0.scale <= scale_max(a.scale, b.scale),
        add_fits(*a, *b) ==> r is Some && is_num_sum(r->0, *a, *b),
{
    let x = rust_decimal::Decimal::from_i128_with_scale(a.mantissa, a.scale);
    let y = rust_decimal::Decimal::from_i128_with_scale(b.mantissa, b.scale);
    x.checked_add(y).map(|z| Dec { mantissa: z.mantissa(), scale: z.scale() })
}

/// Relies on rust_decimal's Decimal::checked_sub: the difference is exact whenever
/// it is representable without rounding, every returned value is a valid decimal,
/// and the result's scale never exceeds the larger operand scale.
#[verifier::external_body]
fn raw_sub(a: &Dec, b: &Dec) -> (r: Option<Dec>)
    requires
        dec_wf(*a),
        dec_wf(*b),
    ensures
        r is Some ==> r->0 == diff_of(*a, *b),
        r is Some ==> dec_wf(r->0),
        r is Some ==> r->0.scale <= scale_max(a.scale, b.scale),
        sub_fits(*a, *b) ==> r is Some && is_num_diff(r->0, *a, *b),
{
    let x = rust_decimal::Decimal::from_i128_with_scale(a.mantissa, a.scale);
    let y = rust_decimal::Decimal::from_i128_with_scale(b.mantissa, b.scale);
    x.checked_sub(y).map(|z| Dec { mantissa: z.mantissa(), scale: z.scale() })
}

/// Relies on rust_decimal's Decimal::checked_mul: the product is exact whenever it
/// is representable without rounding, every returned value is a valid decimal, and
/// the result's scale never exceeds the sum of the operand scales.
#[verifier::external_body]
fn raw_mul(a: &Dec, b: &Dec) -> (r: Option<Dec>)
    requires
        dec_wf(*a),
        dec_wf(*b),
    ensures
        r is Some ==> r->0 == prod_of(*a, *b),
        r is Some ==> dec_wf(r->0),
        r is Some ==> r->0.scale <= a.scale + b.scale,
        mul_fits(*a, *b) ==> r is Some && is_num_prod(r->0, *a, *b),
{
    let x = rust_decimal::Decimal::from_i128_with_scale(a.mantissa, a.scale);
    let y = rust_decimal::Decimal::from_i128_with_scale(b.mantissa, b.scale);
    x.checked_mul(y).map(|z| Dec { mantissa: z.mantissa(), scale: z.scale() })
}

/// Relies on rust_decimal's Decimal::checked_div: None on a zero divisor, Some
/// whenever the divisor's magnitude is at least one, an exact result whenever an
/// exactly representable quotient exists, and every returned value is a valid decimal.
#[verifier::external_body]
fn raw_div(a: &Dec, b: &Dec) -> (r: Option<Dec>)
    requires
        dec_wf(*a),
        dec_wf(*b),
    ensures
        b.mantissa == 0 ==> r is None,
        r is Some ==> r->0 == quot_of(*a, *b),
        r is Some ==> dec_wf(r->0),
        pow10(b.scale as nat) <= b.mantissa as int || b.mantissa as int <= -pow10(b.scale as nat)
            ==> r is Some,
        r is Some ==> forall|qm: int, qs: nat|
            #[trigger] exact_quot_cond(qm, qs, *a, *b) ==> quot_matches(qm, qs, r->0),
{
    let x = rust_decimal::Decimal::from_i128_with_scale(a.mantissa, a.scale);
    let y = rust_decimal::Decimal::from_i128_with_scale(b.mantissa, b.scale);
    x.checked_div(y).map(|z| Dec { mantissa: z.mantissa(), scale: z.scale() })
}

/// Relies on rust_decimal's PartialOrd for Decimal: decimals are ordered by the
/// numbers they denote.
#[verifier::external_body]
fn raw_le(a: &Dec, b: &Dec) -> (r: bool)
    requires
        dec_wf(*a),
        dec_wf(*b),
    ensures
        r == dec_num_le(*a, *b),
{
    let x = rust_decimal::Decimal::from_i128_with_scale(a.mantissa, a.scale);
    let y = rust_decimal::Decimal::from_i128_with_scale(b.mantissa, b.scale);
    x <= y
}

/// Relies on rust_decimal's PartialEq for Decimal: decimals are equal exactly
/// when they denote the same number.
#[verifier::external_body]
fn raw_eq(a: &Dec, b: &Dec) -> (r: bool)
    requires
        dec_wf(*a),
        dec_wf(*b),
    ensures
        r == dec_num_eq(*a, *b),
{
    let x = rust_decimal::Decimal::from_i128_with_scale(a.mantissa, a.scale);
    let y = rust_decimal::Decimal::from_i128_with_scale(b.mantissa, b.scale);
    x == y
}

impl Dec {
    /// The decimal zero.
    pub fn zero() -> (r: Dec)
        ensures
            r == (Dec { mantissa: 0, scale: 0 }),
    {
        Dec { mantissa: 0, scale: 0 }
    }

    /// The decimal denoting the integer `n`.
    pub fn from_u32(n: u32) -> (r: Dec)
        ensures
            r == (Dec { mantissa: n as i128, scale: 0 }),
            dec_wf(r),
            dec_is_int(r, n as int),
    {
        Dec { mantissa: n as i128, scale: 0 }
    }

    /// The sum, None when it cannot be represented at all.
    pub fn checked_add(self, other: Dec) -> (r: Option<Dec>)
        requires
            dec_wf(self),
            dec_wf(other),
        ensures
            r is Some ==> r->0 == sum_of(self, other),
            r is Some ==> dec_wf(r->0),
            r is Some ==> r->0.scale <= scale_max(self.scale, other.scale),
            add_fits(self, other) ==> r is Some && is_num_sum(r->0, self, other),
    {
        raw_add(&self, &other)
    }

    /// The difference, None when it cannot be represented at all.
    pub fn checked_sub(self, other: Dec) -> (r: Option<Dec>)
        requires
            dec_wf(self),
            dec_wf(other),
        ensures
            r is Some ==> r->0 == diff_of(self, other),
            r is Some ==> dec_wf(r->0),
            r is Some ==> r->0.scale <= scale_max(self.scale, other.scale),
            sub_fits(self, other) ==> r is Some && is_num_diff(r->0, self, other),
    {
        raw_sub(&self, &other)
    }

    /// The product, None when it cannot be represented at all.
    pub fn checked_mul(self, other: Dec) -> (r: Option<Dec>)
        requires
            dec_wf(self),
            dec_wf(other),
        ensures
            r is Some ==> r->0 == prod_of(self, other),
            r is Some ==> dec_wf(r->0),
            r is Some ==> r->0.scale <= self.scale + other.scale,
            mul_fits(self, other) ==> r is Some && is_num_prod(r->0, self, other),
    {
        raw_mul(&self, &other)
    }

    /// The quotient, None on a zero divisor or when it cannot be represented at all.
    pub fn checked_div(self, other: Dec) -> (r: Option<Dec>)
        requires
            dec_wf(self),
            dec_wf(other),
        ensures
            other.mantissa == 0 ==> r is None,
            r is Some ==> r->0 == quot_of(self, other),
            r is Some ==> dec_wf(r->0),
            pow10(other.scale as nat) <= other.mantissa as int || other.mantissa as int <= -pow10(
                other.scale as nat,
            ) ==> r is Some,
            r is Some ==> forall|qm: int, qs: nat|
                #[trigger] exact_quot_cond(qm, qs, self, other) ==> quot_matches(qm, qs, r->0),
    {
        raw_div(&self, &other)
    }

    /// Whether the value is within the representation the library keeps to.
    pub fn is_valid(&self) -> (r: bool)
        ensures
            r == dec_wf(*self),
    {
        self.scale <= MAX_SCALE && self.mantissa >= -MAX_MANTISSA && self.mantissa <= MAX_MANTISSA
    }

    /// Numeric comparison: `self <= other`.
    pub fn le(self, other: Dec) -> (r: bool)
        requires
            dec_wf(self),
            dec_wf(other),
        ensures
            r == dec_num_le(self, other),
    {
        raw_le(&self, &other)
    }

    /// Numeric comparison: `self < other`.
    pub fn lt(self, other: Dec) -> (r: bool)
        requires
            dec_wf(self),
            dec_wf(other),
        ensures
            r == dec_num_lt(self, other),
    {
        let le_back = raw_le(&other, &self);
        proof {
            lemma_pow10_pos(self.scale as nat);
            lemma_pow10_pos(other.scale as nat);
        }
        !le_back
    }

    /// Numeric equality.
    pub fn eq_num(self, other: Dec) -> (r: bool)
        requires
            dec_wf(self),
            dec_wf(other),
        ensures
            r == dec_num_eq(self, other),
    {
        raw_eq(&self, &other)
    }
}

/// The left-fold sum of a sequence of decimals, starting from zero,
/// each step taken by the decimal library.
pub open spec fn dec_seq_sum(s: Seq<Dec>) -> Dec
    decreases s.len(),
{
    if s.len() == 0 {
        Dec { mantissa: 0, scale: 0 }
    } else {
        sum_of(dec_seq_sum(s.drop_last()), s.last())
    }
}

/// The running left-fold sum never leaves the range the decimals can
/// represent without rounding: every partial sum is exact.
pub open spec fn sum_chain_fits(s: Seq<Dec>) -> bool
    decreases s.len(),
{
    if s.len() == 0 {
        true
    } else {
        sum_chain_fits(s.drop_last()) && add_fits(dec_seq_sum(s.drop_last()), s.last())
    }
}

/// Every prefix of a fitting sum chain fits.
pub proof fn lemma_sum_chain_fits_prefix(s: Seq<Dec>, k: int)
    requires
        sum_chain_fits(s),
        0 <= k <= s.len(),
    ensures
        sum_chain_fits(s.subrange(0, k)),
    decreases s.len() - k,
{
    if k == s.len() {
        assert(s.subrange(0, k) =~= s);
    } else {
        lemma_sum_chain_fits_prefix(s, k + 1);
        assert(s.subrange(0, k + 1).drop_last() =~= s.subrange(0, k));
    }
}

/// 10^e is positive.
pub proof fn lemma_pow10_pos(e: nat)
    ensures
        pow10(e) >= 1,
    decreases e,
{
    if e > 0 {
        lemma_pow10_pos((e - 1) as nat);
    }
}

} // verus!
