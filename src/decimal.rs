//! Decimal text to fixed-point amounts.
use crate::units::UNIT;
use vstd::string::StringSliceAdditionalSpecFns;
use vstd::prelude::*;

verus! {

/// Mantissa and scale of the decimal that `text` spells, if it spells one:
/// the number is `mantissa / 10^scale`.
pub uninterp spec fn decimal_parts(text: Seq<u8>) -> Option<(i128, u32)>;

/// Relies on rust_decimal's `Decimal::from_str` to read the text, and on
/// `Decimal::mantissa` and `Decimal::scale`, which give the number as
/// `m / 10^e` with `-2^96 < m < 2^96` and `0 <= e <= 28`.
#[verifier::external_body]
fn parse_decimal(text: &str) -> (r: Option<(i128, u32)>)
    ensures
        r == decimal_parts(text.spec_bytes()),
        r matches Some((m, e)) ==> -0x1_0000_0000_0000_0000_0000_0000 < m
            < 0x1_0000_0000_0000_0000_0000_0000 && e <= 28,
{
    match <rust_decimal::Decimal as std::str::FromStr>::from_str(text) {
        Ok(d) => Some((d.mantissa(), d.scale())),
        Err(_) => None,
    }
}

pub open spec fn pow10(n: nat) -> int
    decreases n,
{
    if n == 0 {
        1
    } else {
        10 * pow10((n - 1) as nat)
    }
}

/// Stored units of `mantissa / 10^scale`, rounded toward zero, where it is
/// not negative and fits.
pub open spec fn units_of(mantissa: int, scale: nat) -> Option<u64> {
    let u = mantissa * UNIT / pow10(scale);
    if mantissa >= 0 && u <= u64::MAX {
        Some(u as u64)
    } else {
        None
    }
}

/// The amount that decimal parts stand for, if any.
pub open spec fn amount_of(parts: Option<(i128, u32)>) -> Option<u64> {
    match parts {
        Some((m, e)) => units_of(m as int, e as nat),
        None => None,
    }
}

proof fn lemma_pow10_mono(a: nat, b: nat)
    requires
        a <= b,
    ensures
        1 <= pow10(a) <= pow10(b),
    decreases b,
{
    if b > a {
        lemma_pow10_mono(a, (b - 1) as nat);
    } else if a > 0 {
        lemma_pow10_mono((a - 1) as nat, (a - 1) as nat);
    }
}

proof fn lemma_pow10_bounds(n: nat)
    ensures
        pow10(n) >= 1,
        n <= 28 ==> pow10(n) <= 10_000_000_000_000_000_000_000_000_000,
{
    reveal_with_fuel(pow10, 30);
    assert(pow10(28) == 10_000_000_000_000_000_000_000_000_000);
    if n <= 28 {
        lemma_pow10_mono(n, 28);
    } else {
        lemma_pow10_mono(0, n);
    }
}

/// `10^n` for `n <= 28`.
fn power_of_ten(n: u32) -> (r: i128)
    requires
        n <= 28,
    ensures
        r == pow10(n as nat),
{
    let mut r: i128 = 1;
    let mut i: u32 = 0;
    while i < n
        invariant
            i <= n <= 28,
            r == pow10(i as nat),
        decreases n - i,
    {
        proof {
            lemma_pow10_bounds(i as nat);
            lemma_pow10_bounds((i + 1) as nat);
        }
        r = r * 10;
        i = i + 1;
    }
    r
}

/// Stored units of `mantissa / 10^scale`, rounded toward zero, or `None`
/// where the number is negative or does not fit.
pub fn units_from_parts(mantissa: i128, scale: u32) -> (r: Option<u64>)
    requires
        -0x1_0000_0000_0000_0000_0000_0000 < mantissa < 0x1_0000_0000_0000_0000_0000_0000,
        scale <= 28,
    ensures
        r == units_of(mantissa as int, scale as nat),
{
    if mantissa < 0 {
        return None;
    }
    proof {
        assert(mantissa * (UNIT as int) < 0x1_0000_0000_0000_0000_0000_0000 * (UNIT as int))
            by (nonlinear_arith)
            requires 0 <= mantissa < 0x1_0000_0000_0000_0000_0000_0000;
        assert(mantissa * (UNIT as int) >= 0) by (nonlinear_arith)
            requires 0 <= mantissa;
        lemma_pow10_bounds(scale as nat);
    }
    let scaled: i128 = mantissa * (UNIT as i128);
    let u: i128 = scaled / power_of_ten(scale);
    if u <= u64::MAX as i128 {
        Some(u as u64)
    } else {
        None
    }
}

/// The amount that `text` spells as a decimal, in stored units rounded
/// toward zero, or `None` where it is no decimal, is negative, or does not
/// fit.
pub fn parse_amount(text: &str) -> (r: Option<u64>)
    ensures
        r == amount_of(decimal_parts(text.spec_bytes())),
{
    match parse_decimal(text) {
        Some((m, e)) => units_from_parts(m, e),
        None => None,
    }
}

} // verus!
