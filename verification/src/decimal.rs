//! Decimal numbers as they cross to scripts, and rounding them to a number
//! of decimal places.
//!
//! The arithmetic is `rust_decimal`'s. A number is held in the sixteen bytes
//! that `rust_decimal` serialises it to; what its operations return is named
//! here and not described.

use rust_decimal::Decimal;
use vstd::prelude::*;
use vstd::string::*;

verus! {

/// A decimal number in its serialised form: four bytes of flags, with the
/// scale in the third and the sign in the top bit of the fourth, then the
/// ninety-six bits of the mantissa, lowest byte first.
#[derive(Clone, Copy, Debug)]
pub struct FfiDecimal {
    pub raw: [u8; 16],
}

impl View for FfiDecimal {
    type V = Seq<u8>;

    open spec fn view(&self) -> Seq<u8> {
        self.raw@
    }
}

/// What an optional number says.
pub open spec fn number_view(number: Option<FfiDecimal>) -> Option<Seq<u8>> {
    match number {
        Some(n) => Some(n@),
        None => None,
    }
}

/// The largest number of decimal places a number can have.
pub const MAX_SCALE: u32 = 28;

/// The bytes of the number 1 with `scale` decimal places, which is ten to
/// the power of minus `scale`.
pub open spec fn unit_bytes(scale: u32) -> Seq<u8> {
    seq![0u8, 0u8, scale as u8, 0u8, 1u8, 0u8, 0u8, 0u8, 0u8, 0u8, 0u8, 0u8, 0u8, 0u8, 0u8, 0u8]
}

/// The quotient of two numbers, where it can be represented.
pub uninterp spec fn decimal_quotient(dividend: Seq<u8>, divisor: Seq<u8>) -> Option<Seq<u8>>;

/// The product of two numbers, where it can be represented.
pub uninterp spec fn decimal_product(left: Seq<u8>, right: Seq<u8>) -> Option<Seq<u8>>;

/// The largest whole number that is not above a number.
pub uninterp spec fn decimal_floor(number: Seq<u8>) -> Seq<u8>;

/// The smallest whole number that is not below a number.
pub uninterp spec fn decimal_ceil(number: Seq<u8>) -> Seq<u8>;

/// The whole number nearest to a number, the even one of two that are
/// equally near.
pub uninterp spec fn decimal_round(number: Seq<u8>) -> Seq<u8>;

/// Whether a number is above zero.
pub uninterp spec fn decimal_positive(number: Seq<u8>) -> bool;

/// The number that a text in plain notation stands for, if it stands for one.
pub uninterp spec fn decimal_parsed(text: Seq<char>) -> Option<Seq<u8>>;

/// The number that a text in scientific notation stands for, if it stands
/// for one.
pub uninterp spec fn decimal_scientific(text: Seq<char>) -> Option<Seq<u8>>;

/// Makes the number 1 with `scale` decimal places by `Decimal::try_new`,
/// which refuses a scale above 28 and else sets the scale and the mantissa
/// 1; the number is handed back as `Decimal::serialize` writes it.
#[verifier::external_body]
fn unit(scale: u32) -> (one: Option<FfiDecimal>)
    ensures
        one is Some <==> scale <= MAX_SCALE,
        one matches Some(u) ==> u@ == unit_bytes(scale),
{
    match Decimal::try_new(1, scale) {
        Ok(d) => Some(FfiDecimal { raw: d.serialize() }),
        Err(_) => None,
    }
}

/// Divides by `Decimal::checked_div`, which gives nothing for a divisor of
/// zero and for a quotient out of range. The result is named
/// `decimal_quotient`.
#[verifier::external_body]
fn checked_div(dividend: &FfiDecimal, divisor: &FfiDecimal) -> (quotient: Option<FfiDecimal>)
    ensures
        number_view(quotient) == decimal_quotient(dividend@, divisor@),
{
    match Decimal::deserialize(dividend.raw).checked_div(Decimal::deserialize(divisor.raw)) {
        Some(d) => Some(FfiDecimal { raw: d.serialize() }),
        None => None,
    }
}

/// Multiplies by `Decimal::checked_mul`, which gives nothing for a product
/// out of range. The result is named `decimal_product`.
#[verifier::external_body]
fn checked_mul(left: &FfiDecimal, right: &FfiDecimal) -> (product: Option<FfiDecimal>)
    ensures
        number_view(product) == decimal_product(left@, right@),
{
    match Decimal::deserialize(left.raw).checked_mul(Decimal::deserialize(right.raw)) {
        Some(d) => Some(FfiDecimal { raw: d.serialize() }),
        None => None,
    }
}

/// Rounds down by `Decimal::floor`. The result is named `decimal_floor`.
#[verifier::external_body]
fn floor(number: &FfiDecimal) -> (whole: FfiDecimal)
    ensures
        whole@ == decimal_floor(number@),
{
    FfiDecimal { raw: Decimal::deserialize(number.raw).floor().serialize() }
}

/// Rounds up by `Decimal::ceil`. The result is named `decimal_ceil`.
#[verifier::external_body]
fn ceil(number: &FfiDecimal) -> (whole: FfiDecimal)
    ensures
        whole@ == decimal_ceil(number@),
{
    FfiDecimal { raw: Decimal::deserialize(number.raw).ceil().serialize() }
}

/// Rounds to the nearest whole number by `Decimal::round`. The result is
/// named `decimal_round`.
#[verifier::external_body]
fn round(number: &FfiDecimal) -> (whole: FfiDecimal)
    ensures
        whole@ == decimal_round(number@),
{
    FfiDecimal { raw: Decimal::deserialize(number.raw).round().serialize() }
}

/// Asks `Decimal`'s ordering whether a number is above `Decimal::ZERO`.
/// The answer is named `decimal_positive`.
#[verifier::external_body]
fn is_positive(number: &FfiDecimal) -> (positive: bool)
    ensures
        positive == decimal_positive(number@),
{
    Decimal::deserialize(number.raw) > Decimal::ZERO
}

/// Reads a number in plain notation by `Decimal`'s `FromStr`. The result is
/// named `decimal_parsed`.
#[verifier::external_body]
fn parse_plain(text: &str) -> (number: Option<FfiDecimal>)
    ensures
        number_view(number) == decimal_parsed(text@),
{
    match text.parse::<Decimal>() {
        Ok(d) => Some(FfiDecimal { raw: d.serialize() }),
        Err(_) => None,
    }
}

/// Reads a number in scientific notation by `Decimal::from_scientific`.
/// The result is named `decimal_scientific`.
#[verifier::external_body]
fn parse_scientific(text: &str) -> (number: Option<FfiDecimal>)
    ensures
        number_view(number) == decimal_scientific(text@),
{
    match Decimal::from_scientific(text) {
        Ok(d) => Some(FfiDecimal { raw: d.serialize() }),
        Err(_) => None,
    }
}

/// How a number is made whole.
#[derive(Clone, Copy, Debug, PartialEq, Eq, Structural)]
pub enum Rounding {
    /// To the whole number next to it that is nearer to zero.
    TowardZero,
    /// To the whole number next to it that is farther from zero.
    AwayFromZero,
    /// To the nearest whole number, the even one of two equally near.
    Nearest,
}

/// `number` made whole.
pub open spec fn whole(number: Seq<u8>, rounding: Rounding) -> Seq<u8> {
    match rounding {
        Rounding::TowardZero => if decimal_positive(number) {
            decimal_floor(number)
        } else {
            decimal_ceil(number)
        },
        Rounding::AwayFromZero => if decimal_positive(number) {
            decimal_ceil(number)
        } else {
            decimal_floor(number)
        },
        Rounding::Nearest => decimal_round(number),
    }
}

/// `value` rounded to `decimals` decimal places; a negative `decimals`
/// rounds to tens, hundreds and so on. With the unit of that place, ten to
/// the power of minus `decimals`, the value is divided by the unit, made
/// whole and multiplied by the unit again. There is no result where the
/// place is beyond the 28th on either side, or where a step overflows.
pub open spec fn rounded_to(value: Seq<u8>, decimals: int, rounding: Rounding) -> Option<Seq<u8>> {
    if 0 <= decimals <= MAX_SCALE {
        let unit = unit_bytes(decimals as u32);
        match decimal_quotient(value, unit) {
            Some(scaled) => decimal_product(whole(scaled, rounding), unit),
            None => None,
        }
    } else if -(MAX_SCALE as int) <= decimals < 0 {
        let unit = unit_bytes((-decimals) as u32);
        match decimal_product(value, unit) {
            Some(scaled) => decimal_quotient(whole(scaled, rounding), unit),
            None => None,
        }
    } else {
        None
    }
}

/// The unit of the decimal place `scale`: ten to the power of minus
/// `scale`, for a place up to the 28th.
pub fn place_unit(scale: u32) -> (one: Option<FfiDecimal>)
    ensures
        number_view(one) == if scale <= MAX_SCALE {
            Some(unit_bytes(scale))
        } else {
            None
        },
{
    unit(scale)
}

/// Makes a number whole.
pub fn make_whole(number: &FfiDecimal, rounding: Rounding) -> (made: FfiDecimal)
    ensures
        made@ == whole(number@, rounding),
{
    match rounding {
        Rounding::TowardZero => if is_positive(number) {
            floor(number)
        } else {
            ceil(number)
        },
        Rounding::AwayFromZero => if is_positive(number) {
            ceil(number)
        } else {
            floor(number)
        },
        Rounding::Nearest => round(number),
    }
}

/// Rounds `value` to `decimals` decimal places.
pub fn round_with(value: FfiDecimal, decimals: i32, rounding: Rounding) -> (rounded: Option<FfiDecimal>)
    ensures
        number_view(rounded) == rounded_to(value@, decimals as int, rounding),
{
    if decimals >= 0 {
        if decimals > 28 {
            return None;
        }
        let one = match place_unit(decimals as u32) {
            Some(u) => u,
            None => {
                return None;
            },
        };
        match checked_div(&value, &one) {
            Some(scaled) => checked_mul(&make_whole(&scaled, rounding), &one),
            None => None,
        }
    } else {
        if decimals < -28 {
            return None;
        }
        let one = match place_unit((-decimals) as u32) {
            Some(u) => u,
            None => {
                return None;
            },
        };
        match checked_mul(&value, &one) {
            Some(scaled) => checked_div(&make_whole(&scaled, rounding), &one),
            None => None,
        }
    }
}

/// Rounds `value` to `decimals` decimal places, toward zero.
pub fn floor_to_decimals(value: FfiDecimal, decimals: i32) -> (rounded: Option<FfiDecimal>)
    ensures
        number_view(rounded) == rounded_to(value@, decimals as int, Rounding::TowardZero),
{
    round_with(value, decimals, Rounding::TowardZero)
}

/// Rounds `value` to `decimals` decimal places, away from zero.
pub fn ceil_to_decimals(value: FfiDecimal, decimals: i32) -> (rounded: Option<FfiDecimal>)
    ensures
        number_view(rounded) == rounded_to(value@, decimals as int, Rounding::AwayFromZero),
{
    round_with(value, decimals, Rounding::AwayFromZero)
}

/// Rounds `value` to `decimals` decimal places, to the nearest and to the
/// even one of two equally near.
pub fn round_to_decimals(value: FfiDecimal, decimals: i32) -> (rounded: Option<FfiDecimal>)
    ensures
        number_view(rounded) == rounded_to(value@, decimals as int, Rounding::Nearest),
{
    round_with(value, decimals, Rounding::Nearest)
}

/// `s` without its commas.
pub open spec fn without_commas(s: Seq<char>) -> Seq<char>
    decreases s.len(),
{
    if s.len() == 0 {
        Seq::empty()
    } else if s.last() == ',' {
        without_commas(s.drop_last())
    } else {
        without_commas(s.drop_last()).push(s.last())
    }
}

/// Takes the commas out of a text.
pub fn strip_commas(s: &str) -> (out: String)
    ensures
        out@ == without_commas(s@),
{
    let n: usize = s.unicode_len();
    let mut out = String::new();
    let mut i: usize = 0;
    assert(s@.subrange(0, 0) =~= Seq::<char>::empty());
    while i < n
        invariant
            i <= n,
            n == s@.len(),
            out@ == without_commas(s@.subrange(0, i as int)),
        decreases n - i,
    {
        let ghost next = s@.subrange(0, i + 1);
        assert(next.drop_last() =~= s@.subrange(0, i as int));
        assert(next.last() == s@[i as int]);
        if s.get_char(i) != ',' {
            let ghost before = out@;
            out.append(s.substring_char(i, i + 1));
            assert(s@.subrange(i as int, i + 1) =~= seq![s@[i as int]]);
            assert(out@ =~= before.push(s@[i as int]));
        }
        i += 1;
    }
    assert(s@.subrange(0, n as int) =~= s@);
    out
}

/// Reads a number from a text, in plain or in scientific notation. Commas
/// that group the digits are ignored. A text that is no number gives nothing.
pub fn decimal_from_string(s: &str) -> (number: Option<FfiDecimal>)
    ensures
        number_view(number) == match decimal_parsed(without_commas(s@)) {
            Some(n) => Some(n),
            None => decimal_scientific(without_commas(s@)),
        },
{
    let text = strip_commas(s);
    match parse_plain(text.as_str()) {
        Some(n) => Some(n),
        None => parse_scientific(text.as_str()),
    }
}

} // verus!
