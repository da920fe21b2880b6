use crate::error::Error;
use bigdecimal::num_bigint::Sign;
use bigdecimal::BigDecimal;
use std::str::FromStr;
use vstd::prelude::*;

verus! {

/// The number of fractional digits that an amount keeps.
pub const FRACTION_DIGITS: i64 = 4;

/// A decimal number as mathematical values: it stands for `magnitude / 10^scale`,
/// negated where `negative` is set.
pub struct DecimalView {
    pub negative: bool,
    pub magnitude: nat,
    pub scale: int,
}

/// A decimal number of any size: a sign, the bytes of its unscaled magnitude
/// with the most significant byte first, and the number of digits that stand
/// behind the decimal point (negative where the number ends in zeros that the
/// magnitude leaves out).
pub struct Decimal {
    negative: bool,
    magnitude: Vec<u8>,
    scale: i64,
}

/// The number that `bytes` spell in base 256, most significant byte first.
pub open spec fn be_value(bytes: Seq<u8>) -> nat
    decreases bytes.len(),
{
    if bytes.len() == 0 {
        0
    } else {
        be_value(bytes.drop_last()) * 256 + bytes.last() as nat
    }
}

impl View for Decimal {
    type V = DecimalView;

    closed spec fn view(&self) -> DecimalView {
        DecimalView {
            negative: self.negative,
            magnitude: be_value(self.magnitude@),
            scale: self.scale as int,
        }
    }
}

impl Decimal {
    pub fn new(negative: bool, magnitude: Vec<u8>, scale: i64) -> (decimal: Decimal)
        ensures
            decimal@ == (DecimalView {
                negative,
                magnitude: be_value(magnitude@),
                scale: scale as int,
            }),
    {
        Decimal { negative, magnitude, scale }
    }
}

/// What `BigDecimal::from_str` makes of `text`: `None` where it reports an
/// error, else the sign, unscaled magnitude and scale of the number it returns.
pub uninterp spec fn decimal_literal(text: Seq<char>) -> Option<DecimalView>;

/// Reads `text` with `BigDecimal::from_str` and takes the number apart with
/// `BigDecimal::into_bigint_and_exponent` and `BigInt::to_bytes_be`. Nothing is
/// proved of the grammar: the contract only gives the outcome its name,
/// `decimal_literal`.
#[verifier::external_body]
fn read_decimal(text: &str) -> (decimal: Option<Decimal>)
    ensures
        match decimal {
            Some(d) => decimal_literal(text@) == Some(d@),
            None => decimal_literal(text@) is None,
        },
{
    match BigDecimal::from_str(text) {
        Ok(number) => {
            let (unscaled, scale) = number.into_bigint_and_exponent();
            let (sign, magnitude) = unscaled.to_bytes_be();
            let negative = match sign {
                Sign::Minus => true,
                Sign::NoSign => false,
                Sign::Plus => false,
            };
            Some(Decimal { negative, magnitude, scale })
        },
        Err(_) => None,
    }
}

/// Ten to the power `exponent`.
pub open spec fn pow10(exponent: nat) -> nat
    decreases exponent,
{
    if exponent == 0 {
        1
    } else {
        10 * pow10((exponent - 1) as nat)
    }
}

/// The amount, in ten-thousandths, that a decimal number stands for. There is
/// none where the number is below zero, has more than four digits behind the
/// decimal point, or is too large for `u128`.
pub open spec fn scaled_amount(decimal: DecimalView) -> Option<u128> {
    if decimal.negative && decimal.magnitude != 0 {
        None
    } else if decimal.scale > FRACTION_DIGITS {
        None
    } else if decimal.magnitude * pow10((FRACTION_DIGITS - decimal.scale) as nat) > u128::MAX {
        None
    } else {
        Some((decimal.magnitude * pow10((FRACTION_DIGITS - decimal.scale) as nat)) as u128)
    }
}

proof fn lemma_pow10_grows(low: nat, high: nat)
    requires
        low <= high,
    ensures
        1 <= pow10(low) <= pow10(high),
    decreases high,
{
    if low == 0 {
        if high > 0 {
            lemma_pow10_grows(0, (high - 1) as nat);
        }
    } else {
        lemma_pow10_grows((low - 1) as nat, (high - 1) as nat);
    }
}

proof fn lemma_be_value_of_prefix(bytes: Seq<u8>, len: int)
    requires
        0 <= len <= bytes.len(),
    ensures
        be_value(bytes.take(len)) <= be_value(bytes),
    decreases bytes.len() - len,
{
    if len == bytes.len() {
        assert(bytes.take(len) =~= bytes);
    } else {
        assert(bytes.take(len + 1).drop_last() =~= bytes.take(len));
        lemma_be_value_of_prefix(bytes, len + 1);
    }
}

/// The number that `bytes` spell, where it fits in `u128`.
fn magnitude_of(bytes: &Vec<u8>) -> (magnitude: Option<u128>)
    ensures
        magnitude == (if be_value(bytes@) <= u128::MAX {
            Some(be_value(bytes@) as u128)
        } else {
            None
        }),
{
    let mut value: u128 = 0;
    let mut read: usize = 0;
    while read < bytes.len()
        invariant
            read <= bytes.len(),
            value == be_value(bytes@.take(read as int)),
        decreases bytes.len() - read,
    {
        let byte = bytes[read];
        proof {
            assert(bytes@.take(read + 1).drop_last() =~= bytes@.take(read as int));
            lemma_be_value_of_prefix(bytes@, read + 1);
        }
        let shifted = match value.checked_mul(256) {
            Some(shifted) => shifted,
            None => {
                return None;
            },
        };
        value = match shifted.checked_add(byte as u128) {
            Some(sum) => sum,
            None => {
                return None;
            },
        };
        read += 1;
    }
    proof {
        assert(bytes@.take(read as int) =~= bytes@);
    }
    Some(value)
}

/// Turns a decimal number into an amount: the number times ten thousand, where
/// that is a whole number in the range of `u128`.
pub fn amount_from_decimal(decimal: &Decimal) -> (amount: Option<u128>)
    ensures
        amount == scaled_amount(decimal@),
{
    if decimal.scale > FRACTION_DIGITS {
        return None;
    }
    let steps: i128 = FRACTION_DIGITS as i128 - decimal.scale as i128;
    proof {
        lemma_pow10_grows(0, steps as nat);
    }
    let magnitude = match magnitude_of(&decimal.magnitude) {
        Some(magnitude) => magnitude,
        None => {
            assert(decimal@.magnitude * pow10(steps as nat) >= decimal@.magnitude)
                by (nonlinear_arith)
                requires
                    pow10(steps as nat) >= 1,
            ;
            return None;
        },
    };
    if magnitude == 0 {
        assert(0 * pow10(steps as nat) == 0);
        return Some(0);
    }
    if decimal.negative {
        return None;
    }
    let mut amount = magnitude;
    let mut done: i128 = 0;
    assert(magnitude * pow10(0) == magnitude);
    while done < steps
        invariant
            0 <= done <= steps,
            steps == FRACTION_DIGITS - decimal@.scale,
            !decimal@.negative,
            magnitude == decimal@.magnitude,
            amount == magnitude * pow10(done as nat),
        decreases steps - done,
    {
        proof {
            lemma_pow10_grows((done + 1) as nat, steps as nat);
            assert(magnitude * pow10((done + 1) as nat) == amount * 10) by (nonlinear_arith)
                requires
                    amount == magnitude * pow10(done as nat),
                    pow10((done + 1) as nat) == 10 * pow10(done as nat),
            ;
            assert(magnitude * pow10((done + 1) as nat) <= magnitude * pow10(steps as nat))
                by (nonlinear_arith)
                requires
                    pow10((done + 1) as nat) <= pow10(steps as nat),
            ;
        }
        amount = match amount.checked_mul(10) {
            Some(next) => next,
            None => {
                return None;
            },
        };
        done += 1;
    }
    Some(amount)
}

/// The amount that `text` stands for: the number that `BigDecimal::from_str`
/// reads from it, in ten-thousandths. There is none where the text is no
/// number, or the number is no amount.
pub open spec fn amount_of_text(text: Seq<char>) -> Option<u128> {
    match decimal_literal(text) {
        Some(decimal) => scaled_amount(decimal),
        None => None,
    }
}

/// Reads an amount. A text that stands for none is handed back in the error.
pub fn parse_amount(text: &str) -> (amount: Result<u128, Error>)
    ensures
        match amount {
            Ok(value) => amount_of_text(text@) == Some(value),
            Err(Error::InvalidAmount(refused)) => amount_of_text(text@) is None && refused@
                == text@,
            Err(_) => false,
        },
{
    let parsed = match read_decimal(text) {
        Some(decimal) => amount_from_decimal(&decimal),
        None => None,
    };
    match parsed {
        Some(value) => Ok(value),
        None => Err(Error::InvalidAmount(text.to_owned())),
    }
}

/// Reads the amount column of a record: a missing or empty field is no
/// amount, any other text has to stand for one.
pub fn amount_field(field: Option<&str>) -> (amount: Result<Option<u128>, Error>)
    ensures
        match field {
            Some(text) if text@.len() > 0 => match amount {
                Ok(value) => value is Some && value == amount_of_text(text@),
                Err(Error::InvalidAmount(refused)) => amount_of_text(text@) is None && refused@
                    == text@,
                Err(_) => false,
            },
            _ => amount == Ok::<Option<u128>, Error>(None),
        },
{
    match field {
        Some(text) => {
            if text.is_empty() {
                Ok(None)
            } else {
                match parse_amount(text) {
                    Ok(value) => Ok(Some(value)),
                    Err(error) => Err(error),
                }
            }
        },
        None => Ok(None),
    }
}

/// The character of a decimal digit.
pub open spec fn digit(value: nat) -> char
    recommends
        value < 10,
{
    ('0' as nat + value) as char
}

/// The decimal digits of `number`, without leading zeros.
pub open spec fn whole_text(number: nat) -> Seq<char>
    decreases number,
{
    if number < 10 {
        seq![digit(number)]
    } else {
        whole_text(number / 10).push(digit(number % 10))
    }
}

/// The digits behind the decimal point for `fraction` ten-thousandths: four
/// digits, without the zeros at their end, but one digit at least.
pub open spec fn fraction_text(fraction: nat) -> Seq<char>
    recommends
        fraction < 10_000,
{
    let digits = seq![
        digit(fraction / 1000),
        digit(fraction / 100 % 10),
        digit(fraction / 10 % 10),
        digit(fraction % 10),
    ];
    if fraction % 1000 == 0 {
        digits.take(1)
    } else if fraction % 100 == 0 {
        digits.take(2)
    } else if fraction % 10 == 0 {
        digits.take(3)
    } else {
        digits
    }
}

/// An amount as decimal text: the whole part, a point, and the fraction.
pub open spec fn amount_text(amount: nat) -> Seq<char> {
    whole_text(amount / 10_000) + seq!['.'] + fraction_text(amount % 10_000)
}

fn digit_str(value: u8) -> (text: &'static str)
    requires
        value < 10,
    ensures
        text@ == seq![digit(value as nat)],
{
    proof {
        reveal_strlit("0");
        reveal_strlit("1");
        reveal_strlit("2");
        reveal_strlit("3");
        reveal_strlit("4");
        reveal_strlit("5");
        reveal_strlit("6");
        reveal_strlit("7");
        reveal_strlit("8");
        reveal_strlit("9");
    }
    let text = match value {
        0 => "0",
        1 => "1",
        2 => "2",
        3 => "3",
        4 => "4",
        5 => "5",
        6 => "6",
        7 => "7",
        8 => "8",
        _ => "9",
    };
    assert(text@ =~= seq![digit(value as nat)]);
    text
}

fn append_whole(text: &mut String, number: u128)
    ensures
        final(text)@ == old(text)@ + whole_text(number as nat),
    decreases number,
{
    if number >= 10 {
        append_whole(text, number / 10);
    }
    text.append(digit_str((number % 10) as u8));
    assert(final(text)@ =~= old(text)@ + whole_text(number as nat));
}

/// Writes an amount as decimal text, such as `0.0`, `2.5` or `10.0001`.
pub fn amount_to_string(amount: u128) -> (text: String)
    ensures
        text@ == amount_text(amount as nat),
{
    let whole = amount / 10_000;
    let fraction = amount % 10_000;
    let mut text = String::new();
    append_whole(&mut text, whole);
    proof {
        reveal_strlit(".");
    }
    text.append(".");
    text.append(digit_str((fraction / 1000) as u8));
    if fraction % 1000 != 0 {
        text.append(digit_str((fraction / 100 % 10) as u8));
        if fraction % 100 != 0 {
            text.append(digit_str((fraction / 10 % 10) as u8));
            if fraction % 10 != 0 {
                text.append(digit_str((fraction % 10) as u8));
            }
        }
    }
    assert(text@ =~= amount_text(amount as nat));
    text
}

} // verus!
