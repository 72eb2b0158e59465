//! The temperature sensor's raw text.
//!
//! The sensor gives its reading as decimal text in thousandths of a degree
//! Celsius, with whitespace around it, a line feed at the least. The
//! controller works in whole degrees; the fraction is cut off.

use crate::decimal::{
    decimal_text, lemma_decimal_text_digits, lemma_parse_decimal_text, parse_bounded,
    parse_decimal,
};
use crate::text::{chars_of, trim, trim_bounds};
use vstd::prelude::*;
use vstd::slice::slice_subrange;

verus! {

/// The whole degrees in a reading of thousandths of a degree.
pub open spec fn whole_degrees(millidegrees: nat) -> nat {
    millidegrees / 1000
}

/// The temperature in whole degrees that the sensor's text denotes, if the
/// text between the surrounding whitespace is a number that fits 64 bits.
pub open spec fn temperature_of(raw: Seq<char>) -> Option<nat> {
    match parse_decimal(trim(raw), u64::MAX as nat) {
        Some(millidegrees) => Some(whole_degrees(millidegrees)),
        None => None,
    }
}

/// The reason why the sensor's text is no reading: without the whitespace
/// around it, it is not a number, or the number does not fit 64 bits.
#[derive(Clone, Copy, Debug, PartialEq, Eq)]
pub struct SensorDataError;

impl SensorDataError {
    /// A description of the failure, for a person to read.
    pub fn message(&self) -> (text: String)
        ensures
            text@ == "Sensor reading is not a non-negative integer"@,
    {
        "Sensor reading is not a non-negative integer".to_owned()
    }
}

/// Converts a reading in thousandths of a degree to whole degrees.
pub fn degrees_from_millidegrees(millidegrees: u64) -> (degrees: u64)
    ensures
        degrees == whole_degrees(millidegrees as nat),
{
    millidegrees / 1000
}

/// Reads the temperature in whole degrees Celsius from the sensor's text.
pub fn parse_temperature(raw: &str) -> (parsed: Result<u64, SensorDataError>)
    ensures
        parsed == match temperature_of(raw@) {
            Some(degrees) => Ok::<u64, SensorDataError>(degrees as u64),
            None => Err(SensorDataError),
        },
{
    let text = chars_of(raw);
    let (from, to) = trim_bounds(text.as_slice());
    let number = slice_subrange(text.as_slice(), from, to);
    match parse_bounded(number, u64::MAX) {
        Some(millidegrees) => Ok(degrees_from_millidegrees(millidegrees)),
        None => Err(SensorDataError),
    }
}

/// What the sensor writes is read back: a number of thousandths of a degree
/// in its shortest decimal form, alone or ended by a line feed, denotes the
/// whole degrees in that number.
pub proof fn lemma_temperature_of_reading(millidegrees: nat)
    requires
        millidegrees <= u64::MAX,
    ensures
        temperature_of(decimal_text(millidegrees)) == Some(whole_degrees(millidegrees)),
        temperature_of(decimal_text(millidegrees) + seq!['\n']) == Some(
            whole_degrees(millidegrees),
        ),
{
    let digits = decimal_text(millidegrees);
    let line = digits + seq!['\n'];
    lemma_decimal_text_digits(millidegrees);
    lemma_parse_decimal_text(millidegrees, u64::MAX as nat);
    assert(line.drop_last() =~= digits);
}

} // verus!
