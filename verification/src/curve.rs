//! The temperature to duty-cycle curve.
//!
//! A curve partitions the temperature axis into ten buckets and stores one
//! duty-cycle value for each. Bucket `i` covers `[10 * i, 10 * i + 10)` degrees
//! Celsius for `i` in `0..9`; the last bucket covers everything from 90 degrees
//! upwards.

use crate::decimal::{
    append_decimal, decimal_text, lemma_decimal_text_digits, lemma_parse_decimal_text,
    parse_bounded, parse_decimal,
};
use crate::lines::{
    join_lines, lemma_join_lines_push, lemma_lines_of_join, line_spans, lines_of, plain_line,
    span_texts, spans_within,
};
use crate::text::chars_of;
use vstd::prelude::*;
use vstd::slice::slice_subrange;

verus! {

/// The duty cycle that stands for a raw percentage: `raw * 254 / 100`, rounded
/// to the nearest integer and saturated at the largest 8-bit value.
pub open spec fn scaled_duty(raw: int) -> int {
    let exact = (raw * 254 + 50) / 100;
    if exact > 255 {
        255
    } else {
        exact
    }
}

/// The bucket that holds a temperature: `temp / 10`, capped at the last bucket.
pub open spec fn bucket_of(temp: int) -> int {
    if temp / 10 < 9 {
        temp / 10
    } else {
        9
    }
}

/// The values that a curve text denotes: the text must hold exactly ten
/// lines, and each line must be decimal text for a number of at most 255.
pub open spec fn parse_curve(s: Seq<char>) -> Option<Seq<u8>> {
    let lines = lines_of(s);
    if lines.len() == 10 && forall|i: int|
        0 <= i < 10 ==> (#[trigger] parse_decimal(lines[i], 255)) is Some {
        Some(Seq::new(10, |i: int| parse_decimal(lines[i], 255).unwrap() as u8))
    } else {
        None
    }
}

/// The shortest decimal text of each value, in order.
pub open spec fn value_texts(values: Seq<u8>) -> Seq<Seq<char>> {
    Seq::new(values.len(), |i: int| decimal_text(values[i] as nat))
}

/// The text that writes the given values as a curve: each value in its
/// shortest decimal form on a line of its own, a line feed between each two.
pub open spec fn curve_text(values: Seq<u8>) -> Seq<char> {
    join_lines(value_texts(values))
}

/// The duty cycles of the curve that is used when none is configured: half
/// speed below 70 degrees, full speed from there on.
pub open spec fn default_duties() -> Seq<u8> {
    seq![127u8, 127, 127, 127, 127, 127, 127, 254, 254, 254]
}

/// The reason why a text is not a curve: it does not hold exactly ten lines,
/// or one of its lines is not a number.
#[derive(Clone, Copy, Debug, PartialEq, Eq)]
pub struct CurveParsingError;

impl CurveParsingError {
    /// A description of the expected format, for a person to read.
    pub fn message(&self) -> (text: String)
        ensures
            text@ == "Curve must be defined as a newline-delimited list of 10 integers between 0 and 100"@,
    {
        "Curve must be defined as a newline-delimited list of 10 integers between 0 and 100".to_owned()
    }
}

/// Ten duty-cycle values, one for each temperature bucket.
#[derive(Clone, Copy, Debug, PartialEq, Eq)]
pub struct Curve(pub [u8; 10]);

impl View for Curve {
    type V = Seq<u8>;

    open spec fn view(&self) -> Seq<u8> {
        self.0@
    }
}

impl Curve {
    /// Scales every value from the percentage domain to the duty-cycle domain.
    ///
    /// Percentages from 0 to 100 give duty cycles from 0 to 254; a value above
    /// 100 gives 255.
    pub fn normalize(&self) -> (scaled: Self)
        ensures
            scaled@.len() == 10,
            forall|i: int| 0 <= i < 10 ==> #[trigger] scaled@[i] == scaled_duty(self@[i] as int),
            forall|i: int| 0 <= i < 10 && self@[i] <= 100 ==> #[trigger] scaled@[i] <= 254,
    {
        let mut curve = self.0;
        let mut i: usize = 0;
        while i < 10
            invariant
                0 <= i <= 10,
                forall|j: int| 0 <= j < i ==> #[trigger] curve@[j] == scaled_duty(self@[j] as int),
                forall|j: int| i <= j < 10 ==> #[trigger] curve@[j] == self@[j],
            decreases 10 - i,
        {
            let exact: u32 = (curve[i] as u32 * 254 + 50) / 100;
            curve[i] = if exact > 255 { 255u8 } else { exact as u8 };
            i += 1;
        }
        Curve(curve)
    }

    /// Reads a curve from text: exactly ten lines, each holding one number.
    ///
    /// A number is written in decimal, with nothing around it but a `+` that
    /// may lead it, and is at most 255. A text with fewer or more lines, or
    /// with a line that is no such number, is refused as a whole. The values
    /// are taken as they are written; they are not scaled.
    pub fn from_str(s: &str) -> (parsed: Result<Curve, CurveParsingError>)
        ensures
            match parse_curve(s@) {
                Some(values) => parsed matches Ok(curve) && curve@ == values,
                None => parsed is Err,
            },
    {
        let text = chars_of(s);
        let spans = line_spans(text.as_slice());
        if spans.len() != 10 {
            return Err(CurveParsingError);
        }
        let ghost lines = lines_of(s@);
        let mut curve: [u8; 10] = [0u8; 10];
        let mut i: usize = 0;
        while i < 10
            invariant
                0 <= i <= 10,
                text@ == s@,
                lines == lines_of(s@),
                spans@.len() == 10,
                spans_within(spans@, text@.len() as int),
                span_texts(text@, spans@) == lines,
                forall|j: int|
                    0 <= j < i ==> (#[trigger] parse_decimal(lines[j], 255)) == Some(
                        curve@[j] as nat,
                    ),
            decreases 10 - i,
        {
            let (from, to) = spans[i];
            assert(span_texts(text@, spans@)[i as int] == text@.subrange(from as int, to as int));
            let line = slice_subrange(text.as_slice(), from, to);
            match parse_bounded(line, 255) {
                Some(value) => {
                    curve[i] = value as u8;
                },
                None => {
                    return Err(CurveParsingError);
                },
            }
            i += 1;
        }
        Ok(Curve(curve))
    }

    /// Writes the curve as text: its ten values, one on each line.
    ///
    /// [`Curve::from_str`] reads the text back to the same curve.
    pub fn to_text(&self) -> (text: String)
        ensures
            text@ == curve_text(self@),
            parse_curve(text@) == Some(self@),
    {
        let mut text = String::new();
        let mut i: usize = 0;
        while i < 10
            invariant
                0 <= i <= 10,
                text@ == join_lines(value_texts(self@).take(i as int)),
            decreases 10 - i,
        {
            let ghost done = value_texts(self@).take(i as int);
            let ghost line = decimal_text(self@[i as int] as nat);
            assert(value_texts(self@).take(i + 1) =~= done.push(line));
            proof {
                lemma_join_lines_push(done, line);
            }
            if i > 0 {
                text.append("\n");
                proof {
                    reveal_strlit("\n");
                }
            }
            append_decimal(&mut text, self.0[i] as u64);
            i += 1;
        }
        assert(value_texts(self@).take(10) =~= value_texts(self@));
        proof {
            lemma_parse_round_trip(self@);
        }
        text
    }

    /// The duty cycle stored for the bucket that holds `temp`.
    pub fn apply(&self, temp: u64) -> (duty: u8)
        ensures
            duty == self@[bucket_of(temp as int)],
    {
        let bucket = temp / 10;
        if bucket < 9 {
            self.0[bucket as usize]
        } else {
            self.0[9]
        }
    }
}

impl std::str::FromStr for Curve {
    type Err = CurveParsingError;

    /// Reads a curve from text, as [`Curve::from_str`] does.
    fn from_str(s: &str) -> (parsed: Result<Curve, CurveParsingError>)
        ensures
            match parse_curve(s@) {
                Some(values) => parsed matches Ok(curve) && curve@ == values,
                None => parsed is Err,
            },
    {
        Curve::from_str(s)
    }
}

impl Default for Curve {
    /// The curve that is used when none is configured.
    fn default() -> (curve: Self)
        ensures
            curve@ == default_duties(),
    {
        let curve = Curve([50, 50, 50, 50, 50, 50, 50, 100, 100, 100]).normalize();
        curve
    }
}

/// Scaling keeps percentages within the duty range: a percentage from 0 to
/// 100 gives a duty cycle from 0 to 254, and a larger percentage never gives
/// a smaller duty cycle.
pub proof fn lemma_scaled_duty_bounds(raw: int, other: int)
    requires
        0 <= raw <= 100,
    ensures
        0 <= scaled_duty(raw) <= 254,
        raw <= other ==> scaled_duty(raw) <= scaled_duty(other),
{
}

/// Scaling saturates: a value above 100 gives 255, the largest value that
/// eight bits hold, whatever its size.
pub proof fn lemma_scaled_duty_saturates(raw: int)
    requires
        raw > 100,
    ensures
        scaled_duty(raw) == 255,
{
}

/// The buckets are ten degrees wide, and the last one has no upper end:
/// below 90 degrees a temperature lies in the bucket that starts at its tens,
/// from 90 degrees on it lies in the last bucket.
pub proof fn lemma_bucket_boundaries(temp: int)
    requires
        0 <= temp,
    ensures
        0 <= bucket_of(temp) <= 9,
        temp < 90 ==> 10 * bucket_of(temp) <= temp < 10 * bucket_of(temp) + 10,
        temp >= 90 ==> bucket_of(temp) == 9,
{
}

/// A warmer reading never lies in an earlier bucket.
pub proof fn lemma_bucket_monotone(cooler: int, warmer: int)
    requires
        0 <= cooler <= warmer,
    ensures
        bucket_of(cooler) <= bucket_of(warmer),
{
}

/// A text is no curve unless it holds exactly ten lines that are all numbers:
/// the empty text, a text with fewer or more lines, and a text with one line
/// that is no number of at most 255 are all refused.
pub proof fn lemma_parse_curve_rejects(s: Seq<char>, line: int)
    ensures
        s.len() == 0 ==> parse_curve(s) is None,
        lines_of(s).len() != 10 ==> parse_curve(s) is None,
        0 <= line < lines_of(s).len() && parse_decimal(lines_of(s)[line], 255) is None
            ==> parse_curve(s) is None,
{
}

/// Writing a curve and reading it back gives the same values: the text of
/// any ten values parses to exactly those values.
pub proof fn lemma_parse_round_trip(values: Seq<u8>)
    requires
        values.len() == 10,
    ensures
        parse_curve(curve_text(values)) == Some(values),
{
    let texts = value_texts(values);
    assert forall|i: int| 0 <= i < texts.len() implies plain_line(#[trigger] texts[i]) by {
        lemma_decimal_text_digits(values[i] as nat);
    }
    lemma_lines_of_join(texts);
    let lines = lines_of(curve_text(values));
    assert forall|i: int| 0 <= i < 10 implies (#[trigger] parse_decimal(lines[i], 255)) == Some(
        values[i] as nat,
    ) by {
        lemma_parse_decimal_text(values[i] as nat, 255);
    }
}

} // verus!
