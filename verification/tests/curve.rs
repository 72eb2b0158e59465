use fan_control::curve::{Curve, CurveParsingError};

fn parse_with_std(s: &str) -> Option<[u8; 10]> {
    let mut values = [0u8; 10];
    let mut count = 0;
    for line in s.lines() {
        if count >= 10 {
            return None;
        }
        values[count] = line.parse().ok()?;
        count += 1;
    }
    if count != 10 {
        return None;
    }
    Some(values)
}

fn ten_lines(values: &[u8; 10]) -> String {
    let mut text = String::new();
    for (i, value) in values.iter().enumerate() {
        if i > 0 {
            text.push('\n');
        }
        text.push_str(&format!("{}", value));
    }
    text
}

#[test]
fn normalize_maps_zero_half_and_full() {
    let curve = Curve([0, 50, 100, 0, 50, 100, 0, 50, 100, 0]).normalize();
    assert_eq!(curve.0, [0, 127, 254, 0, 127, 254, 0, 127, 254, 0]);
}

#[test]
fn normalize_rounds_to_nearest() {
    // 1 -> 2.54, 2 -> 5.08, 24 -> 60.96, 25 -> 63.5, 49 -> 124.46, 51 -> 129.54,
    // 75 -> 190.5, 98 -> 248.92, 99 -> 251.46, 100 -> 254
    let curve = Curve([1, 2, 24, 25, 49, 51, 75, 98, 99, 100]).normalize();
    assert_eq!(curve.0, [3, 5, 61, 64, 124, 130, 191, 249, 251, 254]);
}

#[test]
fn normalize_keeps_percentages_within_the_duty_range() {
    let mut previous = 0u8;
    for raw in 0..=100u8 {
        let scaled = Curve([raw; 10]).normalize().0;
        let expected = ((raw as u32 * 254 + 50) / 100) as u8;
        assert_eq!(scaled, [expected; 10]);
        assert!(scaled[0] <= 254);
        assert!(scaled[0] >= previous);
        previous = scaled[0];
    }
}

#[test]
fn normalize_saturates_above_one_hundred() {
    let curve = Curve([101, 102, 128, 150, 200, 254, 255, 100, 0, 50]).normalize();
    assert_eq!(curve.0, [255, 255, 255, 255, 255, 255, 255, 254, 0, 127]);
}

#[test]
fn normalize_leaves_its_argument_unchanged() {
    let raw = Curve([10, 20, 30, 40, 50, 60, 70, 80, 90, 100]);
    let scaled = raw.normalize();
    assert_eq!(raw.0, [10, 20, 30, 40, 50, 60, 70, 80, 90, 100]);
    assert_eq!(scaled.0, [25, 51, 76, 102, 127, 152, 178, 203, 229, 254]);
}

#[test]
fn apply_bucket_boundaries() {
    let curve = Curve([10, 11, 12, 13, 14, 15, 16, 17, 18, 19]);
    assert_eq!(curve.apply(9), curve.apply(0));
    assert_eq!(curve.apply(0), 10);
    assert_eq!(curve.apply(10), 11);
    assert_eq!(curve.apply(89), 18);
    assert_eq!(curve.apply(90), 19);
    assert_eq!(curve.apply(1000), 19);
    assert_eq!(curve.apply(90), curve.apply(1000));
    assert_eq!(curve.apply(u64::MAX), 19);
}

#[test]
fn apply_covers_every_bucket() {
    let curve = Curve([10, 11, 12, 13, 14, 15, 16, 17, 18, 19]);
    for temp in 0..200u64 {
        let bucket = if temp / 10 < 9 { temp / 10 } else { 9 };
        assert_eq!(curve.apply(temp), 10 + bucket as u8);
    }
    for bucket in 0..9u64 {
        assert_eq!(curve.apply(10 * bucket), 10 + bucket as u8);
        assert_eq!(curve.apply(10 * bucket + 9), 10 + bucket as u8);
    }
}

#[test]
fn default_curve_is_half_speed_then_full_speed() {
    let curve = Curve::default();
    assert_eq!(curve.0, [127, 127, 127, 127, 127, 127, 127, 254, 254, 254]);
    assert_eq!(curve.apply(69), 127);
    assert_eq!(curve.apply(70), 254);
}

#[test]
fn from_str_reads_ten_lines() {
    let parsed = Curve::from_str("0\n10\n20\n30\n40\n50\n60\n70\n80\n100");
    assert_eq!(parsed, Ok(Curve([0, 10, 20, 30, 40, 50, 60, 70, 80, 100])));
}

#[test]
fn parse_reads_a_curve_as_from_str_does() {
    assert_eq!("0\n10\n20\n30\n40\n50\n60\n70\n80\n100".parse(), Ok(Curve([0, 10, 20, 30, 40, 50, 60, 70, 80, 100])));
    assert_eq!("0\n10\n20\n30\n40\n50\n60\n70\n80".parse::<Curve>(), Err(CurveParsingError));
    assert_eq!("".parse::<Curve>(), Err(CurveParsingError));
}

#[test]
fn from_str_does_not_scale() {
    let parsed = Curve::from_str("50\n50\n50\n50\n50\n50\n50\n100\n100\n100\n").unwrap();
    assert_eq!(parsed.0, [50, 50, 50, 50, 50, 50, 50, 100, 100, 100]);
    assert_eq!(parsed.normalize(), Curve::default());
}

#[test]
fn from_str_takes_a_final_line_feed_and_carriage_returns() {
    let expected = Ok(Curve([1, 2, 3, 4, 5, 6, 7, 8, 9, 10]));
    assert_eq!(Curve::from_str("1\n2\n3\n4\n5\n6\n7\n8\n9\n10\n"), expected);
    assert_eq!(Curve::from_str("1\r\n2\r\n3\r\n4\r\n5\r\n6\r\n7\r\n8\r\n9\r\n10\r\n"), expected);
    assert_eq!(Curve::from_str("1\r\n2\n3\r\n4\n5\n6\n7\n8\n9\n10"), expected);
}

#[test]
fn from_str_takes_a_plus_sign_leading_zeros_and_values_up_to_255() {
    let parsed = Curve::from_str("+1\n002\n0\n+000\n255\n101\n7\n8\n9\n0000000000000000000010");
    assert_eq!(parsed, Ok(Curve([1, 2, 0, 0, 255, 101, 7, 8, 9, 10])));
}

#[test]
fn from_str_rejects_nine_lines() {
    assert_eq!(Curve::from_str("1\n2\n3\n4\n5\n6\n7\n8\n9"), Err(CurveParsingError));
    assert_eq!(Curve::from_str("1\n2\n3\n4\n5\n6\n7\n8\n9\n"), Err(CurveParsingError));
}

#[test]
fn from_str_rejects_eleven_lines() {
    assert_eq!(Curve::from_str("1\n2\n3\n4\n5\n6\n7\n8\n9\n10\n11"), Err(CurveParsingError));
    assert_eq!(Curve::from_str("1\n2\n3\n4\n5\n6\n7\n8\n9\n10\n\n"), Err(CurveParsingError));
    assert_eq!(Curve::from_str("1\n2\n3\n4\n5\n6\n7\n8\n9\n10\nx"), Err(CurveParsingError));
}

#[test]
fn from_str_rejects_a_line_that_is_no_number() {
    assert_eq!(Curve::from_str("1\n2\n3\nfour\n5\n6\n7\n8\n9\n10"), Err(CurveParsingError));
    assert_eq!(Curve::from_str("1\n2\n3\n4.5\n5\n6\n7\n8\n9\n10"), Err(CurveParsingError));
    assert_eq!(Curve::from_str("1\n2\n3\n 4\n5\n6\n7\n8\n9\n10"), Err(CurveParsingError));
    assert_eq!(Curve::from_str("1\n2\n3\n4 \n5\n6\n7\n8\n9\n10"), Err(CurveParsingError));
    assert_eq!(Curve::from_str("1\n2\n3\n+\n5\n6\n7\n8\n9\n10"), Err(CurveParsingError));
    assert_eq!(Curve::from_str("1\n2\n3\n++4\n5\n6\n7\n8\n9\n10"), Err(CurveParsingError));
    assert_eq!(Curve::from_str("1\n2\n3\n\u{664}\n5\n6\n7\n8\n9\n10"), Err(CurveParsingError));
}

#[test]
fn from_str_rejects_the_empty_text() {
    assert_eq!(Curve::from_str(""), Err(CurveParsingError));
    assert_eq!(Curve::from_str("\n"), Err(CurveParsingError));
}

#[test]
fn from_str_rejects_an_empty_line() {
    assert_eq!(Curve::from_str("1\n2\n3\n\n5\n6\n7\n8\n9\n10"), Err(CurveParsingError));
    assert_eq!(Curve::from_str("\n\n\n\n\n\n\n\n\n\n"), Err(CurveParsingError));
}

#[test]
fn from_str_rejects_a_negative_number() {
    assert_eq!(Curve::from_str("1\n2\n3\n-4\n5\n6\n7\n8\n9\n10"), Err(CurveParsingError));
    assert_eq!(Curve::from_str("1\n2\n3\n-0\n5\n6\n7\n8\n9\n10"), Err(CurveParsingError));
}

#[test]
fn from_str_rejects_a_number_above_255() {
    assert_eq!(Curve::from_str("1\n2\n3\n256\n5\n6\n7\n8\n9\n10"), Err(CurveParsingError));
    assert_eq!(
        Curve::from_str("1\n2\n3\n99999999999999999999999999\n5\n6\n7\n8\n9\n10"),
        Err(CurveParsingError)
    );
}

#[test]
fn from_str_keeps_a_carriage_return_that_ends_the_text() {
    assert_eq!(Curve::from_str("1\n2\n3\n4\n5\n6\n7\n8\n9\n10\r"), Err(CurveParsingError));
    assert_eq!(Curve::from_str("1\n2\n3\n4\r\r\n5\n6\n7\n8\n9\n10"), Err(CurveParsingError));
}

#[test]
fn from_str_agrees_with_the_standard_library() {
    let texts = [
        "",
        "\n",
        "\r\n",
        "1\n2\n3\n4\n5\n6\n7\n8\n9\n10",
        "1\n2\n3\n4\n5\n6\n7\n8\n9\n10\n",
        "1\n2\n3\n4\n5\n6\n7\n8\n9\n10\n\n",
        "1\n2\n3\n4\n5\n6\n7\n8\n9\n10\r",
        "1\n2\n3\n4\n5\n6\n7\n8\n9\n10\r\n",
        "1\r\n2\r\n3\r\n4\r\n5\r\n6\r\n7\r\n8\r\n9\r\n10",
        "1\r2\n3\n4\n5\n6\n7\n8\n9\n10\n11",
        "1\n2\n3\n4\n5\n6\n7\n8\n9",
        "1\n2\n3\n4\n5\n6\n7\n8\n9\n",
        "1\n2\n3\n4\n5\n6\n7\n8\n9\n10\n11",
        "+1\n+2\n+3\n+4\n+5\n+6\n+7\n+8\n+9\n+10",
        "-1\n2\n3\n4\n5\n6\n7\n8\n9\n10",
        "255\n255\n255\n255\n255\n255\n255\n255\n255\n255",
        "255\n255\n255\n255\n255\n255\n255\n255\n255\n256",
        "0255\n255\n255\n255\n255\n255\n255\n255\n255\n00000",
        "1\n2\n3\n4\n5\n6\n7\n8\n9\nten",
        "1 \n2\n3\n4\n5\n6\n7\n8\n9\n10",
        "\n1\n2\n3\n4\n5\n6\n7\n8\n9\n10",
        "1\n\n2\n3\n4\n5\n6\n7\n8\n9",
        "1\n2\n3\n4\n5\n6\n7\n8\n9\n1\u{660}",
        "1,2,3,4,5,6,7,8,9,10",
        "\r\n\r\n\r\n\r\n\r\n\r\n\r\n\r\n\r\n\r\n",
    ];
    for text in texts {
        let expected = parse_with_std(text).map(Curve).ok_or(CurveParsingError);
        assert_eq!(Curve::from_str(text), expected);
    }
}

#[test]
fn parse_round_trip_of_percentages() {
    let curves = [
        [0, 10, 20, 30, 40, 50, 60, 70, 80, 100],
        [100; 10],
        [0; 10],
        [50, 50, 50, 50, 50, 50, 50, 100, 100, 100],
        [1, 9, 10, 11, 19, 20, 99, 100, 0, 5],
    ];
    for values in curves {
        assert_eq!(Curve::from_str(&ten_lines(&values)), Ok(Curve(values)));
        assert_eq!(Curve::from_str(&Curve(values).to_text()), Ok(Curve(values)));
    }
}

#[test]
fn parse_round_trip_of_every_value() {
    for start in 0..=255u8 {
        let mut values = [0u8; 10];
        for (i, value) in values.iter_mut().enumerate() {
            *value = start.wrapping_add((i as u8).wrapping_mul(29));
        }
        let curve = Curve(values);
        assert_eq!(Curve::from_str(&curve.to_text()), Ok(curve));
    }
}

#[test]
fn to_text_writes_one_value_on_each_line() {
    let curve = Curve([0, 5, 10, 50, 99, 100, 101, 200, 254, 255]);
    assert_eq!(curve.to_text(), "0\n5\n10\n50\n99\n100\n101\n200\n254\n255");
    assert_eq!(curve.to_text(), ten_lines(&curve.0));
}

#[test]
fn parsing_error_describes_the_format() {
    assert_eq!(
        CurveParsingError.message(),
        "Curve must be defined as a newline-delimited list of 10 integers between 0 and 100"
    );
}
