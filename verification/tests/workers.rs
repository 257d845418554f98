//! Worker counts.

use barista_cli::daemon::workers::resolve_workers;

#[test]
fn literal_integer_passes_through() {
    assert_eq!(resolve_workers("4", 8).unwrap(), 4);
    assert_eq!(resolve_workers("1", 1).unwrap(), 1);
    assert_eq!(resolve_workers(" 12 ", 8).unwrap(), 12);
}

#[test]
fn one_c_equals_core_count() {
    assert_eq!(resolve_workers("1C", 8).unwrap(), 8);
    assert_eq!(resolve_workers("1c", 8).unwrap(), 8);
}

#[test]
fn fractional_c_rounds_up() {
    assert_eq!(resolve_workers("0.75C", 8).unwrap(), 6);
    assert_eq!(resolve_workers("0.5C", 5).unwrap(), 3);
}

#[test]
fn tiny_multiplier_clamps_to_one() {
    assert_eq!(resolve_workers("0.1C", 1).unwrap(), 1);
}

#[test]
fn two_c_doubles() {
    assert_eq!(resolve_workers("2C", 4).unwrap(), 8);
}

#[test]
fn empty_is_malformed() {
    let err = resolve_workers("", 4).unwrap_err();
    let msg = err.to_message();
    assert!(msg.contains("empty"), "msg = {msg}");
}

#[test]
fn negative_is_malformed() {
    let err = resolve_workers("-1C", 4).unwrap_err();
    assert!(err.to_message().contains("positive"));
}

#[test]
fn zero_literal_is_malformed() {
    let err = resolve_workers("0", 4).unwrap_err();
    assert!(err.to_message().contains(">= 1"));
}

#[test]
fn garbage_is_malformed() {
    let err = resolve_workers("hello", 4).unwrap_err();
    let msg = err.to_message();
    assert!(msg.contains("integer parse failed") || msg.contains("malformed"));
}

#[test]
fn the_message_quotes_the_expression() {
    let msg = resolve_workers("\"x\"C", 4).unwrap_err().to_message();
    assert!(msg.contains("\"\\\"x\\\"C\""), "msg = {msg}");
}

#[test]
fn a_refused_multiplier_is_shown_as_a_number() {
    let detail = |expr: &str| resolve_workers(expr, 4).unwrap_err().to_message();
    assert!(detail("-1C").ends_with("got -1"));
    assert!(detail("0.0C").ends_with("got 0"));
    assert!(detail("-0C").ends_with("got -0"));
    assert!(detail("-01.50C").ends_with("got -1.5"));
    assert!(detail("-2.5e3C").ends_with("got -2500"));
    assert!(detail("-5e-3C").ends_with("got -0.005"));
    assert!(detail("1e400C").ends_with("got inf"));
    assert!(detail("-InfinityC").ends_with("got -inf"));
    assert!(detail("nanC").ends_with("got NaN"));
    assert!(detail("C").ends_with("cannot parse float from empty string"));
}

#[test]
fn multiples_are_rounded_up() {
    assert_eq!(resolve_workers("0.26C", 4).unwrap(), 2);
    assert_eq!(resolve_workers("1.1C", 50).unwrap(), 55);
    assert_eq!(resolve_workers("1e1C", 3).unwrap(), 30);
}

#[test]
fn the_bounds_are_those_of_a_double() {
    let detail = |expr: &str| resolve_workers(expr, 4).unwrap_err().to_message();
    assert!(detail("2e308C").ends_with("got inf"));
    assert!(detail("1.7976931348623159e308C").ends_with("got inf"));
    assert!(detail("1e-324C").ends_with("got 0"));
    assert!(detail("2.47e-324C").ends_with("got 0"));
    assert!(detail("-1e-400C").ends_with("got -0"));
    let most = isize::MAX as f64 as usize;
    assert_eq!(resolve_workers("1.7976931348623158e308C", 4).unwrap(), most);
    assert_eq!(resolve_workers("1e20C", 1).unwrap(), most);
    assert_eq!(resolve_workers("1e9C", 2).unwrap(), 2_000_000_000);
    assert_eq!(resolve_workers("3e-324C", 4).unwrap(), 1);
    assert_eq!(resolve_workers("2.48e-324C", 4).unwrap(), 1);
    assert!(detail("1e999999999999999999999999999999999999999C").ends_with("got inf"));
    for text in ["2e308", "1.7976931348623159e308"] {
        assert!(text.parse::<f64>().unwrap().is_infinite());
    }
    for text in ["1e-324", "2.47e-324"] {
        assert!(text.parse::<f64>().unwrap() == 0.0);
    }
    assert!("2.48e-324".parse::<f64>().unwrap() > 0.0);
    assert!("1.7976931348623158e308".parse::<f64>().unwrap().is_finite());
}

fn shown(text: &str) -> (String, String) {
    let detail = resolve_workers(&format!("{text}C"), 4).unwrap_err().to_message();
    let (_, got) = detail.split_once(" got ").unwrap();
    (got.to_string(), format!("{}", text.parse::<f64>().unwrap()))
}

#[test]
fn a_refused_multiplier_is_shown_as_its_double() {
    assert_eq!(shown("-0.10000000000000000001").0, "-0.1");
    assert_eq!(shown("-9007199254740993").0, "-9007199254740992");
    assert_eq!(shown("-9007199254740995").0, "-9007199254740996");
    assert_eq!(shown("-0.30000000000000004").0, "-0.30000000000000004");
    for text in [
        "-0.10000000000000000001",
        "-1",
        "-1.0000000000000002",
        "-1.00000000000000011102230246251565",
        "-1.00000000000000011102230246251566",
        "-0.3",
        "-0.1234567890123456789",
        "-123456789012345678901234567890",
        "-9007199254740991",
        "-9007199254740992",
        "-9007199254740993",
        "-18014398509481985",
        "-4503599627370496.5",
        "-4503599627370497.5",
        "-2",
        "-3.5",
        "-0.000001",
        "-99999999999999999",
        "-1e23",
        "-9.5367431640625e-7",
        "-72057594037927936",
        "-2.98023223876953125e-8",
    ] {
        let (got, want) = shown(text);
        assert_eq!(got, want, "{text}");
    }
}

#[test]
fn the_smallest_doubles_are_told_apart() {
    for text in ["-5e-324", "-3e-324", "-1e-323", "-1.5e-323", "-9.9e-323", "-2.2250738585072011e-308"] {
        let (got, want) = shown(text);
        assert_eq!(got, want, "{text}");
    }
}

#[test]
fn the_powers_of_two_at_the_edge_are_told_apart() {
    for text in ["-2.2250738585072014e-308", "-4.450147717014403e-308", "-2.225073858507202e-308"] {
        let (got, want) = shown(text);
        assert_eq!(got, want, "{text}");
    }
}

#[test]
fn the_greatest_doubles_are_told_apart() {
    for text in [
        "-1.7976931348623157e308",
        "-1.7976931348623158e308",
        "-8.98846567431158e307",
        "-8.98846567431157e307",
        "-1e300",
        "-4.4501477170144023e200",
    ] {
        let (got, want) = shown(text);
        assert_eq!(got, want, "{text}");
    }
}
