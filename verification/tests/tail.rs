use jsonlines::tail::{
    advance, finish, has_fitting_fractions, is_decimal_digit, last_line, parsed_line,
    read_json_line, Fault, NextLine, Step, TailError, MAX_FRACTION_DIGITS,
};

fn lines(items: &[&str]) -> Vec<String> {
    items.iter().map(|s| s.to_string()).collect()
}

fn fraction(digits: usize) -> String {
    format!("0.{}", "0".repeat(digits))
}

#[test]
fn read_json_line_blank() {
    assert!(matches!(read_json_line(""), Ok(NextLine::Empty)));
    assert!(matches!(read_json_line("\n"), Ok(NextLine::Empty)));
    assert!(matches!(read_json_line(" \t\r\n"), Ok(NextLine::Empty)));
}

#[test]
fn read_json_line_writes_the_document_anew() {
    match read_json_line("  { \"a\" : [1, 2,  true] }\n") {
        Ok(NextLine::Value(text)) => assert_eq!(text, "{\"a\":[1,2,true]}"),
        other => panic!("unexpected reading: {:?}", other),
    }
    match read_json_line("\"x\"") {
        Ok(NextLine::Value(text)) => assert_eq!(text, "\"x\""),
        other => panic!("unexpected reading: {:?}", other),
    }
    match read_json_line("1.50") {
        Ok(NextLine::Value(text)) => assert_eq!(text, "1.50"),
        other => panic!("unexpected reading: {:?}", other),
    }
}

#[test]
fn read_json_line_invalid() {
    match read_json_line("{\"a\":}\n") {
        Err(TailError::InvalidJson(fault)) => {
            assert_eq!(fault, Fault::UnexpectedCharacter { ch: '}', line: 1, column: 6 })
        }
        other => panic!("unexpected reading: {:?}", other),
    }
    match read_json_line("{\"a\":1") {
        Err(TailError::InvalidJson(fault)) => assert_eq!(fault, Fault::UnexpectedEndOfJson),
        other => panic!("unexpected reading: {:?}", other),
    }
}

#[test]
fn read_json_line_nested_too_deep() {
    let deep = "[".repeat(600);
    match read_json_line(&deep) {
        Err(TailError::InvalidJson(fault)) => assert_eq!(fault, Fault::ExceededDepthLimit),
        other => panic!("unexpected reading: {:?}", other),
    }
}

#[test]
fn digits() {
    assert!(is_decimal_digit('0'));
    assert!(is_decimal_digit('9'));
    assert!(!is_decimal_digit('/'));
    assert!(!is_decimal_digit(':'));
    assert!(!is_decimal_digit('a'));
    assert!(!is_decimal_digit('٣'));
}

#[test]
fn fractions_up_to_the_limit_fit() {
    assert_eq!(MAX_FRACTION_DIGITS, 32767);
    assert!(has_fitting_fractions(""));
    assert!(has_fitting_fractions("."));
    assert!(has_fitting_fractions("1.5"));
    assert!(has_fitting_fractions(&"9".repeat(40000)));
    assert!(has_fitting_fractions(&fraction(MAX_FRACTION_DIGITS)));
    assert!(has_fitting_fractions(&format!("{}x", fraction(MAX_FRACTION_DIGITS))));
    assert!(has_fitting_fractions(&format!("[{},{}]", fraction(20000), fraction(20000))));
}

#[test]
fn longer_fractions_do_not_fit() {
    assert!(!has_fitting_fractions(&fraction(MAX_FRACTION_DIGITS + 1)));
    assert!(!has_fitting_fractions(&fraction(40000)));
    assert!(!has_fitting_fractions(&format!("[1.5,{}]", fraction(MAX_FRACTION_DIGITS + 1))));
    assert!(!has_fitting_fractions(&format!("..{}e1", fraction(MAX_FRACTION_DIGITS + 1))));
}

#[test]
fn read_json_line_with_the_longest_fraction() {
    match read_json_line(&fraction(MAX_FRACTION_DIGITS)) {
        Ok(NextLine::Value(text)) => assert_eq!(text, "0"),
        other => panic!("unexpected reading: {:?}", other),
    }
}

#[test]
fn read_json_line_with_too_long_a_fraction() {
    assert!(matches!(
        read_json_line(&fraction(MAX_FRACTION_DIGITS + 1)),
        Err(TailError::LongFraction)
    ));
    assert!(matches!(
        read_json_line(&format!("  {}\n", fraction(40000))),
        Err(TailError::LongFraction)
    ));
}

#[test]
fn parsed_line_maps_both_outcomes() {
    match parsed_line(Ok("[1]".to_string())) {
        Ok(NextLine::Value(text)) => assert_eq!(text, "[1]"),
        other => panic!("unexpected reading: {:?}", other),
    }
    match parsed_line(Err(Fault::ExceededDepthLimit)) {
        Err(TailError::InvalidJson(fault)) => assert_eq!(fault, Fault::ExceededDepthLimit),
        other => panic!("unexpected reading: {:?}", other),
    }
}

#[test]
fn finish_gives_the_last_or_the_error() {
    assert_eq!(finish(NextLine::Value("{}".to_string())).unwrap(), "{}");
    assert!(matches!(finish(NextLine::Empty), Err(TailError::Empty)));
}

#[test]
fn advance_steps() {
    match advance(NextLine::Empty, "{\"a\": 1}\n") {
        Step::More(NextLine::Value(text)) => assert_eq!(text, "{\"a\":1}"),
        other => panic!("unexpected step: {:?}", other),
    }
    match advance(NextLine::Value("1".to_string()), "\n") {
        Step::More(NextLine::Value(text)) => assert_eq!(text, "1"),
        other => panic!("unexpected step: {:?}", other),
    }
    assert!(matches!(advance(NextLine::Empty, ""), Step::More(NextLine::Empty)));
    match advance(NextLine::Value("1".to_string()), "nope") {
        Step::Done(TailError::InvalidJson(fault)) => {
            assert_eq!(fault, Fault::UnexpectedCharacter { ch: 'o', line: 1, column: 2 })
        }
        other => panic!("unexpected step: {:?}", other),
    }
    assert!(matches!(
        advance(NextLine::Value("1".to_string()), &fraction(40000)),
        Step::Done(TailError::LongFraction)
    ));
}

#[test]
fn scenario_tail_answers_with_the_last_line() {
    assert_eq!(last_line(&lines(&["{\"a\":1}\n", "{\"b\":2}\n"])).unwrap(), "{\"b\":2}");
}

#[test]
fn scenario_tail_of_empty_input() {
    assert!(matches!(last_line(&Vec::new()), Err(TailError::Empty)));
    assert!(matches!(last_line(&lines(&[""])), Err(TailError::Empty)));
    assert!(matches!(last_line(&lines(&["\n", "  \n"])), Err(TailError::Empty)));
}

#[test]
fn scenario_tail_of_invalid_line() {
    match last_line(&lines(&["{\"a\":1}\n", "{oops\n", "{\"b\":2}\n"])) {
        Err(TailError::InvalidJson(fault)) => {
            assert_eq!(fault, Fault::UnexpectedCharacter { ch: 'o', line: 1, column: 2 })
        }
        other => panic!("unexpected answer: {:?}", other),
    }
    assert!(matches!(last_line(&lines(&["not json\n"])), Err(TailError::InvalidJson(_))));
}

#[test]
fn tail_passes_over_blank_lines() {
    assert_eq!(last_line(&lines(&["1\n", "\n", "2\n"])).unwrap(), "2");
    assert_eq!(last_line(&lines(&["\n", "2\n"])).unwrap(), "2");
    assert_eq!(last_line(&lines(&["1\n", "\n", "  \n"])).unwrap(), "1");
}

#[test]
fn tail_rejects_an_invalid_line_after_a_blank_one() {
    assert!(matches!(
        last_line(&lines(&["1\n", "  \n", "nope\n"])),
        Err(TailError::InvalidJson(_))
    ));
}

#[test]
fn tail_rejects_too_long_a_fraction() {
    assert!(matches!(
        last_line(&lines(&["1\n", &fraction(MAX_FRACTION_DIGITS + 1)])),
        Err(TailError::LongFraction)
    ));
}
