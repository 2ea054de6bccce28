use lc3dbg::helper::{
    condition_text, next_key, parse_usize_with_prefix, read_answer, Answer, KeyStep, END_OF_INPUT,
};
use lc3dbg::numeral::to_upper_hex;

#[test]
fn number_in_decimal() {
    assert_eq!(parse_usize_with_prefix("12288"), Ok(12288));
    assert_eq!(parse_usize_with_prefix("0"), Ok(0));
    assert_eq!(parse_usize_with_prefix("+7"), Ok(7));
    assert_eq!(parse_usize_with_prefix("007"), Ok(7));
}

#[test]
fn number_in_hexadecimal() {
    assert_eq!(parse_usize_with_prefix("x3000"), Ok(0x3000));
    assert_eq!(parse_usize_with_prefix("xff"), Ok(255));
    assert_eq!(parse_usize_with_prefix("xFF"), Ok(255));
    assert_eq!(parse_usize_with_prefix("x+1f"), Ok(31));
    assert_eq!(parse_usize_with_prefix("x0"), Ok(0));
}

#[test]
fn largest_number() {
    assert_eq!(parse_usize_with_prefix(&format!("{}", usize::MAX)), Ok(usize::MAX));
    assert_eq!(parse_usize_with_prefix(&format!("x{:X}", usize::MAX)), Ok(usize::MAX));
}

#[test]
fn malformed_number() {
    assert!(parse_usize_with_prefix("").is_err());
    assert!(parse_usize_with_prefix("x").is_err());
    assert!(parse_usize_with_prefix("+").is_err());
    assert!(parse_usize_with_prefix("-1").is_err());
    assert!(parse_usize_with_prefix("ff").is_err());
    assert!(parse_usize_with_prefix("X10").is_err());
    assert!(parse_usize_with_prefix("0x10").is_err());
    assert!(parse_usize_with_prefix("xG").is_err());
    assert!(parse_usize_with_prefix(" 1").is_err());
    assert!(parse_usize_with_prefix("1_000").is_err());
    assert!(parse_usize_with_prefix("x-1").is_err());
}

#[test]
fn number_too_large() {
    assert!(parse_usize_with_prefix("340282366920938463463374607431768211456").is_err());
    assert!(parse_usize_with_prefix("x1FFFFFFFFFFFFFFFFFFFFFFFFFFFFFFFF").is_err());
}

#[test]
fn number_outside_ascii() {
    assert!(parse_usize_with_prefix("\u{e9}").is_err());
    assert!(parse_usize_with_prefix("\u{663}").is_err());
    assert!(parse_usize_with_prefix("x\u{ac00}").is_err());
}

#[test]
fn ascii_key_is_handed_on() {
    assert_eq!(next_key('a'), KeyStep { warn: false, byte: Some(97) });
    assert_eq!(next_key('\n'), KeyStep { warn: false, byte: Some(10) });
    assert_eq!(next_key('\u{7f}'), KeyStep { warn: false, byte: Some(127) });
}

#[test]
fn end_of_input_key() {
    assert_eq!(END_OF_INPUT, 23);
    assert_eq!(next_key('\u{17}'), KeyStep { warn: false, byte: None });
}

#[test]
fn key_outside_ascii_warns_and_is_handed_on() {
    assert_eq!(next_key('\u{e9}'), KeyStep { warn: true, byte: Some(0xE9) });
    assert_eq!(next_key('\u{80}'), KeyStep { warn: true, byte: Some(0x80) });
    assert_eq!(next_key('\u{ac00}'), KeyStep { warn: true, byte: Some(0x00) });
    assert_eq!(next_key('\u{1f600}'), KeyStep { warn: true, byte: Some(0x00) });
}

#[test]
fn key_outside_ascii_with_the_low_byte_of_end_of_input() {
    assert_eq!(next_key('\u{117}'), KeyStep { warn: true, byte: None });
}

#[test]
fn condition_codes_as_text() {
    assert_eq!(condition_text(true, false), "n__");
    assert_eq!(condition_text(true, true), "n__");
    assert_eq!(condition_text(false, true), "_z_");
    assert_eq!(condition_text(false, false), "__p");
}

#[test]
fn hexadecimal_in_upper_case() {
    assert_eq!(to_upper_hex(0), "0");
    assert_eq!(to_upper_hex(5), "5");
    assert_eq!(to_upper_hex(10), "A");
    assert_eq!(to_upper_hex(15), "F");
    assert_eq!(to_upper_hex(16), "10");
    assert_eq!(to_upper_hex(255), "FF");
    assert_eq!(to_upper_hex(0x3000), "3000");
    assert_eq!(to_upper_hex(0xABCDEF), "ABCDEF");
    assert_eq!(to_upper_hex(usize::MAX), format!("{:X}", usize::MAX));
}

#[test]
fn answers_that_confirm() {
    for text in ["y", "yes", "d", "dd", "ㅇ", "ㅇㅇ", "예", "네"] {
        assert_eq!(read_answer(text), Answer::Yes);
    }
}

#[test]
fn answers_that_decline() {
    for text in [
        "n",
        "no",
        "s",
        "ss",
        "ㄴ",
        "ㄴㄴ",
        "아니오",
        "아뇨",
    ] {
        assert_eq!(read_answer(text), Answer::No);
    }
}

#[test]
fn answers_that_are_neither() {
    for text in ["", "Y", "yes ", "ok", "ddd", "ㅇㄴ", "nope"] {
        assert_eq!(read_answer(text), Answer::Unclear);
    }
}
