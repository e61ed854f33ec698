use sensor::numtext::{
    dec_chars, hex_chars, padded_dec_chars, parse_hex_u16, parse_i16, parse_u16, parse_u32, parse_u8,
    parse_unsigned_chars, signed_dec_chars,
};
use sensor::text::{
    chars_eq, chars_of, contains_str, copy_range, ends_with_str, find_chars, is_blank,
    join_line_chars, replace_chars, split_once_str, split_words, starts_with_str,
    strip_prefixes_str, strip_suffixes_str, trim_chars,
};

fn text(v: &[char]) -> String {
    v.iter().collect()
}

#[test]
fn parses_signed_rssi() {
    assert_eq!(parse_i16(&chars_of("-67")), Some(-67));
    assert_eq!(parse_i16(&chars_of("-32768")), Some(-32768));
    assert_eq!(parse_i16(&chars_of("32768")), None);
    assert_eq!(parse_u16(&chars_of("+12")), Some(12));
}

#[test]
fn parses_unsigned_numbers_as_std_does() {
    assert_eq!(parse_u8(&chars_of("255")), Some(255));
    assert_eq!(parse_u8(&chars_of("256")), None);
    assert_eq!(parse_u8(&chars_of("")), None);
    assert_eq!(parse_u8(&chars_of("-1")), None);
    assert_eq!(parse_u8(&chars_of(" 5")), None);
    assert_eq!(parse_u32(&chars_of("000042")), Some(42));
    assert_eq!(parse_u32(&chars_of("4294967295")), Some(4294967295));
    assert_eq!(parse_u32(&chars_of("4294967296")), None);
    assert_eq!(parse_hex_u16(&chars_of("0040")), Some(0x40));
    assert_eq!(parse_hex_u16(&chars_of("fFfF")), Some(0xffff));
    assert_eq!(parse_hex_u16(&chars_of("10000")), None);
    assert_eq!(parse_unsigned_chars(&chars_of("1f"), 16, 100), Some(31));
    assert_eq!(parse_unsigned_chars(&chars_of("1f"), 10, 100), None);
    assert_eq!(parse_i16(&chars_of("-")), None);
    assert_eq!(parse_i16(&chars_of("+")), None);
}

#[test]
fn formats_numbers() {
    assert_eq!(text(&dec_chars(0)), "0");
    assert_eq!(text(&dec_chars(1234567)), "1234567");
    assert_eq!(text(&padded_dec_chars(7, 4)), "0007");
    assert_eq!(text(&padded_dec_chars(12345, 4)), "12345");
    assert_eq!(text(&padded_dec_chars(3, 6)), "000003");
    assert_eq!(text(&signed_dec_chars(-30)), "-30");
    assert_eq!(text(&signed_dec_chars(i64::MIN)), "-9223372036854775808");
    assert_eq!(text(&hex_chars(&[0x00, 0xab, 0x0f, 0xff])), "00ab0fff");
}

#[test]
fn trims_and_splits_like_std() {
    let s = chars_of("  \t approve   INC-0001 \n");
    assert_eq!(text(&trim_chars(&s)), "approve   INC-0001");
    let words = split_words(&s);
    let words: Vec<String> = words.iter().map(|w| text(w)).collect();
    assert_eq!(words, vec!["approve".to_string(), "INC-0001".to_string()]);
    assert!(split_words(&chars_of(" \u{a0}\u{3000} ")).is_empty());
    assert!(is_blank(&chars_of("\u{2003}\r\n")));
    assert!(!is_blank(&chars_of(" x ")));
}

#[test]
fn searches_like_std() {
    let s = chars_of("Name (complete): Pixel 7");
    assert_eq!(find_chars(&s, &chars_of("complete")), Some(6));
    assert_eq!(find_chars(&s, &chars_of("absent")), None);
    assert!(contains_str(&s, "Pixel"));
    assert!(starts_with_str(&s, "Name ("));
    assert!(ends_with_str(&s, "7"));
    assert!(!ends_with_str(&s, "8"));
    let (a, b) = split_once_str(&s, ":").unwrap();
    assert_eq!(text(&a), "Name (complete)");
    assert_eq!(text(&b), " Pixel 7");
    assert!(split_once_str(&s, "|").is_none());
    assert!(chars_eq(&copy_range(&s, 0, 4), &chars_of("Name")));
}

#[test]
fn replaces_and_strips_like_std() {
    let s = chars_of("aaa-aa");
    assert_eq!(text(&replace_chars(&s, &chars_of("aa"), &chars_of("b"))), "ba-b");
    assert_eq!(text(&strip_prefixes_str(&chars_of("BT_EVT_BT_EVT_7"), "BT_EVT_")), "7");
    assert_eq!(text(&strip_suffixes_str(&chars_of("7.json.json"), ".json")), "7");
    let lines = vec![chars_of("one"), chars_of(""), chars_of("three")];
    assert_eq!(text(&join_line_chars(&lines)), "one\n\nthree");
    assert_eq!(text(&join_line_chars(&Vec::new())), "");
}
