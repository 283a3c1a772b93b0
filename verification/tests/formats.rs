use fauna::bytes::{array_of_24, array_of_32};
use fauna::digits::{decimal_text, hex_decode, hex_encode, is_hex_sliceable, parse_port, HexError};
use fauna::text::{
    any_contains, contains, find_prefix, join, rsplit_once, same_ignoring_case, same_text,
    split_once, starts_with, strip_prefix, trim, trim_end, whitespace, word_after,
};

const SAMPLES: [&str; 12] = [
    "",
    " ",
    "a",
    " a ",
    "\t\u{3000}a b\u{a0}\r\n",
    "a:b:c",
    "::",
    "/ip4/1/tcp/2/tcp/3",
    "ünïcode ß",
    "\u{85}x\u{2028}",
    "aaaa",
    "x\u{200b}",
];

#[test]
fn whitespace_is_the_unicode_property() {
    for code in 0..=0x10ffffu32 {
        if let Some(c) = char::from_u32(code) {
            assert_eq!(whitespace(c), c.is_whitespace(), "{code:x}");
        }
    }
}

#[test]
fn trimming_is_that_of_str() {
    for s in SAMPLES {
        assert_eq!(trim(s), s.trim());
        assert_eq!(trim_end(s), s.trim_end());
    }
}

#[test]
fn searching_is_that_of_str() {
    for s in SAMPLES {
        for part in ["", "a", ":", "/tcp/", " ", "::", "aa", "ü"] {
            assert_eq!(contains(s, part), s.contains(part));
            assert_eq!(starts_with(s, part), s.starts_with(part));
            assert_eq!(strip_prefix(s, part), s.strip_prefix(part));
            assert_eq!(split_once(s, part), s.split_once(part));
            assert_eq!(rsplit_once(s, part), s.rsplit_once(part));
            assert_eq!(same_text(s, part), s == part);
        }
    }
}

#[test]
fn words_are_those_between_whitespace() {
    let line = " 250 A=1\tB=2\u{3000}A=3 ";
    assert_eq!(word_after(line, "A="), Some("1"));
    assert_eq!(word_after(line, "B="), Some("2"));
    assert_eq!(word_after(line, "C="), None);
    assert_eq!(word_after(line, ""), Some("250"));
    assert_eq!(word_after("", ""), None);
    assert_eq!(word_after("XA=1", "A="), None);
    for s in SAMPLES {
        for name in ["", "a", "b", "::", "x"] {
            let expected = s.split_whitespace().find_map(|part| part.strip_prefix(name));
            assert_eq!(word_after(s, name), expected);
        }
    }
}

#[test]
fn case_is_ignored_for_ascii_letters_only() {
    for a in 0..=0x17fu32 {
        for b in 0..=0x17fu32 {
            let x = char::from_u32(a).unwrap().to_string();
            let y = char::from_u32(b).unwrap().to_string();
            assert_eq!(same_ignoring_case(&x, &y), x.eq_ignore_ascii_case(&y));
        }
    }
    assert!(same_ignoring_case("aBc0", "AbC0"));
    assert!(!same_ignoring_case("abc", "abcd"));
}

#[test]
fn lists_are_joined_and_searched() {
    let none: Vec<String> = Vec::new();
    let lines = vec!["one".to_owned(), "two".to_owned(), "twofold".to_owned()];
    assert_eq!(join(&none, " | "), "");
    assert_eq!(join(&lines, " | "), "one | two | twofold");
    assert_eq!(find_prefix(&lines, "tw"), Some("two"));
    assert_eq!(find_prefix(&lines, "three"), None);
    assert!(any_contains(&lines, "fol"));
    assert!(!any_contains(&lines, "xyz"));
}

#[test]
fn numbers_are_written_in_decimal() {
    for n in [0u64, 9, 10, 45123, 65535, 4294967295, u64::MAX] {
        assert_eq!(decimal_text(n), n.to_string());
    }
}

#[test]
fn ports_are_read_as_numbers() {
    for text in [
        "0", "1", "45123", "65535", "65536", "00045123", "+80", "+", "", "-1", " 80", "80 ", "8a",
        "99999999999999999999", "٣", "++1", "0x10", "000000000000000000000001",
    ] {
        assert_eq!(parse_port(text), text.parse::<u16>().ok(), "{text}");
    }
    for n in 0..=65535u16 {
        assert_eq!(parse_port(&decimal_text(n as u64)), Some(n));
    }
}

#[test]
fn bytes_are_written_in_hexadecimal() {
    let all: Vec<u8> = (0..=255u8).collect();
    assert_eq!(hex_encode(&all), hex::encode_upper(&all));
    assert_eq!(hex_decode(&hex_encode(&all)).unwrap(), all);
    assert_eq!(hex_encode(&[]), "");
}

#[test]
fn hexadecimal_is_read_as_bytes() {
    assert_eq!(hex_decode("").unwrap(), Vec::<u8>::new());
    assert_eq!(hex_decode("0aFf").unwrap(), vec![10, 255]);
    assert_eq!(hex_decode("+f").unwrap(), vec![15]);
    assert_eq!(hex_decode("f"), Err(HexError::OddLength));
    assert_eq!(hex_decode("0g"), Err(HexError::InvalidDigit));
    assert_eq!(hex_decode("-1"), Err(HexError::InvalidDigit));
    assert_eq!(hex_decode("ü"), Err(HexError::InvalidDigit));
    for x in 0..128u8 {
        for y in 0..128u8 {
            let text = String::from_utf8(vec![x, y]).unwrap();
            assert_eq!(hex_decode(&text).ok(), u8::from_str_radix(&text, 16).ok().map(|b| vec![b]));
        }
    }
}

#[test]
fn texts_that_cannot_be_cut_into_pairs_are_known() {
    assert!(is_hex_sliceable(""));
    assert!(is_hex_sliceable("abc"));
    assert!(is_hex_sliceable("ü"));
    assert!(!is_hex_sliceable("aüb"));
    assert!(!is_hex_sliceable("00aüb"));
    assert!(is_hex_sliceable("zzaüb"));
    assert!(!is_hex_sliceable("🦊"));
}

#[test]
fn arrays_have_their_size() {
    assert_eq!(array_of_32(&vec![5u8; 32]), Some([5u8; 32]));
    assert_eq!(array_of_32(&vec![5u8; 31]), None);
    assert_eq!(array_of_24(&vec![6u8; 24]), Some([6u8; 24]));
    assert_eq!(array_of_24(&vec![6u8; 25]), None);
}
