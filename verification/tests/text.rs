use pinokio::number::{parse_number, to_decimal, to_hex, NumberError};
use pinokio::text::{
    begins_with, is_alphanumeric, is_control, is_digit, is_hex_digit, is_printable,
    is_white_space, join_text, length_in_bytes, same_ignoring_case, same_text, split_text,
    split_words, text_before, text_behind, to_lower, to_lowercase, trim, Separator,
};

#[test]
fn character_classes_agree_with_std() {
    for n in 0..=0x10ffffu32 {
        if let Some(c) = char::from_u32(n) {
            assert_eq!(is_white_space(c), c.is_whitespace(), "{:?}", c);
            assert_eq!(is_control(c), c.is_control(), "{:?}", c);
            assert_eq!(is_digit(c), c.is_ascii_digit(), "{:?}", c);
            assert_eq!(is_alphanumeric(c), c.is_ascii_alphanumeric(), "{:?}", c);
            assert_eq!(is_hex_digit(c), c.is_ascii_hexdigit(), "{:?}", c);
            assert_eq!(is_printable(c), c.is_ascii_graphic() || c == ' ', "{:?}", c);
            assert_eq!(to_lower(c), c.to_ascii_lowercase(), "{:?}", c);
        }
    }
}

const SAMPLES: [&str; 14] = [
    "",
    " ",
    "\t\r\n",
    "a",
    " a ",
    "\u{3000}a b\u{2003}",
    "fr-FR,fr",
    "a  b\tc",
    "--x--",
    "été: hiver",
    "-",
    "a-b-",
    "Bearer abc",
    "line one\nline two\r\nline three",
];

#[test]
fn trimming_agrees_with_std() {
    for s in SAMPLES {
        assert_eq!(trim(s), s.trim());
    }
}

#[test]
fn splitting_agrees_with_std() {
    for s in SAMPLES {
        assert_eq!(split_words(s), s.split_whitespace().collect::<Vec<_>>());
        assert_eq!(
            split_text(s, &Separator::Char('-')),
            s.split('-').collect::<Vec<_>>()
        );
        assert_eq!(
            split_text(s, &Separator::EitherChar(':', ',')),
            s.split([':', ',']).collect::<Vec<_>>()
        );
        assert_eq!(text_before(s, '-'), s.split('-').next().unwrap());
    }
}

#[test]
fn text_behind_the_first_character() {
    assert_eq!(text_behind("a\nb\nc", '\n'), "b\nc");
    assert_eq!(text_behind("a\n", '\n'), "");
    assert_eq!(text_behind("abc", '\n'), "");
}

#[test]
fn joining_puts_separators_between() {
    let parts = vec!["a".to_string(), "b".to_string(), "c".to_string()];
    assert_eq!(join_text(&parts, 3, ", "), "a, b, c");
    assert_eq!(join_text(&parts, 1, ", "), "a");
    assert_eq!(join_text(&parts, 0, ", "), "");
}

#[test]
fn splitting_undoes_joining() {
    let parts = vec!["fr-FR".to_string(), "".to_string(), "en".to_string()];
    let joined = join_text(&parts, 3, ",");
    assert_eq!(split_text(&joined, &Separator::EitherChar(':', ',')), parts);
}

#[test]
fn comparisons() {
    assert!(same_text("é", "é"));
    assert!(!same_text("a", "A"));
    assert!(!same_text("a", "ab"));
    assert!(same_ignoring_case("FR-fr", "fr-FR"));
    assert!(!same_ignoring_case("É", "é"));
    assert!(begins_with("https://x", "https://"));
    assert!(begins_with("x", ""));
    assert!(!begins_with("http", "http://"));
    assert_eq!(to_lowercase("ABC-É9"), "abc-É9");
    assert_eq!(length_in_bytes("é"), 2);
}

#[test]
fn decimal_notation() {
    for n in [0u64, 7, 10, 99, 100, 65535, u64::MAX] {
        assert_eq!(to_decimal(n), n.to_string());
    }
}

#[test]
fn hexadecimal_notation() {
    assert_eq!(to_hex(&[]), "");
    assert_eq!(to_hex(&[0x00, 0x0f, 0xa5, 0xff]), "000fa5ff");
}

#[test]
fn numbers_parse_as_in_std() {
    let texts = [
        "", "+", "-", "-1", "0", "007", "+8", "++8", "65535", "65536", "65535x", "65536x",
        "99999999999999999999999", "1 ", " 1", "1_000", "１", "12a34",
    ];
    for t in texts {
        let ours = parse_number(t, 65535);
        let std = t.parse::<u16>();
        match (ours, std) {
            (Ok(a), Ok(b)) => assert_eq!(a, b as u64),
            (Err(a), Err(b)) => assert_eq!(a.message(), b.to_string(), "{:?}", t),
            _ => panic!("{:?}", t),
        }
        let ours = parse_number(t, u64::MAX);
        let std = t.parse::<u64>();
        match (ours, std) {
            (Ok(a), Ok(b)) => assert_eq!(a, b),
            (Err(a), Err(b)) => assert_eq!(a.message(), b.to_string(), "{:?}", t),
            _ => panic!("{:?}", t),
        }
    }
    assert_eq!(parse_number("", 9), Err(NumberError::Empty));
    assert_eq!(parse_number("x", 9), Err(NumberError::InvalidDigit));
    assert_eq!(parse_number("10", 9), Err(NumberError::TooLarge));
}
