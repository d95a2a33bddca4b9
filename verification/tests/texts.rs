use buddy::base64::encode_base64;
use buddy::number::{decimal_text, parse_number, IntError};
use buddy::text::{
    blank, contains_char, is_white_space, join, same, split, split_once, starts_with_char,
    strip_prefix, strip_suffix, to_ascii_lowercase, trim, trim_end_char, truncate_chars,
};

#[test]
fn internal_base64_encoder_matches_standard_vectors() {
    assert_eq!(encode_base64(b""), "");
    assert_eq!(encode_base64(b"f"), "Zg==");
    assert_eq!(encode_base64(b"fo"), "Zm8=");
    assert_eq!(encode_base64(b"foo"), "Zm9v");
    assert_eq!(encode_base64(b"foobar"), "Zm9vYmFy");
}

#[test]
fn base64_uses_the_whole_alphabet() {
    let bytes: Vec<u8> = (0..=255).collect();
    let text = encode_base64(&bytes);
    assert_eq!(text.len(), 344);
    assert!(text.starts_with("AAECAwQFBgcICQoLDA0ODxAREhMUFRYXGBkaGxwdHh8g"));
    assert!(text.ends_with("9vf4+fr7/P3+/w=="));
}

#[test]
fn unicode_truncation_stays_on_character_boundaries() {
    assert_eq!(truncate_chars("a🦀bc", 2), "a🦀");
    assert_eq!(truncate_chars("a🦀bc", 20), "a🦀bc");
}

#[test]
fn truncation_keeps_texts_of_the_limit() {
    assert_eq!(truncate_chars("abc", 3), "abc");
    assert_eq!(truncate_chars("abc", 0), "");
    assert_eq!(truncate_chars("", 0), "");
}

#[test]
fn white_space_is_that_of_unicode() {
    for code in 0..=0x10ffff {
        if let Some(c) = char::from_u32(code) {
            assert_eq!(is_white_space(c), c.is_whitespace(), "{:?}", c);
        }
    }
}

#[test]
fn trimming_agrees_with_the_standard_library() {
    for text in ["", " ", "a", " a", "a ", "\t a b \n", "\u{3000}x\u{a0}", "\u{200b}x"] {
        assert_eq!(trim(text), text.trim());
        assert_eq!(blank(text), text.trim().is_empty());
    }
}

#[test]
fn texts_are_cut_and_joined() {
    for text in ["", "a", "a.b", ".", "a..b.", "ä.ö"] {
        assert_eq!(split(text, '.'), text.split('.').collect::<Vec<_>>());
        assert_eq!(split_once(text, '.'), text.split_once('.'));
        assert_eq!(contains_char(text, '.'), text.contains('.'));
        assert_eq!(starts_with_char(text, '.'), text.starts_with('.'));
        assert_eq!(strip_prefix(text, "a"), text.strip_prefix("a"));
        assert_eq!(strip_prefix(text, ""), text.strip_prefix(""));
        assert_eq!(strip_suffix(text, ".b"), text.strip_suffix(".b"));
        assert_eq!(strip_suffix(text, "longer than the text"), None);
        assert_eq!(trim_end_char(text, '.'), text.trim_end_matches('.'));
    }
    let words = vec!["a".to_owned(), "".to_owned(), "c".to_owned()];
    assert_eq!(join(&words, "; "), words.join("; "));
    assert_eq!(join(&Vec::new(), "; "), "");
    assert_eq!(to_ascii_lowercase("AbZ Ä1[@"), "AbZ Ä1[@".to_ascii_lowercase());
    assert!(same("a", "a"));
    assert!(!same("a", "A"));
}

#[test]
fn numbers_agree_with_the_standard_library() {
    let samples = [
        "", "+", "-", "0", "7", "+7", "-7", "007", "18446744073709551615", "18446744073709551616",
        "99999999999999999999999999", "1a", "a1", " 1", "1 ", "++1", "1_000", "٣", "255", "256",
        "999999999999999999999999x",
    ];
    for text in samples {
        assert_eq!(parse_number(text, u64::MAX).ok(), text.parse::<u64>().ok(), "{}", text);
        assert_eq!(parse_number(text, 255).ok(), text.parse::<u8>().ok().map(u64::from), "{}", text);
        if let (Err(mine), Err(theirs)) = (parse_number(text, u64::MAX), text.parse::<u64>()) {
            assert_eq!(mine.message(), theirs.to_string(), "{}", text);
        }
    }
    assert_eq!(parse_number("", 9), Err(IntError::Empty));
    assert_eq!(parse_number("x", 9), Err(IntError::InvalidDigit));
    assert_eq!(parse_number("10", 9), Err(IntError::TooLarge));
}

#[test]
fn numbers_are_written_in_decimal() {
    for n in [0, 9, 10, 1234567890, u64::MAX as u128, u128::MAX] {
        assert_eq!(decimal_text(n), n.to_string());
    }
}
