//! Text primitives, numbers, languages, ranking, maps.

use card_feeder::decimal::{parse_unsigned, signed_text, unsigned_text};
use card_feeder::keyed::KeyMap;
use card_feeder::languages::{iso639_1_to_3, market_lang3};
use card_feeder::ranking::{is_nan_bits, is_positive_bits, numeric_position_of, total_position_of};
use card_feeder::text::{
    lowercased, replaced, split_once, to_ascii_lowercase, to_ascii_uppercase, trimmed,
};
use card_feeder::words::{join_texts, norm_tokens, split_words, WordClass};

#[test]
fn trimming_follows_unicode_whitespace() {
    for s in ["", " ", "  a b ", "\u{a0}x\u{3000}", "\u{2003}", "x\n", "\u{200b}x", "\u{1c}x"] {
        assert_eq!(trimmed(s), s.trim(), "{s:?}");
        assert_eq!(trimmed(trimmed(s)), trimmed(s));
    }
}

#[test]
fn lower_case_follows_unicode() {
    for s in ["", "AbC 1", "ÀÉ", "ΑΣ", "İ", "ß", "ǅ"] {
        assert_eq!(lowercased(s), s.to_lowercase());
    }
    assert_eq!(to_ascii_lowercase("AbÉ"), "abÉ");
    assert_eq!(to_ascii_uppercase("aBé"), "ABé");
}

#[test]
fn words_are_maximal_runs() {
    assert_eq!(split_words("  a\u{3000}bc  d ", WordClass::Visible), vec!["a", "bc", "d"]);
    assert_eq!(split_words("3% Percent½é-x", WordClass::Alphanumeric), vec!["3", "Percent½é", "x"]);
    assert!(split_words(" %", WordClass::Alphanumeric).is_empty());
    assert_eq!(norm_tokens("Frieren: Beyond Journey's End"), vec![
        "frieren", "beyond", "journey", "s", "end"
    ]);
    assert_eq!(join_texts(&vec!["a".to_string(), "b".to_string()], ", "), "a, b");
    assert_eq!(join_texts(&Vec::new(), ", "), "");
}

#[test]
fn tokens_follow_the_letters_and_digits() {
    let texts = ["", " % ", "Law & Order", "3% Percent", "ÀÉ-ΑΣ x", "a.b", "ǅ İ ß½", "9"];
    for a in texts {
        for b in texts {
            let mut both = norm_tokens(a);
            both.extend(norm_tokens(b));
            assert_eq!(norm_tokens(&format!("{a} {b}")), both);
        }
        let tokens = norm_tokens(a);
        assert!(tokens.iter().all(|t| !t.is_empty()));
        assert_eq!(tokens.is_empty(), !a.chars().any(|c| c.is_alphanumeric()));
        if a.is_ascii() {
            let letters: String = a.chars().filter(|c| c.is_ascii_alphanumeric()).collect();
            assert_eq!(tokens.concat(), letters.to_ascii_lowercase());
            let plain = |c: char| c.is_ascii_lowercase() || c.is_ascii_digit();
            assert!(tokens.iter().all(|t| t.chars().all(plain)));
        }
    }
}

#[test]
fn splitting_and_replacing() {
    assert_eq!(split_once("a:b:c", ':'), Some(("a", "b:c")));
    assert_eq!(split_once("é:", ':'), Some(("é", "")));
    assert_eq!(split_once("abc", ':'), None);
    assert_eq!(replaced("a/b/", '/', '-'), "a-b-");
}

#[test]
fn numbers_are_written_and_read_as_the_standard_library_does() {
    for n in [0u64, 7, 10, 99, 100, 12345, u64::MAX] {
        assert_eq!(unsigned_text(n), n.to_string());
        assert_eq!(parse_unsigned(&n.to_string(), u64::MAX), Some(n));
    }
    for n in [0i64, -1, 5, i64::MIN, i64::MAX] {
        assert_eq!(signed_text(n), n.to_string());
    }
    for s in ["", "+", "-1", "+5", "00012", "1x", " 1", "65535", "65536", "٣", "1_0"] {
        assert_eq!(parse_unsigned(s, u16::MAX as u64), s.parse::<u16>().ok().map(u64::from), "{s}");
    }
}

#[test]
fn languages_are_three_letter_codes() {
    assert_eq!(iso639_1_to_3("ja"), Some("jpn"));
    assert_eq!(iso639_1_to_3("EN"), Some("eng"));
    assert_eq!(iso639_1_to_3("xx"), None);
    assert_eq!(market_lang3("FR"), "fra");
    assert_eq!(market_lang3("us"), "eng");
    assert_eq!(market_lang3("CA"), "und");
    assert_eq!(market_lang3(""), "und");
}

#[test]
fn bit_patterns_order_as_doubles_do() {
    let values = [
        f64::NEG_INFINITY, -1e300, -2.5, -f64::MIN_POSITIVE, -0.0, 0.0, 5e-324, 1.0, 7.3, f64::INFINITY,
    ];
    for a in values {
        for b in values {
            let (x, y) = (a.to_bits(), b.to_bits());
            assert_eq!(total_position_of(x).cmp(&total_position_of(y)), a.total_cmp(&b));
            assert_eq!(
                Some(numeric_position_of(x).cmp(&numeric_position_of(y))),
                a.partial_cmp(&b),
                "{a} {b}"
            );
        }
        assert_eq!(is_positive_bits(a.to_bits()), a > 0.0);
        assert!(!is_nan_bits(a.to_bits()));
    }
    for nan in [f64::NAN, -f64::NAN] {
        assert!(is_nan_bits(nan.to_bits()) && !is_positive_bits(nan.to_bits()));
        assert_eq!(
            total_position_of(nan.to_bits()).cmp(&total_position_of(1f64.to_bits())),
            nan.total_cmp(&1.0)
        );
    }
}

#[test]
fn a_key_map_keeps_one_value_per_key() {
    let mut map: KeyMap<String> = KeyMap::new();
    assert!(map.get("a").is_none());
    map.insert("a".to_string(), "1".to_string());
    map.insert("b".to_string(), "2".to_string());
    map.insert("a".to_string(), "3".to_string());
    assert_eq!(map.len(), 2);
    assert_eq!(map.get("a").map(|v| v.as_str()), Some("3"));
    assert_eq!((map.key_at(0), map.key_at(1)), ("a", "b"));
    assert!(map.contains_key("b") && !map.contains_key("c"));
}
