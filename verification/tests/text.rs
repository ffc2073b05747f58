use chatgpt_oauth::text::{contains, parse_u64, to_ascii_lowercase, trim, IntErrorKind};

#[test]
fn trim_matches_std_trim() {
    let samples = [
        "", " ", "abc", "  abc  ", "\t\n a b \r\n", "\u{a0}x\u{3000}", "\u{85}\u{1680}y\u{2028}",
        "\u{200b}z\u{200b}", "\u{feff}w", "a\u{202f}", "\u{205f}\u{2029}\u{200a}", "é è ",
    ];
    for s in samples {
        assert_eq!(trim(s), s.trim(), "input {s:?}");
    }
}

#[test]
fn lowercase_touches_ascii_only() {
    assert_eq!(to_ascii_lowercase("AbC-ÉÀ z9"), "abc-ÉÀ z9");
    assert_eq!(to_ascii_lowercase(""), "");
    for s in ["OpenAI-CODEX", "ÇA VA", "ΣΑΣ", "[Z]@"] {
        assert_eq!(to_ascii_lowercase(s), s.to_ascii_lowercase());
    }
}

#[test]
fn contains_finds_substrings() {
    assert!(contains("http://x", "://"));
    assert!(contains("://", "://"));
    assert!(!contains(":/", "://"));
    assert!(!contains("abc", "://"));
    assert!(contains("abc", ""));
    assert!(contains("ééx", "éx"));
}

#[test]
fn parse_u64_matches_std_parse() {
    let samples = [
        "", "+", "-", "0", "+0", "-0", "5", "+17", "007", "18446744073709551615",
        "18446744073709551616", "99999999999999999999a", "1a", " 1", "1 ", "٣", "+-1",
    ];
    for s in samples {
        let ours = parse_u64(s);
        match s.parse::<u64>() {
            Ok(n) => assert_eq!(ours, Ok(n), "input {s:?}"),
            Err(e) => {
                let kind = match e.kind() {
                    std::num::IntErrorKind::Empty => IntErrorKind::Empty,
                    std::num::IntErrorKind::InvalidDigit => IntErrorKind::InvalidDigit,
                    std::num::IntErrorKind::PosOverflow => IntErrorKind::PosOverflow,
                    other => panic!("unexpected {other:?}"),
                };
                assert_eq!(ours, Err(kind), "input {s:?}");
            }
        }
    }
    assert_eq!(parse_u64("99999999999999999999a"), Err(IntErrorKind::PosOverflow));
}
