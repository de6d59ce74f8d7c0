use meshdrop::ids::new_device_id;
use meshdrop::text::{
    chars_of, contains, decimal_string, is_whitespace, join_with, parse_u64, split_on_char,
    split_words, string_of, to_ascii_lowercase, trim,
};

fn cv(s: &str) -> Vec<char> {
    s.chars().collect()
}

#[test]
fn decimal_representation() {
    assert_eq!(decimal_string(0), "0");
    assert_eq!(decimal_string(7), "7");
    assert_eq!(decimal_string(10), "10");
    assert_eq!(decimal_string(1234567890), "1234567890");
    assert_eq!(decimal_string(u64::MAX), "18446744073709551615");
}

#[test]
fn parse_like_std() {
    for s in ["0", "42", "+42", "007", "18446744073709551615", "", "+", "-5", "12a", " 1",
        "18446744073709551616", "99999999999999999999999", "１"] {
        assert_eq!(parse_u64(&cv(s)), s.parse::<u64>().ok(), "input {:?}", s);
    }
}

#[test]
fn parse_decimal_round_trip() {
    for n in [0u64, 1, 9, 10, 99, 100, 65535, 1 << 40, u64::MAX] {
        assert_eq!(parse_u64(&cv(&decimal_string(n))), Some(n));
    }
}

#[test]
fn whitespace_matches_std() {
    for u in 0u32..0x3100 {
        if let Some(c) = char::from_u32(u) {
            assert_eq!(is_whitespace(c), c.is_whitespace(), "char {:x}", u);
        }
    }
}

#[test]
fn trim_matches_std() {
    for s in ["", "   ", " a ", "\t\nab c\r\n", "\u{3000}x\u{2029}", "x"] {
        assert_eq!(string_of(&trim(&cv(s))), s.trim());
    }
}

#[test]
fn split_matches_std() {
    for s in ["", "|", "a|b|c", "||x|", "no sep"] {
        let parts = split_on_char(&cv(s), '|');
        let got: Vec<String> = parts.iter().map(|p| p.iter().collect()).collect();
        let want: Vec<String> = s.split('|').map(|p| p.to_string()).collect();
        assert_eq!(got, want);
    }
}

#[test]
fn words_match_split_whitespace() {
    for s in ["", "  GET   /x  HTTP/1.1\r", "a", "\u{2003}b c\t"] {
        let got: Vec<String> = split_words(&cv(s)).iter().map(|p| p.iter().collect()).collect();
        let want: Vec<String> = s.split_whitespace().map(|p| p.to_string()).collect();
        assert_eq!(got, want);
    }
}

#[test]
fn join_and_contains() {
    let parts = vec![cv("a"), cv("bc"), cv("")];
    assert_eq!(string_of(&join_with(&parts, '-')), "a-bc-");
    assert!(contains(&cv("Mozilla Chrome"), &cv("Chrome")));
    assert!(!contains(&cv("Chro"), &cv("Chrome")));
    assert!(contains(&cv("x"), &cv("")));
    assert_eq!(chars_of("añb"), vec!['a', 'ñ', 'b']);
}

#[test]
fn ascii_lowercase_only_touches_ascii() {
    assert_eq!(to_ascii_lowercase('A'), 'a');
    assert_eq!(to_ascii_lowercase('z'), 'z');
    assert_eq!(to_ascii_lowercase('Ä'), 'Ä');
    assert_eq!(to_ascii_lowercase('-'), '-');
}

#[test]
fn device_id_is_a_v4_uuid_text() {
    let a = new_device_id();
    let b = new_device_id();
    assert_ne!(a, b);
    assert_eq!(a.len(), 36);
    for (i, c) in a.chars().enumerate() {
        if i == 8 || i == 13 || i == 18 || i == 23 {
            assert_eq!(c, '-');
        } else {
            assert!(c.is_ascii_digit() || ('a'..='f').contains(&c));
        }
    }
    assert_eq!(a.chars().nth(14), Some('4'));
    assert!("89ab".contains(a.chars().nth(19).unwrap()));
}
