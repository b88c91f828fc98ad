use uci_front::decimal::{parse_i64, parse_natural, write_natural};
use uci_front::text::{chars_of, is_whitespace, same_text, split_lines, split_whitespace};

const SAMPLES: [&str; 14] = [
    "",
    " ",
    "a",
    " a",
    "a ",
    "a b",
    "  a\t\tb\n c \r\n",
    "option name Move Overhead type spin default 10 min 0 max 5000\n",
    "a\u{a0}b\u{2003}c\u{3000}d\u{85}e\u{1680}f\u{2028}g\u{2029}h\u{202f}i\u{205f}j",
    "a\u{200b}b\u{feff}c\u{180e}d",
    "\u{b}\u{c}x\u{1c}y\u{1f}z",
    "\n\n\n",
    "a\n\nb",
    "tail without feed\nlast",
];

#[test]
fn whitespace_is_the_standard_class() {
    for code in 0..=0x3100u32 {
        if let Some(c) = char::from_u32(code) {
            assert_eq!(is_whitespace(c), c.is_whitespace(), "{code:#x}");
        }
    }
    assert!(!is_whitespace('\u{10ffff}'));
}

#[test]
fn tokens_are_the_standard_split() {
    for s in SAMPLES {
        let expected: Vec<String> = s.split_whitespace().map(|t| t.to_string()).collect();
        assert_eq!(split_whitespace(s), expected, "{s:?}");
    }
}

#[test]
fn tokens_of_a_line() {
    assert_eq!(split_whitespace("  go   ponder\n"), vec!["go".to_string(), "ponder".to_string()]);
    assert_eq!(split_whitespace(" \t\n"), Vec::<String>::new());
}

#[test]
fn lines_are_cut_at_line_feeds() {
    assert_eq!(split_lines(""), Vec::<String>::new());
    assert_eq!(split_lines("\n"), vec![String::new()]);
    assert_eq!(split_lines("a\nb\n"), vec!["a".to_string(), "b".to_string()]);
    assert_eq!(split_lines("a\nb"), vec!["a".to_string(), "b".to_string()]);
    assert_eq!(split_lines("a\n\nb"), vec!["a".to_string(), String::new(), "b".to_string()]);
    for s in SAMPLES {
        assert_eq!(split_lines(s).len(), s.lines().count(), "{s:?}");
    }
}

#[test]
fn characters_and_equality() {
    assert_eq!(chars_of("a\u{e9}z"), vec!['a', '\u{e9}', 'z']);
    assert!(same_text("uciok\n", "uciok\n"));
    assert!(!same_text("uciok\n", "uciok"));
    assert!(!same_text("uciok", "uciOk"));
    assert!(same_text("", ""));
}

#[test]
fn integers_are_read_as_the_standard_library_reads_them() {
    let samples = [
        "0", "-0", "+0", "7", "-7", "+7", "007", "-007", "10000", "9223372036854775807",
        "9223372036854775808", "-9223372036854775808", "-9223372036854775809",
        "99999999999999999999999999", "-99999999999999999999999999", "", "+", "-", "--1", "+-1",
        "1-", "1 ", " 1", "1.0", "1e3", "0x10", "1_000", "a", "\u{ff11}",
    ];
    for s in samples {
        assert_eq!(parse_i64(s), s.parse::<i64>().ok(), "{s:?}");
        assert_eq!(parse_natural(s, u64::MAX), s.parse::<u64>().ok(), "{s:?}");
        assert_eq!(parse_natural(s, 255), s.parse::<u8>().ok().map(u64::from), "{s:?}");
    }
    assert_eq!(parse_i64("-42"), Some(-42));
    assert_eq!(parse_natural("18446744073709551615", u64::MAX), Some(u64::MAX));
    assert_eq!(parse_natural("18446744073709551616", u64::MAX), None);
    assert_eq!(parse_natural("255", 255), Some(255));
    assert_eq!(parse_natural("256", 255), None);
    assert_eq!(parse_natural("5", 0), None);
    assert_eq!(parse_natural("0", 0), Some(0));
}

#[test]
fn naturals_are_written_in_decimal() {
    for n in [0u64, 1, 9, 10, 11, 99, 100, 101, 1000, 65535, 4294967296, u64::MAX] {
        assert_eq!(write_natural(n), n.to_string());
        assert_eq!(parse_natural(&write_natural(n), u64::MAX), Some(n));
    }
}
