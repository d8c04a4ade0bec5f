use datum_connect::text::{
    comes_before, contains, decimal_of, join_with, lines_of, parse_u16, parse_u32, parse_u64,
    replace, rsplit_once, split_at_char, split_once, strip_prefix, strip_suffix, to_ascii_lower,
    trim, trim_end_matches, trim_start_matches,
};

const SAMPLES: [&str; 12] = [
    "", " ", "a", " a b\t\n", "\u{a0}x\u{3000}", "vvv1", "a.b..c.", "\r\n", "a\r\nb\n\nc\r", "a\nb",
    "ÄÖ é", "aaaa",
];

#[test]
fn texts_are_cut_like_in_the_standard_library() {
    for s in SAMPLES {
        assert_eq!(trim(s), s.trim());
        assert_eq!(trim_start_matches(s, 'v'), s.trim_start_matches('v'));
        assert_eq!(trim_end_matches(s, '.'), s.trim_end_matches('.'));
        assert_eq!(split_at_char(s, '.'), s.split('.').collect::<Vec<_>>());
        assert_eq!(lines_of(s), s.lines().collect::<Vec<_>>());
        assert_eq!(
            split_once(s, '.'),
            s.split_once('.').map(|(a, b)| (a.to_string(), b.to_string()))
        );
        assert_eq!(
            rsplit_once(s, '.'),
            s.rsplit_once('.').map(|(a, b)| (a.to_string(), b.to_string()))
        );
        assert_eq!(strip_prefix(s, "a").as_deref(), s.strip_prefix("a"));
        assert_eq!(strip_suffix(s, "c.").as_deref(), s.strip_suffix("c."));
        assert_eq!(to_ascii_lower(s), s.to_ascii_lowercase());
        for p in ["a", "aa", "b.", "\n"] {
            assert_eq!(contains(s, p), s.contains(p));
            assert_eq!(replace(s, p, "xy"), s.replace(p, "xy"));
        }
        for t in SAMPLES {
            assert_eq!(comes_before(s, t), s < t);
        }
        let parts = split_at_char(s, '.');
        assert_eq!(join_with(&parts, "."), s);
    }
}

#[test]
fn whitespace_is_that_of_unicode() {
    for c in (0u32..0x11_0000).filter_map(char::from_u32) {
        assert_eq!(datum_connect::text::is_whitespace(c), c.is_whitespace(), "{c:?}");
    }
}

#[test]
fn numbers_are_read_like_in_the_standard_library() {
    for s in ["", "+", "0", "+0", "007", "65535", "65536", "-1", "4294967295", "4294967296", "1x",
        "18446744073709551615", "18446744073709551616", "٣", " 1"]
    {
        assert_eq!(parse_u16(s), s.parse().ok(), "{s}");
        assert_eq!(parse_u32(s), s.parse().ok(), "{s}");
        assert_eq!(parse_u64(s), s.parse().ok(), "{s}");
    }
    for n in [0, 7, 10, 99, 100, u64::MAX] {
        assert_eq!(decimal_of(n), n.to_string());
        assert_eq!(parse_u64(&decimal_of(n)), Some(n));
    }
}
