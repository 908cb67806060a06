//! The text functions that the rest is built on, against the standard library.

use active_call::host::{is_ip_address, is_local_ip};
use active_call::text::{
    contains, decimal_of, ends_with, eq_ignoring_case, parse_unsigned, replace_text, split,
    split_at_text, split_first, starts_with, to_lower, trim,
};

const SAMPLES: [&str; 12] = [
    "",
    " ",
    "abc",
    " a b ",
    "\r\nA=B\r\n",
    "a:b:c",
    "::",
    "\u{a0}x\u{2003}",
    "\u{c4}bc\u{df}",
    "aaaa",
    "http://x",
    "0123456789",
];

#[test]
fn texts_are_trimmed_and_lowered_as_the_standard_library_does() {
    for s in SAMPLES {
        assert_eq!(trim(s), s.trim());
        assert_eq!(trim(&trim(s)), trim(s));
        assert_eq!(to_lower(s), s.to_ascii_lowercase());
    }
    assert!(eq_ignoring_case("AbC", "aBc"));
    assert!(!eq_ignoring_case("\u{c4}", "\u{e4}"));
}

#[test]
fn texts_are_searched_and_split_as_the_standard_library_does() {
    for s in SAMPLES {
        for p in ["a", "aa", "\r\n", ":", "x"] {
            assert_eq!(contains(s, p), s.contains(p));
            assert_eq!(starts_with(s, p), s.starts_with(p));
            assert_eq!(ends_with(s, p), s.ends_with(p));
            assert_eq!(split_at_text(s, p), s.split(p).collect::<Vec<&str>>());
            assert_eq!(replace_text(s, p, "<>"), s.replace(p, "<>"));
        }
        assert_eq!(split(s, ':'), s.split(':').collect::<Vec<&str>>());
        let (head, tail) = split_first(s, ':');
        match s.split_once(':') {
            Some((h, t)) => {
                assert_eq!(head, h);
                assert_eq!(tail.as_deref(), Some(t));
            }
            None => {
                assert_eq!(head, s);
                assert_eq!(tail, None);
            }
        }
    }
}

#[test]
fn numbers_are_read_and_written_as_the_standard_library_does() {
    for s in [
        "", "0", "7", "+7", "-7", "007", "255", "256", "65535", "65536", "4294967296", "1 ", "x",
        "18446744073709551615", "18446744073709551616",
    ] {
        assert_eq!(parse_unsigned(s, 255), s.parse::<u8>().ok().map(u64::from));
        assert_eq!(
            parse_unsigned(s, 65535),
            s.parse::<u16>().ok().map(u64::from)
        );
        assert_eq!(parse_unsigned(s, u64::MAX), s.parse::<u64>().ok());
    }
    for n in [0, 9, 10, 65535, u64::MAX] {
        assert_eq!(decimal_of(n), n.to_string());
    }
}

#[test]
fn addresses_are_read() {
    for s in [
        "127.0.0.1",
        "0.0.0.0",
        "255.255.255.255",
        "::1",
        "::",
        "2001:db8::1",
        "1:2:3:4:5:6:7:8",
        "::ffff:10.0.0.1",
    ] {
        assert!(is_ip_address(s), "{}", s);
    }
    for s in ["", "1.2.3", "256.1.1.1", "01.2.3.4", "1::2::3", "g::", "1:2:3:4:5:6:7", "host"] {
        assert!(!is_ip_address(s), "{}", s);
    }
    for s in ["10.1.2.3", "172.31.0.1", "192.168.0.1", "127.9.9.9", "::1"] {
        assert!(is_local_ip(s), "{}", s);
    }
    for s in ["8.8.8.8", "172.32.0.1", "2001:db8::1", "host"] {
        assert!(!is_local_ip(s), "{}", s);
    }
}
