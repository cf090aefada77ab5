use ulpf::number::{decimal, parse_u16, parse_u64, parse_u8};
use ulpf::text::{contains, cut_at, read_utf8, same, to_ascii_lowercase, to_ascii_uppercase};
use ulpf::text::{trim, TrimSet};

#[test]
fn white_space_is_that_of_unicode() {
    for n in 0..=0x10ffffu32 {
        if let Some(c) = char::from_u32(n) {
            assert_eq!(TrimSet::Whitespace.holds(c), c.is_whitespace(), "{:x}", n);
        }
    }
}

#[test]
fn trimming() {
    assert_eq!(trim(" \t a b \u{3000}\r\n", TrimSet::Whitespace), "a b");
    assert_eq!(trim(" \n ", TrimSet::Whitespace), "");
    assert_eq!(trim("", TrimSet::Whitespace), "");
    assert_eq!(trim("([a]) (b))", TrimSet::Brackets), "a]) (b");
    assert_eq!(trim("\"\"q\"q\"", TrimSet::Quotes), "q\"q");
    let once = trim("  x  ", TrimSet::Whitespace);
    assert_eq!(trim(&once, TrimSet::Whitespace), once);
}

#[test]
fn searching_and_case() {
    for (h, n) in [("", ""), ("abc", ""), ("", "a"), ("abab", "bab"), ("abab", "aba"),
        ("aab", "ab"), ("abc", "abcd"), ("\u{e9}t\u{e9}", "t\u{e9}"), ("abc", "C")]
    {
        assert_eq!(contains(h, n), h.contains(n));
    }
    assert!(same("x", "x"));
    assert!(!same("x", "xy"));
    assert!(!same("ab", "ac"));
    for s in ["", "Az09[`{@Z", "\u{c9}t\u{e9} ABC xyz"] {
        assert_eq!(to_ascii_lowercase(s), s.to_ascii_lowercase());
        assert_eq!(to_ascii_uppercase(s), s.to_ascii_uppercase());
    }
}

#[test]
fn numbers_read_as_the_standard_library_reads_them() {
    for s in ["", "0", "+0", "-0", "+", "-", "00012", "255", "256", "65535", "65536", "+65535",
        " 1", "1 ", "1_0", "\u{661}", "18446744073709551615", "18446744073709551616",
        "99999999999999999999999999", "++1", "0x1"]
    {
        assert_eq!(parse_u8(s), s.parse::<u8>().ok(), "{}", s);
        assert_eq!(parse_u16(s), s.parse::<u16>().ok(), "{}", s);
        assert_eq!(parse_u64(s), s.parse::<u64>().ok(), "{}", s);
    }
}

#[test]
fn numbers_written_and_read_back() {
    for n in [0, 9, 10, 255, 65535, 1234567890, u64::MAX] {
        assert_eq!(decimal(n), n.to_string());
        assert_eq!(parse_u64(&decimal(n)), Some(n));
    }
}

#[test]
fn bytes_and_text() {
    assert_eq!(read_utf8(b"abc"), Some("abc"));
    assert_eq!(read_utf8("\u{20ac}".as_bytes()), Some("\u{20ac}"));
    assert_eq!(read_utf8(&[0xff]), None);
    assert_eq!(read_utf8(&[0xc0, 0x80]), None);
    assert_eq!(cut_at("a\u{20ac}b", 4), "a\u{20ac}");
    assert_eq!(cut_at("abc", 0), "");
}
