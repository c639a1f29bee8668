use tunnel_deck::address::{parse_address, IpAddress};
use tunnel_deck::text;

#[test]
fn character_classes_are_those_of_unicode() {
    for code in 0..=0x10_ffffu32 {
        if let Some(c) = char::from_u32(code) {
            assert_eq!(text::is_white_space(c), c.is_whitespace(), "{code:x}");
            assert_eq!(text::is_control(c), c.is_control(), "{code:x}");
            assert_eq!(text::is_digit(c), c.is_ascii_digit(), "{code:x}");
            assert_eq!(text::to_lower(c), c.to_ascii_lowercase(), "{code:x}");
        }
    }
}

#[test]
fn strings_are_joined_and_compared_by_their_characters() {
    assert_eq!(text::joined("a", "é"), "aé");
    assert_eq!(text::joined3("a", "b", "c"), "abc");
    assert_eq!(text::text_of(&text::chars_of("日本")), "日本");
    assert!(text::same("x", "x"));
    assert!(!text::same("x", "X"));
    assert!(text::has_text(&vec!["a".to_owned(), "b".to_owned()], "b"));
    assert!(!text::has_text(&vec!["a".to_owned()], "b"));
}

#[test]
fn trimming_splitting_and_lines_agree_with_the_standard_library() {
    for sample in [
        "", " ", " a b ", "\u{3000}x\u{a0}", "one\r\ntwo\n\nthree", "\n", "a\tb  c", "last\r",
        "x\n", "a,b,,c,",
    ] {
        let chars = text::chars_of(sample);
        assert_eq!(text::text_of(text::trimmed(&chars)), sample.trim());
        let lines: Vec<String> = text::split_lines(&chars).iter().map(|l| l.iter().collect()).collect();
        assert_eq!(lines, sample.lines().collect::<Vec<_>>(), "{sample:?}");
        let words: Vec<String> = text::split_words(&chars).iter().map(|l| l.iter().collect()).collect();
        assert_eq!(words, sample.split_whitespace().collect::<Vec<_>>(), "{sample:?}");
        let parts: Vec<String> =
            text::split_at_each(&chars, ',').iter().map(|l| l.iter().collect()).collect();
        assert_eq!(parts, sample.split(',').collect::<Vec<_>>(), "{sample:?}");
    }
}

#[test]
fn ports_are_read_as_the_standard_library_reads_them() {
    for sample in [
        "0", "1", "65535", "65536", "99999999999999999999", "", "+80", "++80", "-1", " 80", "8a",
        "00080", "+",
    ] {
        let chars = text::chars_of(sample);
        assert_eq!(text::parse_u16(&chars), sample.parse::<u16>().ok(), "{sample:?}");
    }
}

#[test]
fn written_numbers_read_back() {
    for n in [0u64, 7, 10, 65535, 1_000_000, u64::MAX] {
        assert_eq!(text::decimal_text(n), n.to_string());
    }
    for n in 0..=u16::MAX {
        let chars = text::chars_of(&text::decimal_text(n as u64));
        assert_eq!(text::parse_u16(&chars), Some(n));
    }
}

fn parsed(value: &str) -> Option<IpAddress> {
    parse_address(&text::chars_of(value))
}

#[test]
fn addresses_are_read_in_their_usual_forms() {
    assert!(matches!(parsed("127.0.0.1"), Some(IpAddress::V4(0x7f00_0001))));
    assert!(matches!(parsed("255.255.255.255"), Some(IpAddress::V4(0xffff_ffff))));
    for bad in ["", "1.2.3", "1.2.3.4.5", "256.0.0.1", "01.2.3.4", "1.2.3.", "a.b.c.d", " 1.2.3.4"] {
        assert!(parsed(bad).is_none(), "{bad:?}");
    }
    for (value, groups) in [
        ("::", [0u16, 0, 0, 0, 0, 0, 0, 0]),
        ("::1", [0, 0, 0, 0, 0, 0, 0, 1]),
        ("2001:db8::1", [0x2001, 0xdb8, 0, 0, 0, 0, 0, 1]),
        ("1:2:3:4:5:6:7:8", [1, 2, 3, 4, 5, 6, 7, 8]),
        ("::ffff:192.0.2.1", [0, 0, 0, 0, 0, 0xffff, 0xc000, 0x0201]),
        ("FE80::A", [0xfe80, 0, 0, 0, 0, 0, 0, 0xa]),
    ] {
        match parsed(value) {
            Some(IpAddress::V6(found)) => assert_eq!(found, groups, "{value}"),
            other => panic!("{value}: {other:?}"),
        }
    }
    for bad in [":", ":::", "1:2:3:4:5:6:7", "1:2:3:4:5:6:7:8:9", "1::2::3", "12345::", "::g"] {
        assert!(parsed(bad).is_none(), "{bad:?}");
    }
}

#[test]
fn loopback_and_unspecified_addresses_are_told_apart() {
    assert!(parsed("127.8.9.10").unwrap().is_loopback());
    assert!(parsed("::1").unwrap().is_loopback());
    assert!(!parsed("::").unwrap().is_loopback());
    assert!(parsed("::").unwrap().is_unspecified());
    assert!(parsed("0.0.0.0").unwrap().is_unspecified());
    assert!(!parsed("192.0.2.1").unwrap().is_unspecified());
}
