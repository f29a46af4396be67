use eda_license_collector::text;

#[test]
fn trimming_strips_all_white_space() {
    for s in ["", " a ", "\u{3000}\u{a0}x y\u{2028}\r\n", "\u{200b}z", "\u{85}\u{1680}\u{205f}"] {
        assert_eq!(text::trim(s), s.trim());
    }
}

#[test]
fn white_space_is_that_of_unicode() {
    for code in 0..0x11_0000u32 {
        if let Some(c) = char::from_u32(code) {
            assert_eq!(text::white_space(c), c.is_whitespace(), "{code:x}");
        }
    }
}

#[test]
fn lines_end_with_line_feeds() {
    for s in ["", "\n", "a", "a\nb", "a\r\nb\r\n", "a\r", "\r\n\r\n", "a\n\nb\n", "a\rb\n"] {
        let expected: Vec<&str> = s.lines().collect();
        assert_eq!(text::lines(s), expected, "{s:?}");
    }
}

#[test]
fn contained_texts_are_found() {
    for (s, pattern) in [("", ""), ("abc", ""), ("", "a"), ("aab", "ab"), ("abc", "abcd"), ("错误", "误")] {
        assert_eq!(text::contains(s, pattern), s.contains(pattern), "{s} {pattern}");
    }
}

#[test]
fn numbers_are_read_as_std_reads_them() {
    for s in ["", "+", "-", "0", "-0", "+0", "007", "65535", "65536", "--1", "1 ", "٣",
        "9223372036854775807", "9223372036854775808", "-9223372036854775808",
        "-9223372036854775809", "99999999999999999999999"] {
        assert_eq!(text::parse_i64(s), s.parse().ok(), "{s}");
        assert_eq!(text::parse_u16(s), s.parse().ok(), "{s}");
    }
}

#[test]
fn numbers_are_written_in_decimal() {
    for n in [0, 7, 10, 1905, u64::MAX] {
        let mut s = "n=".to_owned();
        text::push_u64(&mut s, n);
        assert_eq!(s, format!("n={n}"));
    }
    for n in [0, -1, 42, i64::MIN, i64::MAX] {
        let mut s = String::new();
        text::push_i64(&mut s, n);
        assert_eq!(s, n.to_string());
    }
}

#[test]
fn thousandths_have_three_digits() {
    assert_eq!(text::thousandths_text(0), "0.000");
    assert_eq!(text::thousandths_text(457), "0.457");
    assert_eq!(text::thousandths_text(15_030), "15.030");
}

#[test]
fn texts_are_aligned_by_characters() {
    let mut s = String::new();
    text::push_left_aligned(&mut s, "错", 3);
    text::push_right_aligned(&mut s, "ab", 4);
    text::push_right_aligned(&mut s, "long", 2);
    assert_eq!(s, format!("{:<3}{:>4}{:>2}", "错", "ab", "long"));
}

#[test]
fn texts_are_cut_by_characters() {
    assert_eq!(text::truncate("错误信息", 2), "错误");
    assert_eq!(text::truncate("ab", 2), "ab");
    assert_eq!(text::truncate("", 0), "");
}
