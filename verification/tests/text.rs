use deck_optimizer::text::{
    char_is_digit, char_is_space, chars_eq, chars_of, contains_chars, copy_range, field_of,
    is_numeral_from, match_at, parse_u32, parse_u64, split_chars, split_str, split_words,
    starts_with_chars, str_eq, trim_chars, words_of,
};

fn chars(s: &str) -> Vec<char> {
    s.chars().collect()
}

fn text(v: &[char]) -> String {
    v.iter().collect()
}

#[test]
fn chars_of_copies_every_character() {
    assert_eq!(chars_of("héllo"), vec!['h', 'é', 'l', 'l', 'o']);
    assert_eq!(chars_of(""), Vec::<char>::new());
}

#[test]
fn white_space_is_what_std_calls_white_space() {
    let mut code: u32 = 0;
    while code <= 0x10FFFF {
        if let Some(c) = char::from_u32(code) {
            assert_eq!(char_is_space(c), c.is_whitespace(), "code point {:#x}", code);
        }
        code += 1;
    }
}

#[test]
fn digits_are_the_ten_ascii_digits() {
    let mut code: u32 = 0;
    while code <= 0x10FFFF {
        if let Some(c) = char::from_u32(code) {
            assert_eq!(char_is_digit(c), c.is_ascii_digit(), "code point {:#x}", code);
        }
        code += 1;
    }
}

#[test]
fn copy_range_takes_the_half_open_range() {
    let s = chars("abcdef");
    assert_eq!(text(&copy_range(&s, 1, 4)), "bcd");
    assert_eq!(text(&copy_range(&s, 2, 2)), "");
    assert_eq!(text(&copy_range(&s, 0, 6)), "abcdef");
}

#[test]
fn chars_eq_compares_length_and_content() {
    assert!(chars_eq(&chars("abc"), &chars("abc")));
    assert!(!chars_eq(&chars("abc"), &chars("abd")));
    assert!(!chars_eq(&chars("abc"), &chars("ab")));
    assert!(chars_eq(&chars(""), &chars("")));
    assert!(str_eq("schedutil", "schedutil"));
    assert!(!str_eq("schedutil", "Schedutil"));
}

#[test]
fn trim_removes_white_space_at_both_ends_only() {
    for case in ["", " ", "  a b \t\n", "a", "\u{3000}x\u{a0}", "x y", "\n\n"] {
        assert_eq!(text(&trim_chars(&chars(case))), case.trim(), "case {:?}", case);
    }
    assert_eq!(text(&trim_chars(&chars("  42 %\n"))), "42 %");
}

#[test]
fn split_keeps_empty_pieces() {
    let pieces = split_str("a,,b,", ',');
    assert_eq!(pieces, vec!["a", "", "b", ""]);
    assert_eq!(split_str("", ','), vec![""]);
    assert_eq!(split_str("abc", ','), vec!["abc"]);
    assert_eq!(split_str(",", ','), vec!["", ""]);
}

#[test]
fn split_agrees_with_std() {
    for case in ["", "\n", "a\nb", "a\n\nb\n", "no newline", "\n\n\n", "x\ny\nz"] {
        let ours: Vec<String> = split_chars(&chars(case), '\n').iter().map(|p| text(p)).collect();
        let theirs: Vec<String> = case.split('\n').map(|p| p.to_string()).collect();
        assert_eq!(ours, theirs, "case {:?}", case);
    }
}

#[test]
fn words_are_the_runs_between_white_space() {
    assert_eq!(words_of("  ondemand\tperformance \n"), vec!["ondemand", "performance"]);
    assert_eq!(words_of(""), Vec::<String>::new());
    assert_eq!(words_of(" \n\t "), Vec::<String>::new());
    assert_eq!(words_of("one"), vec!["one"]);
}

#[test]
fn words_agree_with_std() {
    for case in ["", " ", "a", " a", "a ", "GPU Load: 42 %", "\t1200 MHz (SCLK)\r", "a\u{2003}b"] {
        let ours: Vec<String> = split_words(&chars(case)).iter().map(|p| text(p)).collect();
        let theirs: Vec<String> = case.split_whitespace().map(|p| p.to_string()).collect();
        assert_eq!(ours, theirs, "case {:?}", case);
    }
}

#[test]
fn field_of_counts_pieces_from_zero() {
    let line = "\t\t\"path\"\t\t\"/mnt/games\"";
    assert_eq!(field_of(line, '"', 3), Some("/mnt/games".to_string()));
    assert_eq!(field_of(line, '"', 0), Some("\t\t".to_string()));
    assert_eq!(field_of(line, '"', 5), None);
    assert_eq!(field_of("", '"', 0), Some(String::new()));
}

#[test]
fn match_at_needs_the_whole_needle_inside() {
    let s = chars("cpufreq");
    assert!(match_at(&s, &chars("cpu"), 0));
    assert!(match_at(&s, &chars("freq"), 3));
    assert!(!match_at(&s, &chars("freq"), 4));
    assert!(!match_at(&s, &chars("freq"), 2));
    assert!(match_at(&s, &chars(""), 7));
    assert!(!match_at(&s, &chars(""), 8));
    assert!(!match_at(&s, &chars("cpufreqs"), 0));
}

#[test]
fn starts_with_and_contains_agree_with_std() {
    let texts = ["", "a", "GPU Load: 42 %", "xxGPU Load", "GPU Loa", "aaab", "abab"];
    let needles = ["", "a", "GPU Load", "ab", "b", "aab", "bab"];
    for t in texts {
        for n in needles {
            let (text, needle) = (chars(t), chars(n));
            assert_eq!(starts_with_chars(&text, &needle), t.starts_with(n), "{:?} {:?}", t, n);
            assert_eq!(contains_chars(&text, &needle), t.contains(n), "{:?} {:?}", t, n);
        }
    }
}

#[test]
fn parse_u64_reads_plain_decimal() {
    assert_eq!(parse_u64(&chars("0")), Some(0));
    assert_eq!(parse_u64(&chars("42")), Some(42));
    assert_eq!(parse_u64(&chars("007")), Some(7));
    assert_eq!(parse_u64(&chars("+5")), Some(5));
    assert_eq!(parse_u64(&chars("18446744073709551615")), Some(u64::MAX));
    assert_eq!(parse_u64(&chars("18446744073709551616")), None);
    assert_eq!(parse_u64(&chars("99999999999999999999999")), None);
    assert_eq!(parse_u64(&chars("")), None);
    assert_eq!(parse_u64(&chars("+")), None);
    assert_eq!(parse_u64(&chars("++1")), None);
    assert_eq!(parse_u64(&chars("-1")), None);
    assert_eq!(parse_u64(&chars("12a")), None);
    assert_eq!(parse_u64(&chars(" 1")), None);
    assert_eq!(parse_u64(&chars("1 ")), None);
    assert_eq!(parse_u64(&chars("١٢")), None);
}

#[test]
fn parse_u64_agrees_with_std() {
    for case in ["0", "1", "+1", "-0", "00", "1844674407370955161", "18446744073709551615",
        "18446744073709551616", "28446744073709551615", "", "+", "a", "1e3", "0x10", "１２"]
    {
        assert_eq!(parse_u64(&chars(case)), case.parse::<u64>().ok(), "case {:?}", case);
        assert_eq!(parse_u32(&chars(case)), case.parse::<u32>().ok(), "case {:?}", case);
    }
}

#[test]
fn parse_u32_stops_at_its_limit() {
    assert_eq!(parse_u32(&chars("4294967295")), Some(u32::MAX));
    assert_eq!(parse_u32(&chars("4294967296")), None);
    assert_eq!(parse_u32(&chars("65")), Some(65));
}

#[test]
fn numeral_from_wants_digits_to_the_end() {
    assert!(is_numeral_from(&chars("cpu12"), 3));
    assert!(!is_numeral_from(&chars("cpu"), 3));
    assert!(!is_numeral_from(&chars("cpu1a"), 3));
    assert!(!is_numeral_from(&chars("cpufreq"), 3));
    assert!(is_numeral_from(&chars("7"), 0));
}
