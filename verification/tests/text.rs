use terminal_forwarder::text::{
    chars_of, contains, contains_chars, is_whitespace, join_ranges, parse_u32, push_decimal,
    rfind_char, str_eq, trim_range, word_ranges,
};

fn pieces(text: &str, from: usize) -> Vec<String> {
    let chars = chars_of(text);
    word_ranges(&chars, from)
        .iter()
        .map(|&(a, b)| chars[a..b].iter().collect::<String>())
        .collect()
}

fn read_number(text: &str) -> Option<u32> {
    let chars = chars_of(text);
    parse_u32(&chars, 0, chars.len())
}

fn numeral(n: u32) -> String {
    let mut out = String::new();
    push_decimal(&mut out, n);
    out
}

#[test]
fn str_eq_compares_characters() {
    assert!(str_eq("", ""));
    assert!(str_eq("session", "session"));
    assert!(!str_eq("session", "sessions"));
    assert!(!str_eq("abc", "abd"));
    assert!(str_eq("gr\u{fc}n", "gr\u{fc}n"));
    assert!(!str_eq("gr\u{fc}n", "grun"));
}

#[test]
fn chars_of_lists_every_character() {
    assert_eq!(chars_of(""), Vec::<char>::new());
    assert_eq!(chars_of("a\u{e9}\u{4e2d}z"), vec!['a', '\u{e9}', '\u{4e2d}', 'z']);
}

#[test]
fn whitespace_agrees_with_the_standard_library_on_every_character() {
    let mut code: u32 = 0;
    while code <= 0x10FFFF {
        if let Some(c) = char::from_u32(code) {
            assert_eq!(is_whitespace(c), c.is_whitespace(), "U+{:04X}", code);
        }
        code += 1;
    }
}

#[test]
fn whitespace_on_named_characters() {
    assert!(is_whitespace(' '));
    assert!(is_whitespace('\t'));
    assert!(is_whitespace('\n'));
    assert!(is_whitespace('\u{a0}'));
    assert!(is_whitespace('\u{3000}'));
    assert!(!is_whitespace('a'));
    assert!(!is_whitespace('\u{200b}'));
}

#[test]
fn words_are_maximal_runs_without_white_space() {
    assert_eq!(pieces("", 0), Vec::<String>::new());
    assert_eq!(pieces("   \t\n", 0), Vec::<String>::new());
    assert_eq!(pieces("one", 0), vec!["one"]);
    assert_eq!(pieces("  S 1000\t42  7\n", 0), vec!["S", "1000", "42", "7"]);
    assert_eq!(pieces("a\u{a0}b\u{2003}c", 0), vec!["a", "b", "c"]);
    assert_eq!(pieces("skip these words", 5), vec!["these", "words"]);
    assert_eq!(pieces("abc", 3), Vec::<String>::new());
}

#[test]
fn words_agree_with_split_whitespace() {
    let samples = [
        "",
        " ",
        "a",
        " a ",
        "a  b",
        "\ta\nb\r\nc ",
        "1234 (bash) S 1000 1234 1234 34816",
        "\u{85}x\u{1680}y\u{2028}",
        "no-blank",
    ];
    for sample in samples {
        let expected: Vec<String> = sample.split_whitespace().map(|w| w.to_string()).collect();
        assert_eq!(pieces(sample, 0), expected, "{:?}", sample);
    }
}

#[test]
fn trim_range_agrees_with_trim() {
    let samples = ["", " ", "bash\n", "  two words \t", "x", "\u{a0}wide\u{3000}", "\n\n"];
    for sample in samples {
        let chars = chars_of(sample);
        let (from, to) = trim_range(&chars);
        let got: String = chars[from..to].iter().collect();
        assert_eq!(got, sample.trim(), "{:?}", sample);
    }
}

#[test]
fn trim_range_of_blank_text_is_empty() {
    let chars = chars_of("   ");
    let (from, to) = trim_range(&chars);
    assert_eq!(from, to);
}

#[test]
fn parse_u32_reads_decimal_numbers() {
    assert_eq!(read_number("0"), Some(0));
    assert_eq!(read_number("42"), Some(42));
    assert_eq!(read_number("007"), Some(7));
    assert_eq!(read_number("+15"), Some(15));
    assert_eq!(read_number("4294967295"), Some(u32::MAX));
}

#[test]
fn parse_u32_rejects_what_is_no_number() {
    assert_eq!(read_number(""), None);
    assert_eq!(read_number("+"), None);
    assert_eq!(read_number("-1"), None);
    assert_eq!(read_number("12a"), None);
    assert_eq!(read_number(" 12"), None);
    assert_eq!(read_number("12 "), None);
    assert_eq!(read_number("++1"), None);
    assert_eq!(read_number("4294967296"), None);
    assert_eq!(read_number("99999999999999999999"), None);
    assert_eq!(read_number("\u{661}\u{662}"), None);
}

#[test]
fn parse_u32_agrees_with_the_standard_library() {
    let samples = [
        "", "0", "1", "+0", "+", "-0", "10", "4294967295", "4294967296", "4294967300",
        "42949672950", "000000000000001", "1_000", "0x10", "12.5", "١٢", "+-1",
    ];
    for sample in samples {
        assert_eq!(read_number(sample), sample.parse::<u32>().ok(), "{:?}", sample);
    }
}

#[test]
fn parse_u32_reads_a_part_of_the_text() {
    let chars = chars_of("S 1000 42");
    assert_eq!(parse_u32(&chars, 2, 6), Some(1000));
    assert_eq!(parse_u32(&chars, 7, 9), Some(42));
    assert_eq!(parse_u32(&chars, 0, 1), None);
    assert_eq!(parse_u32(&chars, 3, 3), None);
}

#[test]
fn push_decimal_writes_numerals() {
    assert_eq!(numeral(0), "0");
    assert_eq!(numeral(7), "7");
    assert_eq!(numeral(10), "10");
    assert_eq!(numeral(4030), "4030");
    assert_eq!(numeral(u32::MAX), "4294967295");
}

#[test]
fn push_decimal_appends_behind_what_is_there() {
    let mut out = String::from("pid=");
    push_decimal(&mut out, 123);
    assert_eq!(out, "pid=123");
}

#[test]
fn numerals_read_back() {
    for n in [0u32, 1, 9, 10, 99, 100, 65535, 1_000_000, u32::MAX] {
        assert_eq!(numeral(n), n.to_string());
        assert_eq!(read_number(&numeral(n)), Some(n));
    }
}

#[test]
fn contains_finds_substrings() {
    assert!(contains("gnome-terminal-server", "gnome-terminal"));
    assert!(contains("xterm", "xterm"));
    assert!(contains("anything", ""));
    assert!(contains("", ""));
    assert!(!contains("", "a"));
    assert!(!contains("term", "xterm"));
    assert!(!contains("Xterm", "xterm"));
    assert!(contains("aab", "ab"));
    assert!(contains("pr\u{e9}fix-\u{4e2d}", "-\u{4e2d}"));
}

#[test]
fn contains_agrees_with_the_standard_library() {
    let texts = ["", "a", "ab", "aaa", "abcabc", "kitty", "iTerm2", "Terminal.app"];
    for hay in texts {
        for needle in texts {
            assert_eq!(contains(hay, needle), hay.contains(needle), "{:?} in {:?}", needle, hay);
            assert_eq!(
                contains_chars(&chars_of(hay), &chars_of(needle)),
                hay.contains(needle)
            );
        }
    }
}

#[test]
fn rfind_char_finds_the_last_occurrence() {
    assert_eq!(rfind_char(&chars_of("1 (a) b) S"), ')'), Some(7));
    assert_eq!(rfind_char(&chars_of(")"), ')'), Some(0));
    assert_eq!(rfind_char(&chars_of("no paren"), ')'), None);
    assert_eq!(rfind_char(&chars_of(""), ')'), None);
}

#[test]
fn join_ranges_puts_single_blanks_between() {
    let text = " 501   /usr/bin/my  tool  ";
    let ranges = word_ranges(&chars_of(text), 0);
    assert_eq!(join_ranges(text, &ranges, 0), "501 /usr/bin/my tool");
    assert_eq!(join_ranges(text, &ranges, 1), "/usr/bin/my tool");
    assert_eq!(join_ranges(text, &ranges, 2), "tool");
    assert_eq!(join_ranges(text, &ranges, 3), "");
}
