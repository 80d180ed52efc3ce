use cbake::number::decimal_string;
use cbake::number::digit_str;
use cbake::number::parse_u8_in;
use cbake::number::signed_decimal_string;
use cbake::text::char_is_whitespace;
use cbake::text::find;
use cbake::text::find_char_from;
use cbake::text::join;
use cbake::text::matches_at;
use cbake::text::same_text;
use cbake::text::slice;
use cbake::text::split_bounds;
use cbake::text::to_chars;
use cbake::text::trim_bounds;

fn chars(s: &str) -> Vec<char> {
    s.chars().collect()
}

fn trimmed(s: &str) -> String {
    let v = chars(s);
    let (from, to) = trim_bounds(&v);
    v[from..to].iter().collect()
}

#[test]
fn to_chars_gives_the_characters() {
    assert_eq!(to_chars(""), Vec::<char>::new());
    assert_eq!(to_chars("añb"), vec!['a', 'ñ', 'b']);
}

#[test]
fn whitespace_is_what_the_standard_library_calls_whitespace() {
    for code in 0..=0x10FFFFu32 {
        if let Some(c) = char::from_u32(code) {
            assert_eq!(char_is_whitespace(c), c.is_whitespace(), "U+{:04X}", code);
        }
    }
}

#[test]
fn trim_removes_white_space_at_both_ends() {
    assert_eq!(trimmed("  a b \n"), "a b");
    assert_eq!(trimmed("a"), "a");
    assert_eq!(trimmed(""), "");
    assert_eq!(trimmed(" \t\r\n"), "");
    assert_eq!(trimmed("\u{3000}x\u{2003}y\u{85}"), "x\u{2003}y");
    assert_eq!(trim_bounds(&chars("  ab ")), (2, 4));
    assert_eq!(trim_bounds(&chars("   ")), (3, 3));
    for s in ["", " ", "x", " x", "x ", "\n\nadd(\n a\n)\n\n", "\u{a0}é\u{1680}"] {
        assert_eq!(trimmed(s), s.trim());
    }
}

#[test]
fn find_gives_the_first_occurrence() {
    assert_eq!(find(&chars("abcabc"), &chars("bc")), Some(1));
    assert_eq!(find(&chars("abcabc"), &chars("abc")), Some(0));
    assert_eq!(find(&chars("abcabc"), &chars("cab")), Some(2));
    assert_eq!(find(&chars("abcabc"), &chars("x")), None);
    assert_eq!(find(&chars("abc"), &chars("abcd")), None);
    assert_eq!(find(&chars("abc"), &chars("")), Some(0));
    assert_eq!(find(&chars(""), &chars("")), Some(0));
    assert_eq!(find(&chars(""), &chars("a")), None);
    assert_eq!(find(&chars("aab"), &chars("ab")), Some(1));
    assert_eq!(find(&chars("éab"), &chars("ab")), Some(1));
    assert!(matches_at(&chars("abc"), &chars("bc"), 1));
    assert!(!matches_at(&chars("abc"), &chars("bc"), 0));
    assert!(!matches_at(&chars("abc"), &chars("bc"), 2));
    assert!(!matches_at(&chars("abc"), &chars("abcd"), 0));
    assert!(matches_at(&chars("abc"), &chars(""), 3));
    assert!(!matches_at(&chars("abc"), &chars(""), 4));
}

#[test]
fn find_char_from_starts_at_the_given_index() {
    assert_eq!(find_char_from(&chars("a)b)"), ')', 0), Some(1));
    assert_eq!(find_char_from(&chars("a)b)"), ')', 1), Some(1));
    assert_eq!(find_char_from(&chars("a)b)"), ')', 2), Some(3));
    assert_eq!(find_char_from(&chars("a)b)"), ')', 4), None);
    assert_eq!(find_char_from(&chars("a)b)"), ')', 9), None);
    assert_eq!(find_char_from(&chars("abc"), ')', 0), None);
}

#[test]
fn decimal_of_numbers() {
    assert_eq!(decimal_string(0), "0");
    assert_eq!(decimal_string(9), "9");
    assert_eq!(decimal_string(10), "10");
    assert_eq!(decimal_string(255), "255");
    assert_eq!(decimal_string(u64::MAX), "18446744073709551615");
    for n in 0..2000u64 {
        assert_eq!(decimal_string(n), n.to_string());
    }
    for d in 0..10u64 {
        assert_eq!(digit_str(d), d.to_string());
    }
    assert_eq!(signed_decimal_string(0), "0");
    assert_eq!(signed_decimal_string(-1), "-1");
    assert_eq!(signed_decimal_string(127), "127");
    assert_eq!(signed_decimal_string(i32::MIN), "-2147483648");
    assert_eq!(signed_decimal_string(i32::MAX), "2147483647");
}

#[test]
fn join_puts_the_separator_between() {
    let none: Vec<String> = Vec::new();
    assert_eq!(join(&none, ", "), "");
    assert_eq!(join(&["a".to_string()], ", "), "a");
    assert_eq!(join(&["a".to_string(), "b".to_string(), "".to_string()], ", "), "a, b, ");
    assert_eq!(join(&["a".to_string(), "b".to_string()], ""), "ab");
}

#[test]
fn slice_counts_characters() {
    assert_eq!(slice("héllo", 1, 3), "él");
    assert_eq!(slice("héllo", 0, 5), "héllo");
    assert_eq!(slice("héllo", 2, 2), "");
}

#[test]
fn split_bounds_gives_every_part() {
    let text = chars("a..bc.");
    assert_eq!(split_bounds(&text, 0, 6, '.'), vec![(0, 1), (2, 2), (3, 5), (6, 6)]);
    assert_eq!(split_bounds(&text, 1, 5, '.'), vec![(1, 1), (2, 2), (3, 5)]);
    assert_eq!(split_bounds(&text, 3, 5, '.'), vec![(3, 5)]);
    assert_eq!(split_bounds(&text, 2, 2, '.'), vec![(2, 2)]);
    for s in ["", ".", "1.2", "1.2.3", "..", "a.b.c.d"] {
        let v = chars(s);
        let parts: Vec<String> =
            split_bounds(&v, 0, v.len(), '.').iter().map(|b| v[b.0..b.1].iter().collect()).collect();
        let expected: Vec<String> = s.split('.').map(|p| p.to_string()).collect();
        assert_eq!(parts, expected);
    }
}

#[test]
fn parse_u8_reads_what_the_standard_parser_reads() {
    for s in ["0", "00", "255", "256", "0255", "1000", "+7", "+", "", "-0", "7+", "1 ", "٣", "99999999999999999999"] {
        let v = chars(s);
        assert_eq!(parse_u8_in(&v, 0, v.len()), s.parse::<u8>().ok(), "{:?}", s);
    }
    let v = chars("x12y");
    assert_eq!(parse_u8_in(&v, 1, 3), Some(12));
    assert_eq!(parse_u8_in(&v, 1, 4), None);
    assert_eq!(parse_u8_in(&v, 2, 2), None);
}

#[test]
fn same_text_compares_characters() {
    assert!(same_text("cpp", "cpp"));
    assert!(!same_text("cpp", "cp"));
    assert!(!same_text("cpp", "cpq"));
    assert!(same_text("", ""));
}
