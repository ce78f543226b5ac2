use tasklist::text::{
    chars_eq, chars_eq_ignore_ascii_case, chars_of, decimal_chars, is_whitespace, pad_chars,
    parse_u32, split_chars, strip_chars, Pat,
};

fn v(s: &str) -> Vec<char> {
    s.chars().collect()
}

fn s(v: &[char]) -> String {
    v.iter().collect()
}

#[test]
fn whitespace_agrees_with_std_for_every_char() {
    for u in 0u32..=0x10ffff {
        if let Some(c) = char::from_u32(u) {
            assert_eq!(is_whitespace(c), c.is_whitespace(), "char {:#x}", u);
        }
    }
}

#[test]
fn strip_agrees_with_trim() {
    let samples = [
        "", " ", "  a b  ", "\t\nx\u{3000}", "\u{a0}y\u{85}", "\"q\"", "  \"id\"", "\"\"\"", "ab",
    ];
    for x in samples.iter() {
        assert_eq!(s(&strip_chars(&v(x), Pat::Whitespace)), x.trim());
        assert_eq!(s(&strip_chars(&v(x), Pat::Char('"'))), x.trim_matches('"'));
    }
}

#[test]
fn split_agrees_with_str_split() {
    let cases = [
        ("a,b,,c", ","),
        ("", ","),
        (",", ","),
        ("\"id\": 1", ": "),
        ("x: y: z", ": "),
        ("{a}, {b}, {c}", "}, {"),
        ("}, {}, {", "}, {"),
        ("aaa", "aa"),
        ("no sep here", "}, {"),
    ];
    for (x, sep) in cases.iter() {
        let got: Vec<String> = split_chars(&v(x), &v(sep)).iter().map(|p| s(p)).collect();
        let want: Vec<String> = x.split(sep).map(|p| p.to_string()).collect();
        assert_eq!(got, want, "splitting {:?} at {:?}", x, sep);
    }
}

#[test]
fn parse_u32_agrees_with_std() {
    let cases = [
        "0", "7", "007", "+5", "+", "", "-1", "-0", "4294967295", "4294967296", "99999999999",
        "12a", " 1", "1 ", "++1",
    ];
    for x in cases.iter() {
        assert_eq!(parse_u32(&v(x)), x.parse::<u32>().ok(), "parsing {:?}", x);
    }
}

#[test]
fn decimal_agrees_with_to_string() {
    for n in [0u32, 1, 9, 10, 42, 100, 65535, 4294967295].iter() {
        assert_eq!(s(&decimal_chars(*n)), n.to_string());
    }
}

#[test]
fn padding_agrees_with_format() {
    for x in ["", "abc", "exactly twenty chars", "longer than twenty characters", "한글"].iter() {
        assert_eq!(s(&pad_chars(&v(x), 20)), format!("{:<20}", x));
    }
    assert_eq!(s(&pad_chars(&v("7"), 4)), "7   ");
}

#[test]
fn ignore_case_agrees_with_std() {
    let pairs = [("today", "TODAY"), ("today", "ToDaY"), ("today", "tomorrow"), ("", ""), ("é", "É")];
    for (a, b) in pairs.iter() {
        assert_eq!(chars_eq_ignore_ascii_case(&v(a), &v(b)), a.eq_ignore_ascii_case(b));
    }
}

#[test]
fn chars_round_trip_through_strings() {
    let x = "héllo, wörld";
    assert_eq!(chars_of(x), v(x));
    assert!(chars_eq(&v(x), &v(x)));
    assert!(!chars_eq(&v(x), &v("hello")));
}

