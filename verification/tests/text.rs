use secure_delete::text::{
    double_quotes_exec, strip_line_end_exec,
    chars_of, i64_to_decimal, lines_of, parse_u64, str_contains, str_eq, trim_chars, u64_to_decimal, words_of,
};

fn s(v: &[char]) -> String {
    v.iter().collect()
}

#[test]
fn lines_follow_str_lines() {
    for t in ["", "a", "a\n", "a\r\nb", "\n", "\n\n", "x\ny\r\n\r\n", "\r"] {
        let ours: Vec<String> = lines_of(t).iter().map(|l| s(l)).collect();
        let std: Vec<String> = t.lines().map(|l| l.to_string()).collect();
        assert_eq!(ours, std, "{t:?}");
    }
}

#[test]
fn words_follow_split_whitespace() {
    for t in ["", "  a b\tc  ", "x", " \n "] {
        let cs = chars_of(t);
        let ours: Vec<String> = words_of(&cs).iter().map(|w| s(w)).collect();
        let std: Vec<String> = t.split_whitespace().map(|w| w.to_string()).collect();
        assert_eq!(ours, std);
    }
}

#[test]
fn trim_follows_str_trim() {
    for t in ["", "  a b  ", "\t\nx\r\n", "   "] {
        assert_eq!(s(&trim_chars(&chars_of(t))), t.trim());
    }
}

#[test]
fn parse_follows_str_parse() {
    for t in ["0", "42", "+7", "", "+", "-1", "12a", "18446744073709551615", "18446744073709551616", "007"] {
        assert_eq!(parse_u64(&chars_of(t)), t.parse::<u64>().ok(), "{t:?}");
    }
}

#[test]
fn decimals() {
    assert_eq!(u64_to_decimal(0), "0");
    assert_eq!(u64_to_decimal(1234567890), "1234567890");
    assert_eq!(u64_to_decimal(u64::MAX), u64::MAX.to_string());
    assert_eq!(i64_to_decimal(-12), "-12");
    assert_eq!(i64_to_decimal(i64::MIN), i64::MIN.to_string());
}

#[test]
fn search_and_equality() {
    assert!(str_contains("hello world", "o w"));
    assert!(str_contains("abc", ""));
    assert!(!str_contains("abc", "abcd"));
    assert!(str_eq("x", "x"));
    assert!(!str_eq("x", "y"));
}

#[test]
fn line_ends_and_quotes() {
    for t in ["pw\n", "pw\r\n", "pw", "\n\r\n", "a\nb\n", ""] {
        assert_eq!(strip_line_end_exec(t), t.trim_end_matches(['\n', '\r']));
    }
    assert_eq!(double_quotes_exec(r"C:\it's here"), r"C:\it''s here");
    assert_eq!(double_quotes_exec("''"), "''''");
}
