use nicy_runtime::text::{
    find_char, lines, parse_digits_u32, parse_i32, push_dec_i32, push_dec_u128, push_dec_u64,
    remove_all_of, starts_with, str_eq, str_le, suffix_from, trim,
};

#[test]
fn decimal_numbers() {
    let mut s = String::new();
    push_dec_u64(&mut s, 0);
    s.push(' ');
    push_dec_u64(&mut s, 18446744073709551615);
    s.push(' ');
    push_dec_i32(&mut s, i32::MIN);
    s.push(' ');
    push_dec_u128(&mut s, u128::MAX);
    assert_eq!(s, "0 18446744073709551615 -2147483648 340282366920938463463374607431768211455");
}

#[test]
fn parsing_i32_like_std() {
    for text in ["0", "42", "-7", "+9", "2147483647", "-2147483648", "", "-", "+", "2147483648", "1a", " 1", "007"] {
        assert_eq!(parse_i32(text), text.parse::<i32>().ok(), "{:?}", text);
    }
}

#[test]
fn digits_in_a_range() {
    assert_eq!(parse_digits_u32("ab123cd", 2, 5), Some(123));
    assert_eq!(parse_digits_u32("99999999999", 0, 11), None);
}

#[test]
fn lines_like_std() {
    for text in ["", "a", "a\n", "a\nb", "a\r\nb\r\n", "\n\n", "x\r", "a\n\nb"] {
        let ours = lines(text);
        let std_lines: Vec<String> = text.lines().map(|l| l.to_string()).collect();
        assert_eq!(ours, std_lines, "{:?}", text);
    }
}

#[test]
fn trimming_like_std() {
    for text in ["", "  a b  ", "\t\n x\u{3000}", "\u{a0}y\u{2029}", "none"] {
        assert_eq!(trim(text), text.trim(), "{:?}", text);
    }
}

#[test]
fn small_text_helpers() {
    assert!(starts_with("--!native", "--!"));
    assert!(!starts_with("-", "--"));
    assert!(str_eq("abc", "abc"));
    assert!(!str_eq("abc", "abd"));
    assert_eq!(suffix_from("héllo", 1), "éllo");
    assert_eq!(find_char("a/b/c", '/'), Some(1));
    assert_eq!(find_char("abc", '/'), None);
    assert_eq!(remove_all_of("xxabxab", "ab"), "xxx");
    assert_eq!(remove_all_of("aaa", "aa"), "a");
}

#[test]
fn order_like_str() {
    for (a, b) in [("a", "b"), ("a", "a"), ("ab", "a"), ("", "z"), ("é", "z"), ("-a", ".so")] {
        assert_eq!(str_le(a, b), a <= b, "{:?} {:?}", a, b);
    }
}
