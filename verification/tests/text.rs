use comfy_executor::text::{push_decimal, str_eq, string_of, trimmed, chars_of};

#[test]
fn decimal_numerals() {
    for n in [0u64, 7, 10, 99, 1234567890, u64::MAX] {
        let mut s = String::from("#");
        push_decimal(&mut s, n);
        assert_eq!(s, format!("#{}", n));
    }
}

#[test]
fn trimming_matches_std() {
    for t in ["", "  a b  ", "\u{3000}x\u{2029}", "\t\n", "x"] {
        let v = chars_of(t);
        assert_eq!(string_of(&trimmed(&v)), t.trim());
    }
}

#[test]
fn string_equality() {
    assert!(str_eq("abc", "abc"));
    assert!(!str_eq("abc", "abd"));
    assert!(!str_eq("ab", "abc"));
}
