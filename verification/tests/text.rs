use remoting::text::{owned, push_decimal, push_digits, str_eq};

fn decimal(n: i64) -> String {
    let mut out = String::new();
    push_decimal(n, &mut out);
    out
}

#[test]
fn strings_compare_by_content() {
    assert!(str_eq("", ""));
    assert!(str_eq("abc", "abc"));
    assert!(!str_eq("abc", "abd"));
    assert!(!str_eq("abc", "ab"));
    assert!(!str_eq("ab", "abc"));
    assert!(str_eq("h\u{e9}llo", "h\u{e9}llo"));
    assert!(!str_eq("h\u{e9}llo", "hello"));
}

#[test]
fn owned_copies_the_text() {
    assert_eq!(owned("broker"), "broker".to_string());
    assert_eq!(owned(""), String::new());
}

#[test]
fn decimal_text_of_integers() {
    assert_eq!(decimal(0), "0");
    assert_eq!(decimal(7), "7");
    assert_eq!(decimal(10), "10");
    assert_eq!(decimal(8080), "8080");
    assert_eq!(decimal(-1), "-1");
    assert_eq!(decimal(-2147483648), "-2147483648");
    assert_eq!(decimal(i64::MAX), "9223372036854775807");
    assert_eq!(decimal(i64::MIN), "-9223372036854775808");
}

#[test]
fn digits_are_appended() {
    let mut out = "port ".to_string();
    push_digits(10911, &mut out);
    assert_eq!(out, "port 10911");
    push_digits(u64::MAX, &mut out);
    assert_eq!(out, "port 1091118446744073709551615");
}
