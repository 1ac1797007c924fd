use asoul_weekly::text::{
    decimal, push_decimal, push_signed_decimal, push_two_digits, widen_brackets,
};

#[test]
fn decimal_numerals() {
    assert_eq!(decimal(0), "0");
    assert_eq!(decimal(7), "7");
    assert_eq!(decimal(10), "10");
    assert_eq!(decimal(114514), "114514");
    assert_eq!(decimal(u64::MAX), "18446744073709551615");
}

#[test]
fn decimal_is_appended() {
    let mut s = "n=".to_string();
    push_decimal(&mut s, 42);
    assert_eq!(s, "n=42");
}

#[test]
fn two_digits_pad_with_zero() {
    let mut s = String::new();
    push_two_digits(&mut s, 5);
    s.push(':');
    push_two_digits(&mut s, 59);
    s.push(':');
    push_two_digits(&mut s, 0);
    s.push(':');
    push_two_digits(&mut s, 123);
    assert_eq!(s, "05:59:00:123");
}

#[test]
fn signed_numerals() {
    let mut s = String::new();
    push_signed_decimal(&mut s, -99);
    s.push(' ');
    push_signed_decimal(&mut s, 0);
    s.push(' ');
    push_signed_decimal(&mut s, i64::MIN);
    s.push(' ');
    push_signed_decimal(&mut s, i64::MAX);
    assert_eq!(s, "-99 0 -9223372036854775808 9223372036854775807");
}

#[test]
fn brackets_are_widened() {
    assert_eq!(widen_brackets("a[b](c)"), "a【b】（c）");
    assert_eq!(widen_brackets("no brackets"), "no brackets");
    assert_eq!(widen_brackets(""), "");
    assert_eq!(widen_brackets("【】（）{}"), "【】（）{}");
}
