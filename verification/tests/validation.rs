use canvas_server::decimal::{decimal_string, push_decimal};
use canvas_server::validate_name;

#[test]
fn validate_name_accepts_any_non_empty_name() {
    assert_eq!(validate_name("Ada".to_string()), Ok("Ada".to_string()));
    assert_eq!(validate_name(" ".to_string()), Ok(" ".to_string()));
    assert_eq!(validate_name("é".to_string()), Ok("é".to_string()));
}

#[test]
fn validate_name_rejects_the_empty_name() {
    assert_eq!(validate_name(String::new()), Err("Names must not be empty".to_string()));
}

#[test]
fn decimal_string_of_single_digits() {
    assert_eq!(decimal_string(0), "0");
    assert_eq!(decimal_string(7), "7");
    assert_eq!(decimal_string(9), "9");
}

#[test]
fn decimal_string_of_longer_numbers() {
    assert_eq!(decimal_string(10), "10");
    assert_eq!(decimal_string(42), "42");
    assert_eq!(decimal_string(1005), "1005");
    assert_eq!(decimal_string(1234567890), "1234567890");
}

#[test]
fn decimal_string_of_negative_numbers() {
    assert_eq!(decimal_string(-1), "-1");
    assert_eq!(decimal_string(-10), "-10");
    assert_eq!(decimal_string(-987), "-987");
}

#[test]
fn decimal_string_at_the_ends_of_the_range() {
    assert_eq!(decimal_string(i32::MAX), "2147483647");
    assert_eq!(decimal_string(i32::MIN), "-2147483648");
}

#[test]
fn decimal_string_agrees_with_the_standard_formatting() {
    let samples = [0, 1, -1, 9, 10, 11, 99, 100, 101, -100, 65535, -65536, i32::MAX, i32::MIN];
    for n in samples {
        assert_eq!(decimal_string(n), format!("{}", n));
    }
    let mut n: i32 = 1;
    for _ in 0..30 {
        assert_eq!(decimal_string(n), format!("{}", n));
        assert_eq!(decimal_string(-n), format!("{}", -n));
        n = n.wrapping_mul(3).wrapping_add(7) & 0x3fff_ffff;
    }
}

#[test]
fn push_decimal_appends_to_what_is_there() {
    let mut text = String::from("id ");
    push_decimal(&mut text, 305);
    assert_eq!(text, "id 305");
    push_decimal(&mut text, -4);
    assert_eq!(text, "id 305-4");
}
