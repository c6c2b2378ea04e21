use connect_games::date::{format_date, push_decimal};

#[test]
fn dates_are_not_padded() {
    assert_eq!(format_date(2024, 3, 17), "2024-3-17");
    assert_eq!(format_date(1999, 12, 31), "1999-12-31");
    assert_eq!(format_date(2023, 1, 1), "2023-1-1");
}

#[test]
fn dates_keep_zero_and_the_sign() {
    assert_eq!(format_date(0, 0, 0), "0-0-0");
    assert_eq!(format_date(-44, 3, 15), "-44-3-15");
    assert_eq!(format_date(i32::MIN, u32::MAX, 10), "-2147483648-4294967295-10");
    assert_eq!(format_date(i32::MAX, 7, 100), "2147483647-7-100");
}

#[test]
fn push_decimal_appends() {
    let mut text = String::from("n=");
    push_decimal(&mut text, 0);
    assert_eq!(text, "n=0");
    push_decimal(&mut text, 907);
    assert_eq!(text, "n=0907");
    push_decimal(&mut text, u64::MAX);
    assert_eq!(text, "n=090718446744073709551615");
}
