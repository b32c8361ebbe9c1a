use classic_server::decimal::{bool_string, decimal_string};

#[test]
fn decimal_of_single_digits() {
    assert_eq!(decimal_string(0), "0");
    assert_eq!(decimal_string(7), "7");
    assert_eq!(decimal_string(9), "9");
}

#[test]
fn decimal_has_no_leading_zero() {
    assert_eq!(decimal_string(10), "10");
    assert_eq!(decimal_string(100), "100");
    assert_eq!(decimal_string(1005), "1005");
    assert_eq!(decimal_string(25565), "25565");
}

#[test]
fn decimal_of_the_largest_number() {
    assert_eq!(decimal_string(65535), "65535");
    assert_eq!(decimal_string(u16::MAX), u16::MAX.to_string());
}

#[test]
fn decimal_agrees_with_the_standard_library() {
    let mut n: u16 = 0;
    loop {
        assert_eq!(decimal_string(n), n.to_string());
        if n > u16::MAX - 251 {
            break;
        }
        n += 251;
    }
}

#[test]
fn flags_are_written_as_words() {
    assert_eq!(bool_string(true), "true");
    assert_eq!(bool_string(false), "false");
}
