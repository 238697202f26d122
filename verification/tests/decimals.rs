use dbgen::decimal::{decimal_len, push_decimal, push_padded, push_repeated};

fn text(n: u128) -> String {
    let mut out = "=".to_string();
    push_decimal(&mut out, n);
    out
}

fn padded(n: u128, width: usize) -> String {
    let mut out = String::new();
    push_padded(&mut out, n, width);
    out
}

#[test]
fn numbers_are_written_in_decimal() {
    assert_eq!(text(0), "=0");
    assert_eq!(text(9), "=9");
    assert_eq!(text(10), "=10");
    assert_eq!(text(1_234_567_890), "=1234567890");
    assert_eq!(text(u128::MAX), "=340282366920938463463374607431768211455");
}

#[test]
fn digits_are_counted() {
    assert_eq!(decimal_len(0), 1);
    assert_eq!(decimal_len(9), 1);
    assert_eq!(decimal_len(10), 2);
    assert_eq!(decimal_len(99_999), 5);
    assert_eq!(decimal_len(u128::MAX), 39);
}

#[test]
fn numbers_are_padded_with_zeros() {
    assert_eq!(padded(7, 3), "007");
    assert_eq!(padded(0, 2), "00");
    assert_eq!(padded(123, 3), "123");
    assert_eq!(padded(1234, 3), "1234");
    assert_eq!(padded(5, 0), "5");
}

#[test]
fn written_numbers_read_back() {
    let mut n: u128 = 1;
    for i in 0..126 {
        assert_eq!(text(n)[1..].parse::<u128>(), Ok(n));
        assert_eq!(padded(n, 45).parse::<u128>(), Ok(n));
        n = n * 2 + i % 2;
    }
}

#[test]
fn padded_numbers_sort_by_size() {
    for i in 1..200 {
        assert!(padded(i - 1, 3) < padded(i, 3));
    }
}

#[test]
fn characters_are_repeated() {
    let mut out = "a".to_string();
    push_repeated(&mut out, "9", 4);
    push_repeated(&mut out, "x", 0);
    assert_eq!(out, "a9999");
}
