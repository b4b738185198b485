use account_ledger::money::{money_to_string, push_decimal, push_money, MONEY_SHIFT};

#[test]
fn one_unit_is_ten_thousand() {
    assert_eq!(MONEY_SHIFT, 10000);
    assert_eq!(money_to_string(MONEY_SHIFT), "1");
}

#[test]
fn whole_amounts_have_no_point() {
    assert_eq!(money_to_string(0), "0");
    assert_eq!(money_to_string(10000), "1");
    assert_eq!(money_to_string(1390000), "139");
    assert_eq!(money_to_string(19700000), "1970");
    assert_eq!(money_to_string(-20000), "-2");
}

#[test]
fn decimal_places_lose_their_last_zeros() {
    assert_eq!(money_to_string(21200), "2.12");
    assert_eq!(money_to_string(189999), "18.9999");
    assert_eq!(money_to_string(205000), "20.5");
    assert_eq!(money_to_string(1595000), "159.5");
    assert_eq!(money_to_string(48631), "4.8631");
    assert_eq!(money_to_string(20962), "2.0962");
    assert_eq!(money_to_string(69593), "6.9593");
    assert_eq!(money_to_string(10100), "1.01");
    assert_eq!(money_to_string(10010), "1.001");
    assert_eq!(money_to_string(10001), "1.0001");
}

#[test]
fn amounts_below_one_unit_start_with_zero() {
    assert_eq!(money_to_string(1), "0.0001");
    assert_eq!(money_to_string(10), "0.001");
    assert_eq!(money_to_string(100), "0.01");
    assert_eq!(money_to_string(1000), "0.1");
    assert_eq!(money_to_string(9999), "0.9999");
    assert_eq!(money_to_string(-5000), "-0.5");
    assert_eq!(money_to_string(-1), "-0.0001");
}

#[test]
fn the_ends_of_the_range_are_written_in_full() {
    assert_eq!(money_to_string(i64::MAX), "922337203685477.5807");
    assert_eq!(money_to_string(i64::MIN), "-922337203685477.5808");
}

#[test]
fn push_money_writes_at_the_end() {
    let mut out = String::from("total=");
    push_money(&mut out, 21200);
    assert_eq!(out, "total=2.12");
    push_money(&mut out, -10000);
    assert_eq!(out, "total=2.12-1");
}

#[test]
fn push_decimal_writes_every_digit() {
    let mut out = String::new();
    push_decimal(&mut out, 0);
    assert_eq!(out, "0");
    push_decimal(&mut out, 65535);
    assert_eq!(out, "065535");
    let mut out = String::new();
    push_decimal(&mut out, u64::MAX);
    assert_eq!(out, "18446744073709551615");
    let mut out = String::new();
    push_decimal(&mut out, 1234567890);
    assert_eq!(out, "1234567890");
}
