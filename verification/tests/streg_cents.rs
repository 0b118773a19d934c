use stregsystemet::streg_cents::{stregcents_sum, StregCents};

#[test]
fn to_string() {
    let streg_cents = StregCents(725);
    let streg_cents_zero_cents = StregCents(800);
    let streg_cents_zero = StregCents(0);

    assert_eq!(streg_cents.to_string(), "7.25");
    assert_eq!(streg_cents_zero_cents.to_string(), "8.00");
    assert_eq!(streg_cents_zero.to_string(), "0.00");
}

#[test]
fn to_string_pads_cents() {
    assert_eq!(StregCents(5).to_string(), "0.05");
    assert_eq!(StregCents(100).to_string(), "1.00");
    assert_eq!(StregCents(12345).to_string(), "123.45");
}

#[test]
fn to_string_negative() {
    assert_eq!(StregCents(-725).to_string(), "-7.-25");
    assert_eq!(StregCents(-5).to_string(), "0.-5");
    assert_eq!(StregCents(-100).to_string(), "-1.00");
}

#[test]
fn checked_add_overflow() {
    assert_eq!(StregCents(1).checked_add(StregCents(2)), Some(StregCents(3)));
    assert_eq!(StregCents(i64::MAX).checked_add(StregCents(1)), None);
    assert_eq!(StregCents(i64::MIN).checked_add(StregCents(-1)), None);
}

#[test]
fn checked_sub_overflow() {
    assert_eq!(StregCents(5).checked_sub(StregCents(7)), Some(StregCents(-2)));
    assert_eq!(StregCents(i64::MIN).checked_sub(StregCents(1)), None);
}

#[test]
fn checked_mul_overflow() {
    assert_eq!(StregCents(200).checked_mul(3), Some(StregCents(600)));
    assert_eq!(StregCents(i64::MAX).checked_mul(2), None);
}

#[test]
fn sum_of_values() {
    let items = [Some(StregCents(100)), Some(StregCents(250)), Some(StregCents(0))];
    assert_eq!(stregcents_sum(&items), Some(StregCents(350)));
}

#[test]
fn sum_of_empty_is_zero() {
    let items: [Option<StregCents>; 0] = [];
    assert_eq!(stregcents_sum(&items), Some(StregCents(0)));
}

#[test]
fn sum_fails_on_failed_element() {
    let items = [Some(StregCents(100)), None, Some(StregCents(1))];
    assert_eq!(stregcents_sum(&items), None);
}

#[test]
fn sum_fails_on_overflow() {
    let items = [Some(StregCents(i64::MAX)), Some(StregCents(1))];
    assert_eq!(stregcents_sum(&items), None);
}
