use wholesale_pricing::text::{decimal_text, wholesale_message};

#[test]
fn single_digits_are_written_as_one_character() {
    assert_eq!(decimal_text(0), "0");
    assert_eq!(decimal_text(5), "5");
    assert_eq!(decimal_text(9), "9");
}

#[test]
fn tier_percentages_are_written_without_a_fraction() {
    assert_eq!(decimal_text(5), "5");
    assert_eq!(decimal_text(10), "10");
    assert_eq!(decimal_text(15), "15");
    assert_eq!(decimal_text(20), "20");
}

#[test]
fn larger_numbers_keep_every_digit_in_order() {
    assert_eq!(decimal_text(100), "100");
    assert_eq!(decimal_text(1_234_567_890), "1234567890");
    assert_eq!(decimal_text(u32::MAX), "4294967295");
}

#[test]
fn decimal_text_agrees_with_the_standard_rendering() {
    for n in 0..2_000u32 {
        assert_eq!(decimal_text(n), n.to_string());
    }
}

#[test]
fn message_names_the_percentage() {
    assert_eq!(wholesale_message(10), "Wholesale discount: 10% off");
    assert_eq!(wholesale_message(15), "Wholesale discount: 15% off");
    assert_eq!(wholesale_message(20), "Wholesale discount: 20% off");
}
