use iron_spider::utils::{
    human_duration, human_duration_secs, human_number_scale, u64_to_decimal, NumberScale,
};
use std::time::Duration;

#[test]
fn human_duration_of_zero_is_zero_seconds() {
    assert_eq!(human_duration_secs(0), "0 s");
}

#[test]
fn human_duration_leaves_out_zero_parts() {
    assert_eq!(human_duration_secs(59), "59 s");
    assert_eq!(human_duration_secs(60), "1 min");
    assert_eq!(human_duration_secs(3600), "1 h");
    assert_eq!(human_duration_secs(3661), "1 h 1 min 1 s");
    assert_eq!(human_duration_secs(86_400), "1 days");
    assert_eq!(human_duration_secs(90_061), "1 days 1 h 1 min 1 s");
    assert_eq!(human_duration_secs(2 * 86_400 + 5), "2 days 5 s");
}

#[test]
fn decimal_text_of_numbers() {
    assert_eq!(u64_to_decimal(0), "0");
    assert_eq!(u64_to_decimal(7), "7");
    assert_eq!(u64_to_decimal(1234567890), "1234567890");
    assert_eq!(u64_to_decimal(u64::MAX), u64::MAX.to_string());
}

#[test]
fn number_scale_thresholds() {
    assert_eq!(human_number_scale(999), NumberScale::Units);
    assert_eq!(human_number_scale(1_000), NumberScale::Thousands);
    assert_eq!(human_number_scale(999_999), NumberScale::Thousands);
    assert_eq!(human_number_scale(1_000_000), NumberScale::Millions);
    assert_eq!(human_number_scale(1_000_000_000), NumberScale::Billions);
    assert_eq!(human_number_scale(1_000_000_000_000), NumberScale::Trillions);
    assert_eq!(human_number_scale(1_000_000_000_000_000), NumberScale::Quadrillions);
    assert_eq!(human_number_scale(u64::MAX), NumberScale::Quadrillions);
    assert_eq!(NumberScale::Millions.divisor(), 1_000_000);
    assert_eq!(NumberScale::Thousands.suffix(), "K");
    assert_eq!(NumberScale::Units.suffix(), "");
}

#[test]
fn human_duration_counts_whole_seconds() {
    assert_eq!(human_duration(Duration::from_millis(999)), "0 s");
    assert_eq!(human_duration(Duration::from_millis(61_500)), "1 min 1 s");
    assert_eq!(human_duration(Duration::from_secs(3 * 86_400 + 7200)), "3 days 2 h");
}
