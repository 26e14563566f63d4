use aegnt_27::error::{AegntError, ErrorKind};
use aegnt_27::fixed::{clamp_unit, isqrt, UNIT};
use aegnt_27::platform::EpochReading;
use aegnt_27::text::{decimal, decimal_wide, signed_decimal, zero_padded};
use aegnt_27::utils::{
    calculate_authenticity_score, generate_session_id, session_id_at, session_id_from,
    validate_range,
};

fn wait_for_next_millisecond() {
    let start = std::time::Instant::now();
    while start.elapsed().as_millis() < 2 {}
}

#[test]
fn test_session_id_generation() {
    let id1 = generate_session_id();
    wait_for_next_millisecond();
    let id2 = generate_session_id();

    assert_ne!(id1, id2);
    assert!(id1.starts_with("aegnt_"));
    assert!(id2.starts_with("aegnt_"));
}

#[test]
fn test_range_validation() {
    assert!(validate_range(500_000, 0, 1_000_000, "test").is_ok());
    assert!(validate_range(-100_000, 0, 1_000_000, "test").is_err());
    assert!(validate_range(1_100_000, 0, 1_000_000, "test").is_err());
}

#[test]
fn test_authenticity_calculation() {
    assert_eq!(calculate_authenticity_score(&[]), 0);
    assert_eq!(calculate_authenticity_score(&[1_000_000]), 1_000_000);
    assert_eq!(
        calculate_authenticity_score(&[800_000, 900_000, 1_000_000]),
        900_000
    );
}

#[test]
fn session_id_is_prefix_and_decimal_millis() {
    assert_eq!(session_id_at(1234), "aegnt_1234");
    assert_eq!(session_id_at(0), "aegnt_0");
    let id = generate_session_id();
    let digits = &id["aegnt_".len()..];
    let millis: u64 = digits.parse().unwrap();
    // Later than the first of January 2020.
    assert!(millis > 1_577_836_800_000);
}

#[test]
fn range_validation_accepts_the_bounds() {
    assert!(validate_range(0, 0, 1_000_000, "edge").is_ok());
    assert!(validate_range(1_000_000, 0, 1_000_000, "edge").is_ok());
}

#[test]
fn range_validation_reports_a_config_error() {
    let error = validate_range(-100_000, 0, 1_000_000, "rate").unwrap_err();
    assert_eq!(error.kind(), ErrorKind::Config);
    assert_eq!(
        error.message(),
        "Configuration error: rate must be between 0 and 1000000, got -100000"
    );
}

#[test]
fn mean_of_factors_rounds_down() {
    assert_eq!(calculate_authenticity_score(&[1, 2]), 1);
    assert_eq!(calculate_authenticity_score(&[u64::MAX, u64::MAX]), u64::MAX);
}

#[test]
fn error_constructors_set_kind_and_message() {
    assert_eq!(AegntError::config("a").kind(), ErrorKind::Config);
    assert_eq!(AegntError::io("b").kind(), ErrorKind::Io);
    assert_eq!(AegntError::auth("c").kind(), ErrorKind::Auth);
    assert_eq!(AegntError::internal("d").kind(), ErrorKind::Internal);
    assert_eq!(AegntError::storage("e").kind(), ErrorKind::Storage);
    assert_eq!(AegntError::config("bad").message(), "Configuration error: bad");
    assert_eq!(AegntError::io("disk").message(), "I/O error: disk");
    assert_eq!(AegntError::auth("who").message(), "Authentication error: who");
    assert_eq!(AegntError::internal("oops").message(), "Internal error: oops");
    assert_eq!(AegntError::storage("full").message(), "Storage error: full");
}

#[test]
fn clamp_unit_limits_both_ways() {
    assert_eq!(clamp_unit(-1), 0);
    assert_eq!(clamp_unit(0), 0);
    assert_eq!(clamp_unit(250_000), 250_000);
    assert_eq!(clamp_unit(1_000_000), UNIT);
    assert_eq!(clamp_unit(i64::MAX), UNIT);
    assert_eq!(clamp_unit(i64::MIN), 0);
}

#[test]
fn integer_square_root_is_the_floor() {
    assert_eq!(isqrt(0), 0);
    assert_eq!(isqrt(1), 1);
    assert_eq!(isqrt(15), 3);
    assert_eq!(isqrt(16), 4);
    assert_eq!(isqrt(6_666_666_666), 81_649);
    assert_eq!(isqrt(u64::MAX), 4_294_967_295);
}

#[test]
fn decimal_rendering() {
    assert_eq!(decimal(0), "0");
    assert_eq!(decimal(7), "7");
    assert_eq!(decimal(1234567890), "1234567890");
    assert_eq!(decimal(u64::MAX), "18446744073709551615");
    assert_eq!(signed_decimal(-42), "-42");
    assert_eq!(signed_decimal(42), "42");
    assert_eq!(signed_decimal(i64::MIN), "-9223372036854775808");
    assert_eq!(zero_padded(7, 2), "07");
    assert_eq!(zero_padded(123, 2), "123");
    assert_eq!(zero_padded(5, 4), "0005");
    assert_eq!(zero_padded(0, 0), "0");
}

#[test]
fn session_id_of_a_clock_before_the_epoch_is_that_of_the_epoch() {
    assert_eq!(session_id_from(EpochReading::Before), "aegnt_0");
    assert_eq!(session_id_from(EpochReading::Since(0)), "aegnt_0");
    assert_eq!(session_id_from(EpochReading::Since(1_700_000_000_123)), "aegnt_1700000000123");
    assert_eq!(
        session_id_at(u128::MAX),
        "aegnt_340282366920938463463374607431768211455"
    );
}

#[test]
fn wide_decimal_rendering() {
    assert_eq!(decimal_wide(0), "0");
    assert_eq!(decimal_wide(18_446_744_073_709_551_616), "18446744073709551616");
    assert_eq!(decimal_wide(u128::MAX), "340282366920938463463374607431768211455");
}
