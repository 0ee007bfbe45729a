use std::time::Duration;

use healthcheck::dur::{ParseDurError, TimeUnit};

#[test]
fn test_missing_unit() {
    let error = "2000".parse::<TimeUnit>().unwrap_err();
    assert_eq!(ParseDurError::MissingUnit, error);
}

#[test]
fn test_missing_numeric_part() {
    match "ms".parse::<TimeUnit>() {
        Err(ParseDurError::InvalidNum(_)) => (),
        _ => panic!("Expected InvalidNum error"),
    };
}

#[test]
fn test_parse_ns() {
    let dur: TimeUnit = "1500ns".parse().unwrap();
    assert_eq!(Duration::from_nanos(1500), dur.to_duration());
}

#[test]
fn test_parse_us() {
    let dur: TimeUnit = "500us".parse().unwrap();
    assert_eq!(Duration::from_micros(500), dur.to_duration());
}

#[test]
fn test_parse_ms() {
    let dur: TimeUnit = "200ms".parse().unwrap();
    assert_eq!(Duration::from_millis(200), dur.to_duration());
}

#[test]
fn test_parse_s() {
    let dur: TimeUnit = "2s".parse().unwrap();
    assert_eq!(Duration::from_secs(2), dur.to_duration());
}

#[test]
fn test_parse_m() {
    let dur: TimeUnit = "4m".parse().unwrap();
    assert_eq!(Duration::from_secs(4 * 60), dur.to_duration());
}

#[test]
fn parse_keeps_variant_and_magnitude() {
    assert_eq!(TimeUnit::from_str("1500ns").unwrap(), TimeUnit::Nanos(1500));
    assert_eq!(TimeUnit::from_str("500us").unwrap(), TimeUnit::Micros(500));
    assert_eq!(TimeUnit::from_str("200ms").unwrap(), TimeUnit::Millis(200));
    assert_eq!(TimeUnit::from_str("2s").unwrap(), TimeUnit::Secs(2));
    assert_eq!(TimeUnit::from_str("4m").unwrap(), TimeUnit::Mins(4));
    assert_eq!(TimeUnit::from_str("007s").unwrap(), TimeUnit::Secs(7));
}

#[test]
fn unknown_unit_is_refused() {
    assert_eq!(TimeUnit::from_str("5xx").unwrap_err(), ParseDurError::InvalidUnit);
    assert_eq!(TimeUnit::from_str("5sec").unwrap_err(), ParseDurError::InvalidUnit);
    assert_eq!(TimeUnit::from_str("5 s").unwrap_err(), ParseDurError::InvalidUnit);
    assert_eq!(TimeUnit::from_str("5µs").unwrap_err(), ParseDurError::InvalidUnit);
}

#[test]
fn empty_and_digit_only_strings_miss_the_unit() {
    assert_eq!(TimeUnit::from_str("").unwrap_err(), ParseDurError::MissingUnit);
    assert_eq!(TimeUnit::from_str("0").unwrap_err(), ParseDurError::MissingUnit);
}

#[test]
fn leading_sign_or_space_is_an_invalid_number() {
    assert!(matches!(TimeUnit::from_str("-5s"), Err(ParseDurError::InvalidNum(_))));
    assert!(matches!(TimeUnit::from_str("+5s"), Err(ParseDurError::InvalidNum(_))));
    assert!(matches!(TimeUnit::from_str(" 5s"), Err(ParseDurError::InvalidNum(_))));
}

#[test]
fn magnitude_above_u64_is_an_invalid_number() {
    assert_eq!(
        TimeUnit::from_str("18446744073709551615ns").unwrap(),
        TimeUnit::Nanos(u64::MAX)
    );
    assert!(matches!(
        TimeUnit::from_str("18446744073709551616ns"),
        Err(ParseDurError::InvalidNum(_))
    ));
}

#[test]
fn sub_second_parts_are_kept() {
    assert_eq!(TimeUnit::Nanos(2_500_000_001).to_duration(), Duration::new(2, 500_000_001));
    assert_eq!(TimeUnit::Micros(1_000_001).to_duration(), Duration::new(1, 1_000));
    assert_eq!(TimeUnit::Millis(61_234).to_duration(), Duration::new(61, 234_000_000));
}

#[test]
fn largest_spans() {
    assert!(TimeUnit::Secs(u64::MAX).is_representable());
    assert_eq!(TimeUnit::Secs(u64::MAX).to_duration(), Duration::new(u64::MAX, 0));
    assert!(TimeUnit::Nanos(u64::MAX).is_representable());
    assert_eq!(TimeUnit::Nanos(u64::MAX).to_duration(), Duration::from_nanos(u64::MAX));
    let most_minutes = u64::MAX / 60;
    assert!(TimeUnit::Mins(most_minutes).is_representable());
    assert_eq!(
        TimeUnit::Mins(most_minutes).to_duration(),
        Duration::from_secs(most_minutes * 60)
    );
    assert!(!TimeUnit::Mins(most_minutes + 1).is_representable());
}

#[test]
fn error_messages() {
    assert_eq!(ParseDurError::MissingUnit.message(), "Duration unit is missing");
    assert_eq!(ParseDurError::InvalidUnit.message(), "Duration unit is in valid");
    let e = TimeUnit::from_str("ms").unwrap_err();
    assert_eq!(e.message(), "".parse::<u64>().unwrap_err().to_string());
}
