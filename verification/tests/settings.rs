use safe_migrate::settings::{parse_timeout_ms, ScopedSetting, MAX_TIMEOUT_MS};

#[test]
fn parses_documented_time_units_into_milliseconds() {
    assert_eq!(parse_timeout_ms("0").unwrap(), 0);
    assert_eq!(parse_timeout_ms("500").unwrap(), 500);
    assert_eq!(parse_timeout_ms("1500 us").unwrap(), 2);
    assert_eq!(parse_timeout_ms("1.5ms").unwrap(), 2);
    assert_eq!(parse_timeout_ms("2.5ms").unwrap(), 2);
    assert_eq!(parse_timeout_ms("3.5ms").unwrap(), 4);
    assert_eq!(parse_timeout_ms("1e-3s").unwrap(), 1);
    assert_eq!(parse_timeout_ms("0x10ms").unwrap(), 16);
    assert_eq!(parse_timeout_ms("010ms").unwrap(), 8);
    assert_eq!(parse_timeout_ms("1.5s").unwrap(), 1_500);
    assert_eq!(parse_timeout_ms("2min").unwrap(), 120_000);
    assert_eq!(parse_timeout_ms("1h").unwrap(), 3_600_000);
    assert_eq!(parse_timeout_ms("1d").unwrap(), 86_400_000);
}

#[test]
fn rejects_negative_unknown_and_out_of_range_values() {
    assert!(parse_timeout_ms("-1").is_err());
    assert!(parse_timeout_ms("1sec").is_err());
    assert!(parse_timeout_ms("NaN").is_err());
    assert!(parse_timeout_ms("1e+s").is_err());
    assert!(parse_timeout_ms("09ms").is_err());
    assert!(parse_timeout_ms("08.0ms").is_err());
    assert!(parse_timeout_ms("2147483648ms").is_err());
}

#[test]
fn timeout_errors_say_what_is_wrong() {
    assert_eq!(parse_timeout_ms(" ").unwrap_err(), "timeout value is empty");
    assert_eq!(parse_timeout_ms("abc").unwrap_err(), "invalid timeout value 'abc'");
    assert_eq!(parse_timeout_ms("0x").unwrap_err(), "invalid timeout value '0x'");
    assert_eq!(parse_timeout_ms(".").unwrap_err(), "invalid timeout value '.'");
    assert_eq!(parse_timeout_ms("5 weeks").unwrap_err(), "invalid timeout unit in '5 weeks'");
    assert_eq!(
        parse_timeout_ms("2147483648").unwrap_err(),
        "timeout value '2147483648' exceeds PostgreSQL's maximum"
    );
    assert_eq!(parse_timeout_ms("0x1ffffffffffffffff").unwrap_err(), "invalid timeout value '0x1ffffffffffffffff'");
}

#[test]
fn timeouts_round_at_the_limit() {
    assert_eq!(parse_timeout_ms("2147483647").unwrap(), MAX_TIMEOUT_MS);
    assert_eq!(parse_timeout_ms("2147483647.4").unwrap(), MAX_TIMEOUT_MS);
    assert!(parse_timeout_ms("2147483647.5").is_err());
    assert!(parse_timeout_ms("24d").is_ok());
    assert!(parse_timeout_ms("25d").is_err());
}

#[test]
fn very_large_and_very_small_timeouts() {
    assert_eq!(parse_timeout_ms("1e400").unwrap_err(), "invalid timeout value '1e400'");
    assert_eq!(parse_timeout_ms("1e308").unwrap_err(), "timeout value '1e308' exceeds PostgreSQL's maximum");
    assert_eq!(parse_timeout_ms("1.7976931348623158e308").unwrap_err(), "timeout value '1.7976931348623158e308' exceeds PostgreSQL's maximum");
    assert_eq!(parse_timeout_ms("1.7976931348623159e308").unwrap_err(), "invalid timeout value '1.7976931348623159e308'");
    assert_eq!(parse_timeout_ms("1e99999999999999999999999999999999").unwrap_err(), "invalid timeout value '1e99999999999999999999999999999999'");
    assert_eq!(parse_timeout_ms("1e-99999999999999999999999999999999").unwrap(), 0);
    assert_eq!(parse_timeout_ms("0e99999999999999999999999999999999").unwrap(), 0);
    assert_eq!(parse_timeout_ms("1e-400").unwrap(), 0);
    assert_eq!(parse_timeout_ms("+.5s").unwrap(), 500);
    assert_eq!(parse_timeout_ms("1.E2").unwrap(), 100);
    assert_eq!(parse_timeout_ms("499us").unwrap(), 0);
    assert_eq!(parse_timeout_ms("500us").unwrap(), 0);
    assert_eq!(parse_timeout_ms("501us").unwrap(), 1);
    assert_eq!(parse_timeout_ms("0.00000000001d").unwrap(), 0);
    assert_eq!(parse_timeout_ms("\u{a0}7 ms\t").unwrap(), 7);
}

#[test]
fn timeouts_are_taken_in_double_precision() {
    assert_eq!(parse_timeout_ms("0.5000000000000000001ms").unwrap(), 0);
    assert_eq!(parse_timeout_ms("500.00000000000001us").unwrap(), 0);
    assert_eq!(parse_timeout_ms("500.0000000000001us").unwrap(), 1);
    assert_eq!(parse_timeout_ms("0.5015s").unwrap(), 501);
    assert_eq!(parse_timeout_ms("0.5095s").unwrap(), 509);
    assert_eq!(parse_timeout_ms("2147483647.4999").unwrap(), MAX_TIMEOUT_MS);
    assert!(parse_timeout_ms("2147483647.4999999999").is_err());
    assert_eq!(parse_timeout_ms("2147483647499.9us").unwrap(), MAX_TIMEOUT_MS);
    assert!(parse_timeout_ms("2147483647499.9999us").is_err());
    assert_eq!(parse_timeout_ms("2147483646500us").unwrap(), 2_147_483_646);
    assert!(parse_timeout_ms("24.855134814814813d").is_err());
    assert!(parse_timeout_ms("0xffffffffffffffffus").is_err());
    assert!(parse_timeout_ms("9007199254740993us").is_err());
    assert_eq!(parse_timeout_ms("5e-324d").unwrap(), 0);
}

#[test]
fn timeouts_agree_with_floating_point() {
    let units = [("", 1.0f64), ("us", 0.001), ("s", 1_000.0), ("min", 60_000.0), ("h", 3_600_000.0), ("d", 86_400_000.0)];
    let mut seed: u64 = 12_345;
    for round in 0..4_000u32 {
        seed = seed.wrapping_mul(6_364_136_223_846_793_005).wrapping_add(1_442_695_040_888_963_407);
        let whole = (seed >> 40) >> (round % 24);
        let part = (seed >> 8) % 1_000_000_000;
        let text = format!("{}.{:09}", whole, part);
        let number: f64 = text.parse().unwrap();
        let (unit, factor) = units[(round % 6) as usize];
        let ms = (number * factor).round_ties_even();
        let expected = if ms > 2_147_483_647.0 { None } else { Some(ms as u64) };
        let written = format!("{}{}", text, unit);
        assert_eq!(parse_timeout_ms(&written).ok(), expected, "{}", written);
    }
}

#[test]
fn scoped_setting_returns_to_the_session_value() {
    let mut setting = ScopedSetting::new(Some(5u64));
    setting.effective = Some(9);
    setting.reset_effective_to_session();
    assert_eq!(setting.effective, Some(5));
    assert_eq!(setting, ScopedSetting { default: Some(5), session: Some(5), effective: Some(5) });
}
