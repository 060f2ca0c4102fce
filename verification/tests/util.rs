use celeste_autosplit::util::{duration_to_m_s_ms, format_time, format_time_with_units};

#[test]
fn splits_a_time_into_minutes_seconds_and_milliseconds() {
    assert_eq!(duration_to_m_s_ms(0), (0, 0, 0));
    assert_eq!(duration_to_m_s_ms(999), (0, 0, 999));
    assert_eq!(duration_to_m_s_ms(1_000), (0, 1, 0));
    assert_eq!(duration_to_m_s_ms(59_999), (0, 59, 999));
    assert_eq!(duration_to_m_s_ms(60_000), (1, 0, 0));
    assert_eq!(duration_to_m_s_ms(754_321), (12, 34, 321));
    assert_eq!(duration_to_m_s_ms(u64::MAX), (307_445_734_561_825, 51, 615));
}

#[test]
fn formats_a_time_with_leading_zeros() {
    assert_eq!(format_time(0), "00:00.000");
    assert_eq!(format_time(61_007), "01:01.007");
    assert_eq!(format_time(754_321), "12:34.321");
    assert_eq!(format_time(6_000_000), "100:00.000");
}

#[test]
fn formats_a_time_with_units() {
    assert_eq!(format_time_with_units(0), "00m 00.000s");
    assert_eq!(format_time_with_units(61_007), "01m 01.007s");
    assert_eq!(format_time_with_units(754_321), "12m 34.321s");
}

#[test]
fn formats_as_the_standard_formatter_does() {
    for millis in [0u64, 5, 42, 999, 1_000, 59_999, 60_000, 3_599_999, 86_400_000] {
        let d = std::time::Duration::from_millis(millis);
        let m = d.as_secs() / 60;
        let s = d.as_secs() % 60;
        let ms = d.subsec_millis();
        assert_eq!(format_time(millis), format!("{:0>2}:{:0>2}.{:0>3}", m, s, ms));
        assert_eq!(format_time_with_units(millis), format!("{:0>2}m {:0>2}.{:0>3}s", m, s, ms));
    }
}
