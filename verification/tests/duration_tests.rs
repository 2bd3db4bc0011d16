use archipelag::duration::format_duration;

fn reference(ms: Option<u64>) -> String {
    match ms {
        Some(ms) if ms < 1000 => format!("{}ms", ms),
        Some(ms) if ms < 60_000 => format!("{:.1}s", ms as f64 / 1000.0),
        Some(ms) => format!("{:.1}m", ms as f64 / 60_000.0),
        None => "-".to_string(),
    }
}

#[test]
fn duration_missing_is_dash() {
    assert_eq!(format_duration(None), "-");
}

#[test]
fn duration_below_a_second_in_milliseconds() {
    assert_eq!(format_duration(Some(0)), "0ms");
    assert_eq!(format_duration(Some(850)), "850ms");
    assert_eq!(format_duration(Some(999)), "999ms");
}

#[test]
fn duration_seconds_with_one_decimal() {
    assert_eq!(format_duration(Some(1000)), "1.0s");
    assert_eq!(format_duration(Some(12_500)), "12.5s");
    assert_eq!(format_duration(Some(1_250)), "1.2s");
    assert_eq!(format_duration(Some(1_750)), "1.8s");
    assert_eq!(format_duration(Some(59_999)), "60.0s");
}

#[test]
fn duration_minutes_with_one_decimal() {
    assert_eq!(format_duration(Some(60_000)), "1.0m");
    assert_eq!(format_duration(Some(90_000)), "1.5m");
    assert_eq!(format_duration(Some(3_600_000)), "60.0m");
}

#[test]
fn duration_matches_float_formatting_for_every_second_value() {
    for ms in 0..60_000u64 {
        assert_eq!(format_duration(Some(ms)), reference(Some(ms)), "ms = {}", ms);
    }
}

#[test]
fn duration_matches_float_formatting_for_minutes() {
    for ms in 60_000..400_000u64 {
        assert_eq!(format_duration(Some(ms)), reference(Some(ms)), "ms = {}", ms);
    }
    let mut x: u64 = 0x9E37_79B9_7F4A_7C15;
    for _ in 0..300_000 {
        x = x.wrapping_mul(6364136223846793005).wrapping_add(1442695040888963407);
        for ms in [x, x >> 7, x >> 13, x >> 20, x >> 30, x >> 40] {
            if ms >= 60_000 {
                assert_eq!(format_duration(Some(ms)), reference(Some(ms)), "ms = {}", ms);
            }
        }
    }
    for shift in 16..64u32 {
        let p = 1u64 << shift;
        for d in 0..64u64 {
            for ms in [p.wrapping_add(d), p.wrapping_sub(d), p.wrapping_add(d << 10)] {
                if ms >= 60_000 {
                    assert_eq!(format_duration(Some(ms)), reference(Some(ms)), "ms = {}", ms);
                }
            }
        }
    }
    assert_eq!(format_duration(Some(u64::MAX)), reference(Some(u64::MAX)));
}

#[test]
fn duration_unit_follows_its_size() {
    for ms in [0u64, 1, 999, 1000, 59_999, 60_000, 7_200_000, u64::MAX] {
        let r = format_duration(Some(ms));
        assert_eq!(r.ends_with("ms"), ms < 1000);
        assert_eq!(r.ends_with('s') && !r.ends_with("ms"), (1000..60_000).contains(&ms));
        assert_eq!(r.ends_with('m'), ms >= 60_000);
    }
    assert_eq!(format_duration(Some(7_200_000)), "120.0m");
}
