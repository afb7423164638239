use downloader::units::{as_time_unit, format_dhms, time_suffix};

#[test]
fn bytes_band_has_no_decimals() {
    assert_eq!(as_time_unit(0, false), "  0 B");
    assert_eq!(as_time_unit(500, false), "500 B");
    assert_eq!(as_time_unit(1023, false), "1023 B");
}

#[test]
fn kib_band_has_one_decimal() {
    assert_eq!(as_time_unit(1024, false), "  1.0 KiB");
    assert_eq!(as_time_unit(1536, false), "  1.5 KiB");
    assert_eq!(as_time_unit(1024 * 1024 - 1, false), "1024.0 KiB");
}

#[test]
fn mib_band_has_one_decimal() {
    assert_eq!(as_time_unit(1024 * 1024, false), "  1.0 MiB");
    assert_eq!(as_time_unit(5 * 1024 * 1024 + 512 * 1024, false), "  5.5 MiB");
}

#[test]
fn gib_band_has_one_decimal() {
    assert_eq!(as_time_unit(1024 * 1024 * 1024, false), "  1.0 GiB");
    assert_eq!(as_time_unit(3 * 1024 * 1024 * 1024 / 2, false), "  1.5 GiB");
}

#[test]
fn largest_size_formats_without_overflow() {
    assert_eq!(as_time_unit(usize::MAX, false), "17179869184.0 GiB");
}

#[test]
fn rate_suffix_is_appended() {
    assert_eq!(as_time_unit(2048, true), "  2.0 KiB/s");
    assert_eq!(as_time_unit(50, true), " 50 B/s");
}

#[test]
fn dhms_decomposition_recomposes() {
    for &sec in &[0u64, 1, 59, 60, 3599, 3600, 86399, 86400, 90061, 123456789] {
        let (d, h, m, s) = format_dhms(sec);
        assert_eq!(d * 86400 + (h as u64) * 3600 + (m as u64) * 60 + s as u64, sec);
        assert!(h < 24);
        assert!(m < 60);
        assert!(s < 60);
    }
}

#[test]
fn dhms_exact_values() {
    assert_eq!(format_dhms(90061), (1, 1, 1, 1));
    assert_eq!(format_dhms(59), (0, 0, 0, 59));
    assert_eq!(format_dhms(86400), (1, 0, 0, 0));
}

#[test]
fn durations_suppress_leading_zero_components() {
    assert_eq!(time_suffix(0), " 0s");
    assert_eq!(time_suffix(5), " 5s");
    assert_eq!(time_suffix(15), "15s");
    assert_eq!(time_suffix(75), " 1m 15s");
    assert_eq!(time_suffix(3661), " 1h  1m  1s");
    assert_eq!(time_suffix(90061), "  1d  1h  1m  1s");
}
