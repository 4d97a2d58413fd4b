use dropslim::payloads::{BatchSummaryPayload, SummaryPayload};
use dropslim::summary::{
    build_batch_summary, build_batch_summary_payload,
    build_optimize_summary, build_optimize_summary_payload,
    format_bytes, percent, should_keep_optimized_output, ByteUnits,
};

#[test]
fn summary_formats_bytes_below_one_kilobyte() {
    assert_eq!(format_bytes(512, ByteUnits::Binary), "512 B");
    assert_eq!(format_bytes(512, ByteUnits::Decimal), "512 B");
}

#[test]
fn summary_uses_decimal_kilobytes_on_macos() {
    let macos = ByteUnits::for_platform(true);
    assert_eq!(format_bytes(1500, macos), "2 KB");
    assert_eq!(format_bytes(100_000, macos), "100 KB");
    assert_eq!(format_bytes(2_500_000, macos), "2.5 MB");
}

#[test]
fn summary_uses_binary_kilobytes_off_macos() {
    assert_eq!(format_bytes(1500, ByteUnits::for_platform(false)), "1.5 KB");
}

#[test]
fn keeps_output_when_candidate_is_smaller() {
    assert!(should_keep_optimized_output(40_000, 100_000, None));
    assert!(should_keep_optimized_output(40_000, 100_000, Some(50_000)));
}

#[test]
fn skips_output_when_candidate_is_larger_or_equal() {
    assert!(!should_keep_optimized_output(100_000, 100_000, None));
    assert!(!should_keep_optimized_output(120_000, 100_000, None));
    assert!(!should_keep_optimized_output(50_000, 100_000, Some(50_000)));
    assert!(!should_keep_optimized_output(55_000, 100_000, Some(50_000)));
}

#[test]
fn summary_summarizes_first_optimization() {
    assert_eq!(
        build_optimize_summary_payload(100_000, 40_000, None, ByteUnits::Binary),
        SummaryPayload::Saved {
            percent: 60,
            from: format_bytes(100_000, ByteUnits::Binary),
            to: format_bytes(40_000, ByteUnits::Binary),
        }
    );
    assert_eq!(
        build_optimize_summary(100_000, 40_000, None, ByteUnits::Decimal),
        "You saved 60% · 100 KB → 40 KB"
    );
}

#[test]
fn summary_reports_no_first_pass_savings() {
    assert_eq!(
        build_optimize_summary_payload(1_000, 1_200, None, ByteUnits::Binary),
        SummaryPayload::AlreadyOptimized {
            size: format_bytes(1_200, ByteUnits::Binary),
        }
    );
    assert_eq!(
        build_optimize_summary(1_000, 1_200, None, ByteUnits::Decimal),
        "Already optimized · 1 KB"
    );
}

#[test]
fn summary_reports_already_optimized() {
    assert_eq!(
        build_optimize_summary_payload(100_000, 50_000, Some(50_000), ByteUnits::Binary),
        SummaryPayload::AlreadyOptimized {
            size: format_bytes(50_000, ByteUnits::Binary),
        }
    );
    assert_eq!(
        build_optimize_summary(100_000, 50_000, Some(50_000), ByteUnits::Decimal),
        "Already optimized · 50 KB"
    );
}

#[test]
fn summary_reports_additional_savings() {
    assert_eq!(
        build_optimize_summary_payload(100_000, 40_000, Some(50_000), ByteUnits::Binary),
        SummaryPayload::SavedMore {
            percent: 20,
            from: format_bytes(50_000, ByteUnits::Binary),
            to: format_bytes(40_000, ByteUnits::Binary),
        }
    );
    assert_eq!(
        build_optimize_summary(100_000, 40_000, Some(50_000), ByteUnits::Decimal),
        "Saved 20% more · 50 KB → 40 KB"
    );
}

#[test]
fn summary_summarizes_single_image_batch() {
    assert_eq!(
        build_batch_summary_payload(1, 1, 0, 100_000, 40_000),
        BatchSummaryPayload {
            total: 1,
            succeeded: 1,
            failed: 0,
            bytes_before: 100_000,
            bytes_after: 40_000,
        }
    );
    assert_eq!(
        build_batch_summary(1, 1, 0, 100_000, 40_000, ByteUnits::Decimal),
        "1 image · saved 60 KB (60%)"
    );
}

#[test]
fn summary_summarizes_batch() {
    assert_eq!(
        build_batch_summary_payload(3, 3, 0, 300_000, 120_000),
        BatchSummaryPayload {
            total: 3,
            succeeded: 3,
            failed: 0,
            bytes_before: 300_000,
            bytes_after: 120_000,
        }
    );
    assert_eq!(
        build_batch_summary(3, 3, 0, 300_000, 120_000, ByteUnits::Decimal),
        "3 images · saved 180 KB (60%)"
    );
}

fn float_format_bytes(bytes: u64, decimal: bool) -> String {
    let unit: u64 = if decimal { 1000 } else { 1024 };
    if bytes < unit {
        return format!("{bytes} B");
    }
    if bytes < unit * unit {
        let value = bytes as f64 / unit as f64;
        if decimal {
            return format!("{} KB", value.round());
        }
        return format!("{value:.1} KB");
    }
    let value = bytes as f64 / (unit as f64 * unit as f64);
    format!("{value:.1} MB")
}

fn float_percent(part: u64, whole: u64) -> u64 {
    ((100.0 / whole as f64) * part as f64).round() as u64
}

#[test]
fn byte_labels_agree_with_double_arithmetic() {
    let samples: Vec<u64> = vec![
        0, 1, 999, 1000, 1023, 1024, 1280, 1500, 1536, 1_049_999, 1_050_000, 1_150_000,
        2_500_000, 1_048_576, 1_153_433, 1_205_862, 999_499, 999_500, 999_999, 1_000_000,
        123_456_789, 9_007_199_254_740_993, 18_446_744_073_709_551_615,
    ];
    for bytes in samples {
        assert_eq!(format_bytes(bytes, ByteUnits::Binary), float_format_bytes(bytes, false), "binary {bytes}");
        assert_eq!(
            format_bytes(bytes, ByteUnits::Decimal),
            float_format_bytes(bytes, true),
            "decimal {bytes}"
        );
    }
    let mut x: u64 = 12345;
    for _ in 0..2000 {
        x = x.wrapping_mul(6364136223846793005).wrapping_add(1442695040888963407);
        let bytes = x >> (x % 60);
        assert_eq!(format_bytes(bytes, ByteUnits::Binary), float_format_bytes(bytes, false), "binary {bytes}");
        assert_eq!(
            format_bytes(bytes, ByteUnits::Decimal),
            float_format_bytes(bytes, true),
            "decimal {bytes}"
        );
    }
}

#[test]
fn percentages_agree_with_double_arithmetic() {
    let pairs: Vec<(u64, u64)> = vec![
        (1, 200), (3, 600), (60_000, 100_000), (10_000, 50_000), (1, 1), (1, 3), (2, 3),
        (1, u64::MAX), (u64::MAX, u64::MAX), (5, 1000), (1, 201),
    ];
    for (part, whole) in pairs {
        assert_eq!(percent(part, whole), float_percent(part, whole), "{part}/{whole}");
    }
    let mut x: u64 = 987654321;
    for _ in 0..3000 {
        x = x.wrapping_mul(6364136223846793005).wrapping_add(1442695040888963407);
        let whole = (x >> (x % 63)).max(1);
        x = x.wrapping_mul(6364136223846793005).wrapping_add(1442695040888963407);
        let part = (x % whole).max(1);
        assert_eq!(percent(part, whole), float_percent(part, whole), "{part}/{whole}");
    }
}

#[test]
fn batch_summary_reports_failures() {
    assert_eq!(build_batch_summary(2, 1, 1, 1000, 1000, ByteUnits::Binary), "2 images · 1 failed");
    assert_eq!(build_batch_summary(2, 2, 0, 1000, 1000, ByteUnits::Binary), "2 images · already optimized");
    assert_eq!(build_batch_summary(1, 0, 1, 0, 0, ByteUnits::Binary), "1 image · 1 failed");
    assert_eq!(build_optimize_summary(1_000, 1_200, None, ByteUnits::Binary), "Already optimized · 1.2 KB");
}
