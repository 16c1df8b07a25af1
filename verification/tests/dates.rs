use copilot_money_cli::dates::{date_to_epoch, normalize_date};

#[test]
fn normalize_date_accepts_yyyy_mm_dd_and_mm_dd_yyyy() {
    assert_eq!(normalize_date("2025-12-03"), Some("2025-12-03".to_string()));
    assert_eq!(normalize_date("12-03-2025"), Some("2025-12-03".to_string()));
    assert_eq!(normalize_date("03-12-2025"), Some("2025-03-12".to_string()));
}

#[test]
fn normalize_date_rejects_invalid() {
    assert_eq!(normalize_date(""), None);
    assert_eq!(normalize_date("2025-13-01"), None);
    assert_eq!(normalize_date("2025-00-01"), None);
    assert_eq!(normalize_date("2025-12-32"), None);
    assert_eq!(normalize_date("2025/12/01"), None);
}

#[test]
fn normalize_date_trims_and_pads() {
    assert_eq!(normalize_date("  2025-01-05\n"), Some("2025-01-05".to_string()));
    // a `+` sign is accepted by the number parser
    assert_eq!(normalize_date("2025-+1-05"), Some("2025-01-05".to_string()));
    assert_eq!(normalize_date("2025-1-005"), Some("2025-01-05".to_string()));
}

#[test]
fn normalize_date_checks_year_range_and_length() {
    assert_eq!(normalize_date("1899-12-31"), None);
    assert_eq!(normalize_date("2101-01-01"), None);
    assert_eq!(normalize_date("1900-01-01"), Some("1900-01-01".to_string()));
    assert_eq!(normalize_date("2100-12-31"), Some("2100-12-31".to_string()));
    assert_eq!(normalize_date("2025-01-1"), None);
    assert_eq!(normalize_date("2025-1-1-1"), None);
    assert_eq!(normalize_date("25-12-2025"), None);
    // neither the first nor the last part has four bytes
    assert_eq!(normalize_date("202-512-03"), None);
}

#[test]
fn normalize_date_counts_bytes_not_characters() {
    // ten characters but eleven bytes
    assert_eq!(normalize_date("2025-12-0é"), None);
}

#[test]
fn normalize_date_is_idempotent_on_examples() {
    for s in ["12-03-2025", "2025-1-005", " 01-31-2025 "] {
        let n = normalize_date(s).unwrap();
        assert_eq!(normalize_date(&n), Some(n.clone()));
    }
}

#[test]
fn date_to_epoch_gives_day_bounds() {
    assert_eq!(date_to_epoch("2025-01-01", false), Some(1735689600));
    assert_eq!(date_to_epoch("2025-01-31", true), Some(1738367999));
    assert_eq!(date_to_epoch("01-01-2025", false), Some(1735689600));
    assert_eq!(date_to_epoch("2025-02-30", false), None);
    assert_eq!(date_to_epoch("not a date", false), None);
}

#[test]
fn epoch_seconds_follow_the_calendar() {
    // 1900 is not a leap year, 2000 and 2024 are
    assert_eq!(date_to_epoch("1900-01-01", false), Some(-2208988800));
    assert_eq!(date_to_epoch("2000-02-29", false), Some(951782400));
    assert_eq!(date_to_epoch("1900-02-29", false), None);
    assert_eq!(date_to_epoch("2024-12-31", true), Some(1735689599));
    assert_eq!(date_to_epoch("2100-12-31", false), Some(4133894400));
}
