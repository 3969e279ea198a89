use feed_sync::source::extract_offset;

#[test]
fn test_extract_offset() {
    assert_eq!(1, extract_offset("1 month").unwrap());
    assert!(extract_offset("0 month").is_none());
    assert!(extract_offset("1 months").is_none());
    assert!(extract_offset("-1 months").is_none());
    assert!(extract_offset("12 month").is_none());
    assert_eq!(12, extract_offset("12 months").unwrap());
}

#[test]
fn extract_offset_rejects_decorated_text() {
    assert!(extract_offset("").is_none());
    assert!(extract_offset("months").is_none());
    assert!(extract_offset(" 2 months").is_none());
    assert!(extract_offset("2 months ").is_none());
    assert!(extract_offset("02 months").is_none());
    assert!(extract_offset("two months").is_none());
}

#[test]
fn extract_offset_accepts_plural_counts() {
    assert_eq!(2, extract_offset("2 months").unwrap());
    assert_eq!(9, extract_offset("9 months").unwrap());
    assert_eq!(120, extract_offset("120 months").unwrap());
}

#[test]
fn extract_offset_huge_count_means_no_cutoff() {
    // A count that does not fit 32 bits falls back to zero months.
    assert_eq!(0, extract_offset("99999999999999999999 months").unwrap());
}
