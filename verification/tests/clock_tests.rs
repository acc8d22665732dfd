use fj_ex::clock::{now_rfc3339, stamp_or_seconds};

#[test]
fn stamp_prefers_formatted_text() {
    assert_eq!(stamp_or_seconds(Some("2024-01-02T03:04:05Z".to_string()), 7), "2024-01-02T03:04:05Z");
}

#[test]
fn stamp_falls_back_to_unix_seconds() {
    assert_eq!(stamp_or_seconds(None, 1_700_000_000), "1700000000");
    assert_eq!(stamp_or_seconds(None, -12), "-12");
    assert_eq!(stamp_or_seconds(None, 0), "0");
}

#[test]
fn current_stamp_is_rfc3339() {
    let stamp = now_rfc3339();
    assert!(stamp.contains('T'));
    assert!(stamp.ends_with('Z'));
}
