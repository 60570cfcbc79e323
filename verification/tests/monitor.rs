//! Tests of `monitor`.

use pg_trickle::monitor::AlertEvent;

#[test]
fn test_alert_event_as_str() {
    assert_eq!(AlertEvent::StaleData.as_str(), "stale_data");
    assert_eq!(AlertEvent::AutoSuspended.as_str(), "auto_suspended");
    assert_eq!(
        AlertEvent::ReinitializeNeeded.as_str(),
        "reinitialize_needed"
    );
    assert_eq!(
        AlertEvent::BufferGrowthWarning.as_str(),
        "buffer_growth_warning"
    );
    assert_eq!(AlertEvent::RefreshCompleted.as_str(), "refresh_completed");
    assert_eq!(AlertEvent::RefreshFailed.as_str(), "refresh_failed");
}

#[test]
fn test_alert_event_equality() {
    assert_eq!(AlertEvent::StaleData, AlertEvent::StaleData);
    assert_ne!(AlertEvent::StaleData, AlertEvent::AutoSuspended);
}

#[test]
fn test_alert_event_all_variants_unique() {
    let variants = [
        AlertEvent::StaleData,
        AlertEvent::AutoSuspended,
        AlertEvent::ReinitializeNeeded,
        AlertEvent::BufferGrowthWarning,
        AlertEvent::RefreshCompleted,
        AlertEvent::RefreshFailed,
    ];
    // All as_str() values should be distinct
    let strs: Vec<&str> = variants.iter().map(|v| v.as_str()).collect();
    let mut deduped = strs.clone();
    deduped.sort();
    deduped.dedup();
    assert_eq!(
        strs.len(),
        deduped.len(),
        "All AlertEvent variants must have unique as_str()"
    );
}

#[test]
fn test_alert_event_clone_and_copy() {
    let event = AlertEvent::RefreshFailed;
    let copied = event; // Copy
    assert_eq!(event, copied);
    // Verify Clone trait is implemented (Copy requires Clone)
    let cloned: AlertEvent = Clone::clone(&event);
    assert_eq!(event, cloned);
}

#[test]
fn test_alert_event_debug_format() {
    let debug = format!("{:?}", AlertEvent::StaleData);
    assert!(
        debug.contains("StaleData"),
        "Debug should contain variant name: {debug}"
    );
}
