use futurx::backfill::{backfill_cursor, plan_backfill, BackfillGuard};

#[test]
fn the_cursor_is_the_utc_date_and_time() {
    assert_eq!(backfill_cursor(1_431_648_000_000), Some("2015-05-15T00:00:00".to_string()));
    assert_eq!(backfill_cursor(1_431_648_000_999), Some("2015-05-15T00:00:00".to_string()));
    assert_eq!(backfill_cursor(0), Some("1970-01-01T00:00:00".to_string()));
    assert_eq!(backfill_cursor(1_700_000_123_456), Some("2023-11-14T22:15:23".to_string()));
    assert_eq!(backfill_cursor(86_399_000), Some("1970-01-01T23:59:59".to_string()));
}

#[test]
fn a_count_without_a_date_has_no_cursor() {
    assert_eq!(backfill_cursor(u64::MAX), None);
}

#[test]
fn one_request_at_a_time() {
    let mut guard = BackfillGuard::new();
    assert!(!guard.loading_more);
    let request = guard.request_older(Some(1_431_648_000_000)).unwrap();
    assert_eq!(request.before_timestamp, 1_431_648_000_000);
    assert_eq!(request.before, "2015-05-15T00:00:00");
    assert!(guard.loading_more);
    assert!(guard.request_older(Some(1_431_648_000_000)).is_none());
    assert!(guard.loading_more);
    guard.finish();
    assert!(!guard.loading_more);
    assert!(guard.request_older(Some(0)).is_some());
}

#[test]
fn nothing_is_asked_of_an_empty_series() {
    let mut guard = BackfillGuard::new();
    assert!(guard.request_older(None).is_none());
    assert!(!guard.loading_more);
}

#[test]
fn nothing_is_asked_where_the_oldest_has_no_date() {
    let mut guard = BackfillGuard::new();
    assert!(guard.request_older(Some(u64::MAX)).is_none());
    assert!(!guard.loading_more);
}

#[test]
fn the_plan_follows_the_three_conditions() {
    let stamp = || Some("2015-05-15T00:00:00".to_string());
    let plan = plan_backfill(false, Some(5), stamp());
    assert!(plan.loading_more);
    let request = plan.request.unwrap();
    assert_eq!(request.before_timestamp, 5);
    assert_eq!(request.before, "2015-05-15T00:00:00");
    let plan = plan_backfill(true, Some(5), stamp());
    assert!(plan.loading_more && plan.request.is_none());
    let plan = plan_backfill(false, None, stamp());
    assert!(!plan.loading_more && plan.request.is_none());
    let plan = plan_backfill(false, Some(5), None);
    assert!(!plan.loading_more && plan.request.is_none());
}
