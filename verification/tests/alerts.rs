use futurx::alerts::{AlertQueue, AlertType, ALERT_LIFETIME_MS, MAX_ALERTS};

fn messages(queue: &mut AlertQueue) -> Vec<String> {
    let mut out: Vec<String> = Vec::new();
    while let Some(alert) = queue.remove_oldest() {
        out.push(alert.message);
    }
    out
}

#[test]
fn add_alert_keeps_the_newest_five() {
    assert_eq!(MAX_ALERTS, 5);
    let mut queue = AlertQueue::new();
    let mut i: u64 = 0;
    while i < 8 {
        queue.add_alert(format!("a{}", i), AlertType::Info, i);
        assert!(queue.len() <= 5);
        i += 1;
    }
    assert_eq!(queue.len(), 5);
    assert_eq!(queue.front().unwrap().message, "a3");
    assert_eq!(queue.front().unwrap().timestamp, 3);
    assert_eq!(messages(&mut queue), vec!["a3", "a4", "a5", "a6", "a7"]);
}

#[test]
fn push_does_not_bound_the_queue() {
    let mut queue = AlertQueue::new();
    let mut i: u64 = 0;
    while i < 7 {
        queue.push(format!("p{}", i), AlertType::Error, i);
        i += 1;
    }
    assert_eq!(queue.len(), 7);
    queue.add_alert("last".to_string(), AlertType::Buy, 9);
    assert_eq!(messages(&mut queue), vec!["p3", "p4", "p5", "p6", "last"]);
}

#[test]
fn remove_oldest_takes_from_the_head() {
    let mut queue = AlertQueue::new();
    assert!(queue.remove_oldest().is_none());
    assert!(queue.front().is_none());
    queue.add_alert("one".to_string(), AlertType::Buy, 1);
    queue.add_alert("two".to_string(), AlertType::Sell, 2);
    let first = queue.remove_oldest().unwrap();
    assert_eq!(first.message, "one");
    assert_eq!(first.alert_type, AlertType::Buy);
    assert_eq!(first.timestamp, 1);
    assert_eq!(queue.len(), 1);
    assert_eq!(queue.front().unwrap().alert_type, AlertType::Sell);
}

#[test]
fn alerts_leave_after_five_seconds() {
    assert_eq!(ALERT_LIFETIME_MS, 5_000);
    let mut queue = AlertQueue::new();
    queue.add_alert("a".to_string(), AlertType::Info, 1_000);
    queue.add_alert("b".to_string(), AlertType::Info, 2_000);
    queue.add_alert("c".to_string(), AlertType::Info, 3_000);
    assert_eq!(queue.expire(6_000), 0);
    assert_eq!(queue.len(), 3);
    assert_eq!(queue.expire(6_001), 1);
    assert_eq!(queue.front().unwrap().message, "b");
    assert_eq!(queue.expire(8_001), 2);
    assert_eq!(queue.len(), 0);
    assert_eq!(queue.expire(100_000), 0);
}

#[test]
fn expiry_stops_at_the_first_alert_that_stays() {
    let mut queue = AlertQueue::new();
    queue.push("old".to_string(), AlertType::Info, 0);
    queue.push("young".to_string(), AlertType::Info, 9_000);
    queue.push("old again".to_string(), AlertType::Info, 1);
    assert_eq!(queue.expire(10_000), 1);
    assert_eq!(messages(&mut queue), vec!["young", "old again"]);
}

#[test]
fn a_clock_that_reads_less_expires_nothing() {
    let mut queue = AlertQueue::new();
    queue.add_alert("a".to_string(), AlertType::Info, 50_000);
    assert_eq!(queue.expire(10), 0);
    assert_eq!(queue.len(), 1);
}
