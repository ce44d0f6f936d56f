//! The short queue of alerts that are waiting to be shown.

use vstd::prelude::*;
use std::collections::VecDeque;
use crate::gate::elapsed_since;

verus! {

/// The most alerts that the queue holds after an alert was added.
pub const MAX_ALERTS: usize = 5;

/// The age beyond which an alert leaves the queue.
pub const ALERT_LIFETIME_MS: u64 = 5_000;

/// What an alert is about.
#[derive(Clone, Copy, Debug, PartialEq, Eq, Structural)]
pub enum AlertType {
    Buy,
    Sell,
    Info,
    Error,
}

/// A message with its kind and the time at which it was raised.
#[derive(Clone, Debug)]
pub struct Alert {
    pub message: String,
    pub alert_type: AlertType,
    pub timestamp: u64,
}

/// The alerts that wait, oldest first.
pub struct AlertQueue {
    alerts: VecDeque<Alert>,
}

impl View for AlertQueue {
    type V = Seq<Alert>;

    /// The alerts, oldest first.
    closed spec fn view(&self) -> Seq<Alert> {
        self.alerts@
    }
}

/// Whether an alert is older at `now` than an alert may get.
pub open spec fn is_expired(alert: Alert, now: u64) -> bool {
    elapsed_since(alert.timestamp, now) > ALERT_LIFETIME_MS
}

/// The number of alerts at the head of the queue that are expired.
pub open spec fn expired_prefix(s: Seq<Alert>, now: u64) -> nat
    decreases s.len(),
{
    if s.len() == 0 || !is_expired(s[0], now) {
        0
    } else {
        1 + expired_prefix(s.skip(1), now)
    }
}

/// The newest [`MAX_ALERTS`] of the alerts.
pub open spec fn newest(s: Seq<Alert>) -> Seq<Alert> {
    if s.len() > MAX_ALERTS {
        s.skip(s.len() - MAX_ALERTS)
    } else {
        s
    }
}

impl AlertQueue {
    /// An empty queue.
    pub fn new() -> (q: AlertQueue)
        ensures
            q@ == Seq::<Alert>::empty(),
    {
        AlertQueue { alerts: VecDeque::new() }
    }

    /// The number of alerts that wait.
    pub fn len(&self) -> (n: usize)
        ensures
            n == self@.len(),
    {
        self.alerts.len()
    }

    /// The alert that has waited longest, if there is one.
    pub fn front(&self) -> (a: Option<&Alert>)
        ensures
            a == if self@.len() == 0 {
                None
            } else {
                Some(&self@[0])
            },
    {
        if self.alerts.len() == 0 {
            None
        } else {
            Some(&self.alerts[0])
        }
    }

    /// Puts an alert at the end of the queue.
    pub fn push(&mut self, message: String, alert_type: AlertType, now_ms: u64)
        ensures
            final(self)@ == old(self)@.push(Alert { message, alert_type, timestamp: now_ms }),
    {
        self.alerts.push_back(Alert { message, alert_type, timestamp: now_ms });
    }

    /// Puts an alert at the end of the queue and keeps the newest
    /// [`MAX_ALERTS`] of what the queue holds then.
    pub fn add_alert(&mut self, message: String, alert_type: AlertType, now_ms: u64)
        ensures
            final(self)@ == newest(
                old(self)@.push(Alert { message, alert_type, timestamp: now_ms }),
            ),
            final(self)@.len() <= MAX_ALERTS,
    {
        self.alerts.push_back(Alert { message, alert_type, timestamp: now_ms });
        let ghost all = self.alerts@;
        let ghost mut dropped: int = 0;
        proof {
            assert(all.skip(0) =~= all);
        }
        while self.alerts.len() > MAX_ALERTS
            invariant
                0 <= dropped <= all.len(),
                self.alerts@ == all.skip(dropped),
                all.len() - dropped >= MAX_ALERTS || dropped == 0,
            decreases self.alerts@.len(),
        {
            let _ = self.alerts.pop_front();
            proof {
                assert(all.skip(dropped).skip(1) =~= all.skip(dropped + 1));
                dropped = dropped + 1;
            }
        }
    }

    /// Takes out the alert that has waited longest, if there is one.
    pub fn remove_oldest(&mut self) -> (removed: Option<Alert>)
        ensures
            removed == if old(self)@.len() == 0 {
                None
            } else {
                Some(old(self)@[0])
            },
            final(self)@ == if old(self)@.len() == 0 {
                old(self)@
            } else {
                old(self)@.skip(1)
            },
    {
        let removed = self.alerts.pop_front();
        proof {
            if old(self)@.len() > 0 {
                assert(self.alerts@ =~= old(self)@.skip(1));
            } else {
                assert(self.alerts@ =~= old(self)@);
            }
        }
        removed
    }

    /// Takes out, from the head of the queue, the alerts that are older
    /// than [`ALERT_LIFETIME_MS`], up to the first one that is not, and
    /// returns how many they were.
    pub fn expire(&mut self, now_ms: u64) -> (removed: usize)
        ensures
            removed == expired_prefix(old(self)@, now_ms),
            final(self)@ == old(self)@.skip(removed as int),
    {
        let ghost all = self.alerts@;
        let waiting: usize = self.alerts.len();
        let mut removed: usize = 0;
        proof {
            assert(all.skip(0) =~= all);
        }
        while self.alerts.len() > 0 && alert_expired(&self.alerts[0], now_ms)
            invariant
                removed <= all.len(),
                all.len() == waiting,
                self.alerts@ == all.skip(removed as int),
                expired_prefix(all, now_ms) == removed + expired_prefix(
                    all.skip(removed as int),
                    now_ms,
                ),
            decreases self.alerts@.len(),
        {
            let _ = self.alerts.pop_front();
            proof {
                assert(all.skip(removed as int).skip(1) =~= all.skip(removed + 1));
            }
            removed = removed + 1;
        }
        removed
    }
}

/// Whether an alert is older at `now_ms` than an alert may get.
fn alert_expired(alert: &Alert, now_ms: u64) -> (b: bool)
    ensures
        b == is_expired(*alert, now_ms),
{
    now_ms >= alert.timestamp && now_ms - alert.timestamp > ALERT_LIFETIME_MS
}

} // verus!
