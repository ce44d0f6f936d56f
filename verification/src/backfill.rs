//! Requests for candles older than the oldest one held.
//!
//! One request is in flight at most. A request names the point before which
//! candles are wanted, as a UTC date and time in text.

use vstd::prelude::*;

verus! {

/// The text that chrono gives for a count of seconds since the start of
/// 1970: the UTC date and time in the form `2015-05-15T00:00:00`, or nothing
/// where chrono has no date for the count.
pub uninterp spec fn utc_stamp(secs: i64) -> Option<Seq<char>>;

/// The characters of a text that may be missing.
pub open spec fn text_of(text: Option<String>) -> Option<Seq<char>> {
    match text {
        Some(t) => Some(t@),
        None => None,
    }
}

/// Calls chrono's `DateTime::from_timestamp` with the seconds and no
/// nanoseconds, and on the date that comes back `format` with
/// `%Y-%m-%dT%H:%M:%S`. The result is taken to depend on the seconds alone,
/// which holds as the date is a UTC date and the format names no locale.
/// Nothing is claimed of which counts have a date.
#[verifier::external_body]
fn format_utc_seconds(secs: i64) -> (text: Option<String>)
    ensures
        text_of(text) == utc_stamp(secs),
{
    match chrono::DateTime::from_timestamp(secs, 0) {
        Some(date) => Some(date.format("%Y-%m-%dT%H:%M:%S").to_string()),
        None => None,
    }
}

/// A request for the candles before a point in time.
#[derive(Clone, Debug)]
pub struct BackfillRequest {
    /// The bucket start of the oldest candle held, in milliseconds.
    pub before_timestamp: u64,
    /// The same point as a UTC date and time.
    pub before: String,
}

/// What is to be done about a wish for older candles.
pub struct BackfillPlan {
    /// Whether a request is in flight afterwards.
    pub loading_more: bool,
    /// The request to send, if one is to be sent.
    pub request: Option<BackfillRequest>,
}

/// Whether a wish for older candles leads to a request: none is in flight,
/// there is an oldest candle, and its bucket start has a date.
pub open spec fn request_due(
    loading_more: bool,
    oldest: Option<u64>,
    cursor: Option<Seq<char>>,
) -> bool {
    !loading_more && oldest.is_some() && cursor.is_some()
}

/// The whole seconds of a count of milliseconds.
pub open spec fn seconds_of(timestamp_ms: u64) -> i64 {
    (timestamp_ms / 1000) as i64
}

/// The date and time of the bucket start, as the text that a request
/// carries.
pub fn backfill_cursor(oldest_timestamp_ms: u64) -> (cursor: Option<String>)
    ensures
        text_of(cursor) == utc_stamp(seconds_of(oldest_timestamp_ms)),
{
    format_utc_seconds((oldest_timestamp_ms / 1000) as i64)
}

/// Decides on a wish for older candles, given the date text of the oldest
/// bucket start. A request is made exactly when none is in flight, there is
/// an oldest candle and it has a date text; it is then in flight.
/// Otherwise nothing changes.
pub fn plan_backfill(loading_more: bool, oldest: Option<u64>, cursor: Option<String>) -> (plan:
    BackfillPlan)
    ensures
        plan.request.is_some() == request_due(loading_more, oldest, text_of(cursor)),
        plan.loading_more == (loading_more || plan.request.is_some()),
        plan.request matches Some(request) ==> oldest == Some(request.before_timestamp) && cursor
            == Some(request.before),
{
    if loading_more {
        return BackfillPlan { loading_more, request: None };
    }
    match oldest {
        None => BackfillPlan { loading_more, request: None },
        Some(before_timestamp) => match cursor {
            None => BackfillPlan { loading_more, request: None },
            Some(before) => BackfillPlan {
                loading_more: true,
                request: Some(BackfillRequest { before_timestamp, before }),
            },
        },
    }
}

/// The guard that keeps requests for older candles apart.
#[derive(Clone, Copy, Debug, PartialEq, Eq, Structural)]
pub struct BackfillGuard {
    pub loading_more: bool,
}

impl BackfillGuard {
    /// A guard with no request in flight.
    pub fn new() -> (g: BackfillGuard)
        ensures
            !g.loading_more,
    {
        BackfillGuard { loading_more: false }
    }

    /// Takes a wish for candles older than the oldest bucket start held.
    /// Hands back the request to send, if one is due, and keeps it in
    /// flight.
    pub fn request_older(&mut self, oldest: Option<u64>) -> (request: Option<BackfillRequest>)
        ensures
            request.is_some() == (!old(self).loading_more && (oldest matches Some(t) && utc_stamp(
                seconds_of(t),
            ).is_some())),
            final(self).loading_more == (old(self).loading_more || request.is_some()),
            request matches Some(r) ==> oldest == Some(r.before_timestamp) && Some(r.before@)
                == utc_stamp(seconds_of(r.before_timestamp)),
    {
        let cursor: Option<String> = match oldest {
            Some(t) => backfill_cursor(t),
            None => None,
        };
        let plan: BackfillPlan = plan_backfill(self.loading_more, oldest, cursor);
        self.loading_more = plan.loading_more;
        plan.request
    }

    /// Notes that the request in flight has ended, with candles or with an
    /// error. Nothing is asked again by itself.
    pub fn finish(&mut self)
        ensures
            !final(self).loading_more,
    {
        self.loading_more = false;
    }
}

} // verus!
