//! A single user/assistant exchange.
use vstd::prelude::*;

use crate::engine::civil::{is_utc_text_of, utc_timestamp};

use std::time::{Duration, SystemTime, SystemTimeError};

verus! {

#[verifier::external_type_specification]
#[verifier::external_body]
pub struct ExSystemTime(SystemTime);

#[verifier::external_type_specification]
#[verifier::external_body]
pub struct ExSystemTimeError(SystemTimeError);

#[derive(Debug)]
pub struct Turn {
    pub user: String,
    pub assistant: String,
    /// RFC 3339 timestamp (UTC) of the exchange.
    pub at: String,
}

impl Clone for Turn {
    fn clone(&self) -> (r: Self)
        ensures
            r == *self,
    {
        Turn { user: self.user.clone(), assistant: self.assistant.clone(), at: self.at.clone() }
    }
}

/// Calls `SystemTime::now`; the clock gives no value that can be promised.
#[verifier::external_body]
fn system_time_now() -> SystemTime {
    SystemTime::now()
}

/// Calls `SystemTime::duration_since(UNIX_EPOCH)`: the time elapsed since
/// the epoch, an error when `t` lies before it. Nothing is promised of the
/// value.
#[verifier::external_body]
fn duration_since_epoch(t: &SystemTime) -> Result<Duration, SystemTimeError> {
    t.duration_since(std::time::UNIX_EPOCH)
}

/// Calls `Duration::as_secs`: the whole seconds of the duration. Nothing is
/// promised of the value.
#[verifier::external_body]
fn whole_secs(d: &Duration) -> u64 {
    d.as_secs()
}

/// Text that is the RFC 3339 UTC time of some number of seconds after the
/// UNIX epoch.
pub open spec fn is_timestamp(at: Seq<char>) -> bool {
    exists|secs: u64| #[trigger] is_utc_text_of(secs, at)
}

/// The clock in whole UNIX seconds; 0 when it reads before the epoch.
/// Nothing is promised of the value.
pub(crate) fn unix_now_secs() -> u64 {
    let now = system_time_now();
    match duration_since_epoch(&now) {
        Ok(d) => whole_secs(&d),
        Err(_) => 0,
    }
}

/// RFC 3339 UTC timestamp of the current moment (the epoch when the clock
/// reads before it).
pub fn now_rfc3339() -> (r: String)
    ensures
        is_timestamp(r@),
{
    let secs = unix_now_secs();
    utc_timestamp(secs)
}

impl Turn {
    /// A turn stamped with the current time.
    pub fn new(user: &str, assistant: &str) -> (t: Turn)
        ensures
            t.user@ == user@,
            t.assistant@ == assistant@,
            is_timestamp(t.at@),
    {
        Turn { user: user.to_owned(), assistant: assistant.to_owned(), at: now_rfc3339() }
    }

    /// A turn stamped with the UTC time of the given UNIX seconds.
    pub fn at_secs(user: &str, assistant: &str, secs: u64) -> (t: Turn)
        ensures
            t.user@ == user@,
            t.assistant@ == assistant@,
            is_utc_text_of(secs, t.at@),
    {
        Turn { user: user.to_owned(), assistant: assistant.to_owned(), at: utc_timestamp(secs) }
    }
}

} // verus!
