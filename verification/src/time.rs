//! The processing time, as the classifier and the object-store writer use it,
//! and the random identifier that makes an object name unique.

use chrono::Datelike;
use vstd::prelude::*;

verus! {

/// A calendar day.
#[derive(Debug, Clone, Copy, PartialEq, Eq)]
pub struct Date {
    pub year: i32,
    pub month: u32,
    pub day: u32,
}

impl Date {
    /// The month and the day lie in the ranges of a calendar.
    pub open spec fn in_calendar(self) -> bool {
        1 <= self.month <= 12 && 1 <= self.day <= 31
    }
}

/// The current day in UTC.
///
/// Calls `chrono::Utc::now` and reads the result through `Datelike::year`,
/// `Datelike::month` and `Datelike::day`. Trusted: the month lies in 1..=12
/// and the day in 1..=31, the ranges that chrono documents for the two
/// accessors. Nothing is claimed of which day it is. `Utc::now` panics where
/// the system clock stands before 1970.
#[verifier::external_body]
pub(crate) fn utc_today() -> (today: Date)
    ensures
        today.in_calendar(),
{
    let now = chrono::Utc::now();
    Date { year: now.year(), month: now.month(), day: now.day() }
}

/// The current time in whole seconds since the Unix epoch.
///
/// Calls `chrono::Utc::now` and `DateTime::timestamp`. Nothing is claimed of
/// the result. `Utc::now` panics where the system clock stands before 1970.
#[verifier::external_body]
pub(crate) fn unix_seconds_now() -> (seconds: i64) {
    chrono::Utc::now().timestamp()
}

/// A fresh random identifier, written in the hyphenated form.
///
/// Calls `uuid::Uuid::new_v4` and the identifier's `Display`. Nothing is
/// claimed of the result.
#[verifier::external_body]
pub(crate) fn random_identifier() -> (identifier: String) {
    uuid::Uuid::new_v4().to_string()
}

} // verus!
