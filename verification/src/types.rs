//! The plain values that the rest of the library is built from.

use vstd::prelude::*;

verus! {

/// The id of a chat.
pub type ChatId = i64;

/// The id of a message. Within a chat, newer messages have greater ids.
pub type MessageId = i64;

/// The id of the user or the chat that sent a message.
pub type MessageSenderId = i64;

/// An error that TDLib answered a request with.
#[derive(Debug, PartialEq, Eq)]
pub struct TdlibError {
    pub code: i32,
    pub message: String,
}

/// Whether both texts are the same.
pub fn same_text(text: &str, other: &str) -> (result: bool)
    ensures
        result == (text@ == other@),
{
    text.to_owned() == other.to_owned()
}

/// A day of the calendar, in the time zone of the user.
#[derive(Clone, Copy, Debug, PartialEq, Eq, Structural)]
pub struct CalendarDay {
    pub year: i32,
    pub month: i32,
    pub day: i32,
}

impl CalendarDay {
    /// Whether this day comes before `other`.
    pub open spec fn precedes(self, other: CalendarDay) -> bool {
        ||| self.year < other.year
        ||| self.year == other.year && self.month < other.month
        ||| self.year == other.year && self.month == other.month && self.day < other.day
    }

    /// Whether this day comes before `other`.
    pub fn is_before(&self, other: &CalendarDay) -> (result: bool)
        ensures
            result == self.precedes(*other),
    {
        self.year < other.year || (self.year == other.year && (self.month < other.month || (
        self.month == other.month && self.day < other.day)))
    }
}

/// An instant together with the calendar day it falls on.
#[derive(Clone, Copy, Debug, PartialEq, Eq, Structural)]
pub struct Timestamp {
    /// The seconds since the epoch.
    pub unix: i32,
    /// The day of the instant in the time zone of the user.
    pub day: CalendarDay,
}

/// Of two different days one is before the other, and the order of days is that
/// of their years first, of their months then, and of the days in their month
/// last.
pub proof fn law_days_are_ordered(day: CalendarDay, other: CalendarDay, third: CalendarDay)
    ensures
        !day.precedes(day),
        day.precedes(other) && other.precedes(third) ==> day.precedes(third),
        day != other ==> (day.precedes(other) <==> !other.precedes(day)),
        day.year < other.year ==> day.precedes(other),
        day.year == other.year && day.month < other.month ==> day.precedes(other),
        day.year == other.year && day.month == other.month && day.day < other.day ==> day.precedes(
            other,
        ),
{
}

} // verus!
