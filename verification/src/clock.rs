//! The time of day of a timestamp, for showing a conversation on a console.

use vstd::prelude::*;

verus! {

/// The milliseconds in a day.
pub const DAY_MILLIS: i64 = 86_400_000;

/// A time of day in UTC, to the millisecond.
#[derive(Clone, Copy, Debug, PartialEq, Eq, Structural)]
pub struct TimeOfDay {
    pub hour: u8,
    pub minute: u8,
    pub second: u8,
    pub millisecond: u16,
}

/// Whether each part of a time of day is within its range on a clock.
pub open spec fn on_clock(hour: int, minute: int, second: int, millisecond: int) -> bool {
    &&& 0 <= hour < 24
    &&& 0 <= minute < 60
    &&& 0 <= second < 60
    &&& 0 <= millisecond < 1000
}

impl TimeOfDay {
    /// Whether each part is within its range on a clock.
    pub open spec fn valid(self) -> bool {
        on_clock(self.hour as int, self.minute as int, self.second as int, self.millisecond as int)
    }

    /// The milliseconds since midnight.
    pub open spec fn millis_since_midnight(self) -> int {
        ((self.hour * 60 + self.minute) * 60 + self.second) * 1000 + self.millisecond
    }
}

/// The milliseconds that passed since the last midnight before or at a
/// timestamp, which counts milliseconds from the Unix epoch.
pub open spec fn millis_of_day(timestamp: int) -> int {
    timestamp % 86_400_000
}

/// The time of day at a timestamp, which counts milliseconds from the Unix
/// epoch.
pub open spec fn time_at(timestamp: int) -> TimeOfDay {
    let since_midnight = millis_of_day(timestamp);
    TimeOfDay {
        hour: (since_midnight / 3_600_000) as u8,
        minute: ((since_midnight / 60_000) % 60) as u8,
        second: ((since_midnight / 1000) % 60) as u8,
        millisecond: (since_midnight % 1000) as u16,
    }
}

/// The time of day at a timestamp, which counts milliseconds from the Unix
/// epoch: the one valid time of day that is as far from midnight as the
/// timestamp is from the last midnight before or at it.
pub fn time_of_day(timestamp: i64) -> (r: TimeOfDay)
    ensures
        r == time_at(timestamp as int),
        r.valid(),
        r.millis_since_midnight() == millis_of_day(timestamp as int),
{
    let since_midnight: i64 = if timestamp >= 0 {
        timestamp % DAY_MILLIS
    } else {
        // A timestamp before the epoch is as far behind a midnight as the
        // moment that mirrors it is ahead of one, less one millisecond.
        let mirrored: i64 = -(timestamp + 1);
        let ahead: i64 = mirrored % DAY_MILLIS;
        proof {
            let q = mirrored as int / 86_400_000;
            assert(mirrored == q * 86_400_000 + ahead) by {
                vstd::arithmetic::div_mod::lemma_fundamental_div_mod(mirrored as int, 86_400_000);
            }
            vstd::arithmetic::div_mod::lemma_fundamental_div_mod_converse(
                timestamp as int,
                86_400_000,
                -q - 1,
                86_400_000 - 1 - ahead,
            );
        }
        DAY_MILLIS - 1 - ahead
    };
    let millisecond: i64 = since_midnight % 1000;
    let seconds: i64 = since_midnight / 1000;
    let second: i64 = seconds % 60;
    let minutes: i64 = seconds / 60;
    let minute: i64 = minutes % 60;
    let hour: i64 = minutes / 60;
    TimeOfDay {
        hour: hour as u8,
        minute: minute as u8,
        second: second as u8,
        millisecond: millisecond as u16,
    }
}

/// The text that `time::Time` shows for a time of day, as its `Display`
/// writes it.
pub uninterp spec fn clock_text(hour: int, minute: int, second: int, millisecond: int) -> Seq<char>;

/// Calls `time::Time::from_hms_milli` and writes the time it returns with its
/// `Display`. The call returns a time exactly when each part is within its
/// range on a clock; the text is what `clock_text` names.
#[verifier::external_body]
pub(crate) fn clock(hour: u8, minute: u8, second: u8, millisecond: u16) -> (r: Option<String>)
    ensures
        r.is_some() == on_clock(hour as int, minute as int, second as int, millisecond as int),
        r matches Some(text) ==> text@ == clock_text(
            hour as int,
            minute as int,
            second as int,
            millisecond as int,
        ),
{
    match time::Time::from_hms_milli(hour, minute, second, millisecond) {
        Ok(time) => Some(time.to_string()),
        Err(_) => None,
    }
}

/// The time of day at a timestamp as a console shows it.
pub open spec fn clock_at(timestamp: int) -> Seq<char> {
    let time = time_at(timestamp);
    clock_text(time.hour as int, time.minute as int, time.second as int, time.millisecond as int)
}

/// The time of day at a timestamp, which counts milliseconds from the Unix
/// epoch, as a console shows it.
pub fn clock_of(timestamp: i64) -> (r: String)
    ensures
        r@ == clock_at(timestamp as int),
{
    let time = time_of_day(timestamp);
    match clock(time.hour, time.minute, time.second, time.millisecond) {
        Some(text) => text,
        None => vstd::pervasive::unreached(),
    }
}

} // verus!
