use downloader::clock::{clock_of, time_of_day, TimeOfDay, DAY_MILLIS};
use downloader::conversation::{Conversation, Turn};
use time::OffsetDateTime;

fn turn(author: &str, content: &str, start_time: i64) -> Turn {
    Turn { content: content.to_string(), author: author.to_string(), start_time }
}

fn shown_by_time(timestamp: i64) -> String {
    let nanos = i128::from(timestamp) * 1_000_000;
    let moment = OffsetDateTime::from_unix_timestamp_nanos(nanos).expect("a moment in range");
    moment.time().to_string()
}

#[test]
fn day_has_its_milliseconds() {
    assert_eq!(DAY_MILLIS, 24 * 60 * 60 * 1000);
}

#[test]
fn time_of_day_at_the_epoch_is_midnight() {
    assert_eq!(time_of_day(0), TimeOfDay { hour: 0, minute: 0, second: 0, millisecond: 0 });
}

#[test]
fn time_of_day_splits_the_milliseconds_since_midnight() {
    let timestamp = ((13 * 60 + 37) * 60 + 42) * 1000 + 7;
    assert_eq!(
        time_of_day(timestamp),
        TimeOfDay { hour: 13, minute: 37, second: 42, millisecond: 7 }
    );
    assert_eq!(
        time_of_day(timestamp + 5 * DAY_MILLIS),
        TimeOfDay { hour: 13, minute: 37, second: 42, millisecond: 7 }
    );
    assert_eq!(
        time_of_day(DAY_MILLIS - 1),
        TimeOfDay { hour: 23, minute: 59, second: 59, millisecond: 999 }
    );
}

#[test]
fn time_of_day_before_the_epoch_counts_from_the_midnight_before() {
    assert_eq!(
        time_of_day(-1),
        TimeOfDay { hour: 23, minute: 59, second: 59, millisecond: 999 }
    );
    assert_eq!(time_of_day(-DAY_MILLIS), TimeOfDay { hour: 0, minute: 0, second: 0, millisecond: 0 });
    assert_eq!(
        time_of_day(-DAY_MILLIS - 1),
        TimeOfDay { hour: 23, minute: 59, second: 59, millisecond: 999 }
    );
    assert_eq!(
        time_of_day(-3 * DAY_MILLIS + 3_600_000),
        TimeOfDay { hour: 1, minute: 0, second: 0, millisecond: 0 }
    );
}

#[test]
fn time_of_day_at_the_ends_of_the_range() {
    // i64::MAX = 106_751_991_167 days and 25_975_807 ms.
    assert_eq!(
        time_of_day(i64::MAX),
        TimeOfDay { hour: 7, minute: 12, second: 55, millisecond: 807 }
    );
    // i64::MIN = -106_751_991_168 days and 60_424_192 ms.
    assert_eq!(
        time_of_day(i64::MIN),
        TimeOfDay { hour: 16, minute: 47, second: 4, millisecond: 192 }
    );
}

#[test]
fn clock_shows_what_time_shows() {
    assert_eq!(clock_of(0), "0:00:00.0");
    assert_eq!(clock_of(100), "0:00:00.1");
    assert_eq!(clock_of(49_062_007), "13:37:42.007");
    assert_eq!(clock_of(-1), "23:59:59.999");
    for timestamp in [0, 1, 999, 1000, 59_999, 3_599_999, 86_399_999, 1_700_000_000_123, -1, -86_400_001] {
        assert_eq!(clock_of(timestamp), shown_by_time(timestamp));
    }
}

#[test]
fn print_shows_entries_oldest_first() {
    let mut conversation = Conversation::new();
    conversation.add_turn(turn("bob", "hey", 3_723_004));
    conversation.add_turn(turn("alice", "there", 101));
    conversation.add_turn(turn("alice", "hi", 100));
    assert_eq!(
        conversation.print(),
        "\nalice at 0:00:00.101\nhi\nthere\n\nbob at 1:02:03.004\nhey\n"
    );
}

#[test]
fn print_of_an_empty_conversation_is_empty() {
    assert_eq!(Conversation::new().print(), "");
}
