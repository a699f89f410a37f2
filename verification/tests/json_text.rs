use downloader::context::Context;
use downloader::conversation::{Conversation, Turn};
use downloader::json::{array_json, entry_json, push_decimal, push_indent, turn_json, SaveError};
use downloader::message::{Message, MessageData};
use serde::ser::{Serialize, SerializeStruct, Serializer};
use time::OffsetDateTime;

fn turn(author: &str, content: &str, start_time: i64) -> Turn {
    Turn { content: content.to_string(), author: author.to_string(), start_time }
}

fn ordinary(author: &str, content: &str, timestamp: i64) -> Message {
    Message::Default(MessageData {
        author: author.to_string(),
        content: content.to_string(),
        timestamp,
    })
}

fn decimal(n: i64) -> String {
    let mut out = String::new();
    push_decimal(&mut out, n);
    out
}

fn saved(context: &Context) -> String {
    let mut text = String::new();
    assert!(context.save_to(&mut text).is_ok());
    text
}

/// A timestamp written as a derived serializer writes it with
/// `time::serde::timestamp::milliseconds`.
struct Millis(OffsetDateTime);

impl Serialize for Millis {
    fn serialize<S: Serializer>(&self, serializer: S) -> Result<S::Ok, S::Error> {
        time::serde::timestamp::milliseconds::serialize(&self.0, serializer)
    }
}

/// A turn written field by field, as a derived serializer writes it.
struct Row {
    content: String,
    author: String,
    start_time: Millis,
}

impl Serialize for Row {
    fn serialize<S: Serializer>(&self, serializer: S) -> Result<S::Ok, S::Error> {
        let mut row = serializer.serialize_struct("Turn", 3)?;
        row.serialize_field("content", &self.content)?;
        row.serialize_field("author", &self.author)?;
        row.serialize_field("start_time", &self.start_time)?;
        row.end()
    }
}

fn row(turn: &Turn) -> Row {
    let nanos = i128::from(turn.start_time) * 1_000_000;
    Row {
        content: turn.content.clone(),
        author: turn.author.clone(),
        start_time: Millis(OffsetDateTime::from_unix_timestamp_nanos(nanos).expect("in range")),
    }
}

fn rows(conversation: &Conversation) -> Vec<Row> {
    conversation.iter().into_iter().map(row).collect()
}

#[test]
fn decimal_of_zero_and_small_numbers() {
    assert_eq!(decimal(0), "0");
    assert_eq!(decimal(7), "7");
    assert_eq!(decimal(10), "10");
    assert_eq!(decimal(-1), "-1");
    assert_eq!(decimal(1_700_000_000_123), "1700000000123");
    assert_eq!(decimal(-1_000_000), "-1000000");
}

#[test]
fn decimal_at_the_ends_of_the_range() {
    assert_eq!(decimal(i64::MAX), "9223372036854775807");
    assert_eq!(decimal(i64::MIN), "-9223372036854775808");
}

#[test]
fn decimal_agrees_with_the_standard_library() {
    for n in [0, 1, 9, 10, 99, 100, 101, 12345, -9, -10, -12345, i64::MAX - 1, i64::MIN + 1] {
        assert_eq!(decimal(n), n.to_string());
    }
}

#[test]
fn decimal_is_written_behind_what_is_there() {
    let mut out = String::from("t=");
    push_decimal(&mut out, -42);
    assert_eq!(out, "t=-42");
}

#[test]
fn indent_is_two_blanks_for_each_level() {
    let mut out = String::from("x");
    push_indent(&mut out, 0);
    assert_eq!(out, "x");
    push_indent(&mut out, 1);
    assert_eq!(out, "x  ");
    push_indent(&mut out, 3);
    assert_eq!(out, "x        ");
}

#[test]
fn turn_json_lays_out_the_three_fields() {
    assert_eq!(
        turn_json("\"hi\"", "\"alice\"", 100, 0),
        "{\n  \"content\": \"hi\",\n  \"author\": \"alice\",\n  \"start_time\": 100\n}"
    );
    assert_eq!(
        turn_json("\"hi\"", "\"alice\"", -100, 2),
        "{\n      \"content\": \"hi\",\n      \"author\": \"alice\",\n      \"start_time\": -100\n    }"
    );
}

fn json_error(text: &str) -> serde_json::Error {
    serde_json::from_str::<i32>(text).expect_err("not a number")
}

#[test]
fn entry_json_of_two_literals_is_the_object() {
    let entry = entry_json(Ok("\"hi\"".to_string()), Ok("\"alice\"".to_string()), 100, 1);
    assert_eq!(
        entry.expect("both were quoted"),
        "{\n    \"content\": \"hi\",\n    \"author\": \"alice\",\n    \"start_time\": 100\n  }"
    );
}

#[test]
fn entry_json_hands_on_the_error_of_the_content() {
    let failure = json_error("x");
    let message = failure.to_string();
    let entry = entry_json(Err(failure), Ok("\"alice\"".to_string()), 100, 1);
    match entry {
        Err(SaveError::Serialization(e)) => assert_eq!(e.to_string(), message),
        Ok(text) => panic!("no text is due, got {text}"),
    }
}

#[test]
fn entry_json_hands_on_the_error_of_the_author() {
    let failure = json_error("[");
    let message = failure.to_string();
    let entry = entry_json(Ok("\"hi\"".to_string()), Err(failure), 100, 1);
    match entry {
        Err(SaveError::Serialization(e)) => assert_eq!(e.to_string(), message),
        Ok(text) => panic!("no text is due, got {text}"),
    }
}

#[test]
fn entry_json_reports_the_content_before_the_author() {
    let first = json_error("x");
    let message = first.to_string();
    let second = json_error("[");
    assert_ne!(message, second.to_string());
    let entry = entry_json(Err(first), Err(second), 100, 1);
    match entry {
        Err(SaveError::Serialization(e)) => assert_eq!(e.to_string(), message),
        Ok(text) => panic!("no text is due, got {text}"),
    }
}

#[test]
fn array_json_of_nothing_is_a_pair_of_brackets() {
    assert_eq!(array_json(&Vec::new(), 0), "[]");
    assert_eq!(array_json(&Vec::new(), 3), "[]");
}

#[test]
fn array_json_puts_each_item_on_its_own_line() {
    assert_eq!(array_json(&vec!["1".to_string()], 0), "[\n  1\n]");
    assert_eq!(
        array_json(&vec!["1".to_string(), "2".to_string(), "3".to_string()], 1),
        "[\n    1,\n    2,\n    3\n  ]"
    );
}

#[test]
fn empty_conversation_is_written_as_an_empty_array() {
    assert_eq!(Conversation::new().serialize().expect("text"), "[]");
    assert_eq!(Conversation::new().serialize_at(4).expect("text"), "[]");
}

#[test]
fn empty_context_is_written_as_one_empty_array() {
    let context = Context::new();
    let mut text = String::from("old");
    assert!(context.save_to(&mut text).is_ok());
    assert_eq!(text, "[\n  []\n]");
    assert_eq!(context.serialize().expect("text"), "[\n  []\n]");
}

#[test]
fn conversation_is_written_oldest_first() {
    let mut conversation = Conversation::new();
    conversation.add_turn(turn("bob", "hey", 102));
    conversation.add_turn(turn("alice", "there", 101));
    conversation.add_turn(turn("alice", "hi", 100));
    let expected = "[\n  {\n    \"content\": \"hi\\nthere\",\n    \"author\": \"alice\",\n    \"start_time\": 101\n  },\n  {\n    \"content\": \"hey\",\n    \"author\": \"bob\",\n    \"start_time\": 102\n  }\n]";
    assert_eq!(conversation.serialize().expect("text"), expected);
}

#[test]
fn context_text_lists_entries_oldest_first() {
    let mut context = Context::new();
    context.add(&ordinary("bob", "hey \"you\"", 102));
    context.add(&Message::Other);
    context.add(&Message::Reply(
        MessageData { author: "alice".to_string(), content: "there".to_string(), timestamp: 101 },
        None,
    ));
    let expected = "[\n  [\n    {\n      \"content\": \"there\",\n      \"author\": \"alice\",\n      \"start_time\": 101\n    },\n    {\n      \"content\": \"hey \\\"you\\\"\",\n      \"author\": \"bob\",\n      \"start_time\": 102\n    }\n  ]\n]";
    assert_eq!(saved(&context), expected);
}

#[test]
fn three_turns_end_to_end_are_written_in_reverse_of_arrival() {
    let mut context = Context::new();
    context.add(&ordinary("alice", "hi", 100));
    context.add(&ordinary("alice", "there", 101));
    context.add(&ordinary("bob", "hey", 102));
    let expected = "[\n  [\n    {\n      \"content\": \"hey\",\n      \"author\": \"bob\",\n      \"start_time\": 102\n    },\n    {\n      \"content\": \"there\\nhi\",\n      \"author\": \"alice\",\n      \"start_time\": 100\n    }\n  ]\n]";
    assert_eq!(saved(&context), expected);
}

#[test]
fn strings_are_escaped_as_json() {
    let mut conversation = Conversation::new();
    conversation.add_turn(turn("a\\b", "tab\there \"quoted\" \u{1}\u{7f} \u{e9}\u{1f600}", 1));
    let expected = "[\n  {\n    \"content\": \"tab\\there \\\"quoted\\\" \\u0001\u{7f} \u{e9}\u{1f600}\",\n    \"author\": \"a\\\\b\",\n    \"start_time\": 1\n  }\n]";
    assert_eq!(conversation.serialize().expect("text"), expected);
}

#[test]
fn saving_twice_writes_the_same_text() {
    let mut context = Context::new();
    context.add_chunk(&[
        ordinary("bob", "hey", 102),
        ordinary("alice", "there", 101),
        ordinary("alice", "hi", 100),
    ]);
    let mut first = String::new();
    let mut second = String::from("something else");
    assert!(context.save_to(&mut first).is_ok());
    assert!(context.save_to(&mut second).is_ok());
    assert_eq!(first.as_bytes(), second.as_bytes());
    assert_eq!(context.serialize().expect("text"), first);
}

#[test]
fn saving_leaves_the_context_as_it_was() {
    let mut context = Context::new();
    context.add(&ordinary("bob", "hey", 102));
    let before = saved(&context);
    context.add(&ordinary("alice", "hi", 100));
    let after = saved(&context);
    assert_ne!(before, after);
    assert_eq!(context.conversations()[0].len(), 2);
}

#[test]
fn saved_text_is_what_serde_json_writes_for_the_same_rows() {
    let mut context = Context::new();
    context.add_chunk(&[
        ordinary("bob", "line one\nline two\r\n", 1_700_000_000_123),
        ordinary("bob", "\u{8}\u{c}\u{0}\u{1f} / \\ \"", 1_700_000_000_000),
        Message::Other,
        ordinary("al\"ice", "", -1),
        ordinary("\u{4e2d}\u{6587}", "\u{1f600} emoji \u{e9}", 0),
        ordinary("bob", "x", -86_400_001),
    ]);
    let document: Vec<Vec<Row>> = context.conversations().iter().map(rows).collect();
    let expected = serde_json::to_string_pretty(&document).expect("serde_json writes the rows");
    assert_eq!(saved(&context), expected);
}

#[test]
fn conversation_text_is_what_serde_json_writes_for_the_same_rows() {
    let mut conversation = Conversation::new();
    assert_eq!(
        conversation.serialize().expect("text"),
        serde_json::to_string_pretty(&rows(&conversation)).expect("serde_json writes the rows")
    );
    conversation.add_turn(turn("bob", "only", 5));
    assert_eq!(
        conversation.serialize().expect("text"),
        serde_json::to_string_pretty(&rows(&conversation)).expect("serde_json writes the rows")
    );
    conversation.add_turn(turn("alice", "second", 4));
    assert_eq!(
        conversation.serialize().expect("text"),
        serde_json::to_string_pretty(&rows(&conversation)).expect("serde_json writes the rows")
    );
}

#[test]
fn saved_text_reads_back_as_json() {
    let mut context = Context::new();
    context.add(&ordinary("bob", "hey", 102));
    context.add(&ordinary("alice", "hi\tthere", 100));
    let value: serde_json::Value = serde_json::from_str(&saved(&context)).expect("valid JSON");
    let conversations = value.as_array().expect("an array of conversations");
    assert_eq!(conversations.len(), 1);
    let entries = conversations[0].as_array().expect("an array of turns");
    assert_eq!(entries.len(), 2);
    assert_eq!(entries[0]["author"].as_str(), Some("alice"));
    assert_eq!(entries[0]["content"].as_str(), Some("hi\tthere"));
    assert_eq!(entries[0]["start_time"].as_i64(), Some(100));
    assert_eq!(entries[1]["author"].as_str(), Some("bob"));
    assert_eq!(entries[1]["start_time"].as_i64(), Some(102));
}
