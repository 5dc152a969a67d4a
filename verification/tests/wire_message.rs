use gelf::Level;
use gelf::Logger;
use gelf::Message;
use gelf::NullBackend;
use gelf::Timestamp;
use gelf::WireMessage;

use chrono::TimeZone;
use chrono::Utc;
use serde_json::Value;

fn to_json(message: &WireMessage) -> Value {
    serde_json::from_str(message.to_gelf().expect("Failed to serialize WireMessage").as_str())
        .expect("Failed to serialize WireMessage")
}

#[test]
fn wire_message_serialization() {
    let mut message = Message::new_with_level("short", Level::Alert);
    message.set_full_message("full");

    let datetime =
        Utc.with_ymd_and_hms(2000, 1, 1, 1, 2, 3).unwrap() + chrono::Duration::microseconds(123_456);
    message.set_timestamp(Timestamp {
        seconds: datetime.timestamp(),
        millis: datetime.timestamp_subsec_millis() as u16,
    });

    message.set_metadata("key1", "value1").unwrap();
    message.set_metadata("key2", "value2").unwrap();

    let logger = Logger::new_with_hostname(NullBackend::new(), "host_value");
    let wire_msg = WireMessage::new(message, &logger);

    let json = to_json(&wire_msg);

    assert_eq!(Some(&Value::String(String::from("1.1"))), json.get("version"));
    assert_eq!(Some(&Value::String(String::from("host_value"))), json.get("host"));
    assert_eq!(Some(&Value::String(String::from("short"))), json.get("short_message"));
    assert_eq!(Some(&Value::String(String::from("full"))), json.get("full_message"));
    assert_eq!(Some(1), json.get("level").and_then(|v| v.as_i64())); // Level::Alert = 1

    let timestamp_secs = datetime.timestamp();
    let expected_timestamp = format!("{}.{}", timestamp_secs, 123);
    assert_eq!(Some(&Value::String(expected_timestamp)), json.get("timestamp"));

    assert_eq!(Some(&Value::String(String::from("value1"))), json.get("_key1"));
    assert_eq!(Some(&Value::String(String::from("value2"))), json.get("_key2"));
}

#[test]
fn minimal_message_has_exactly_four_keys() {
    // short_message="Testing", no full_message, no timestamp, no
    // metadata, level=Alert, host="h": the JSON holds exactly
    // version, host, short_message and level
    let logger = Logger::new_with_hostname(NullBackend::new(), "h");
    let message = WireMessage::new(Message::new("Testing"), &logger);

    let json = to_json(&message);
    let obj = json.as_object().expect("GELF JSON must be an object");

    assert_eq!(obj.len(), 4);
    assert!(obj.contains_key("version"));
    assert!(obj.contains_key("host"));
    assert!(obj.contains_key("short_message"));
    assert!(obj.contains_key("level"));
    assert_eq!(obj.get("version"), Some(&Value::String(String::from("1.1"))));
    assert_eq!(obj.get("host"), Some(&Value::String(String::from("h"))));
    assert_eq!(obj.get("short_message"), Some(&Value::String(String::from("Testing"))));
    assert_eq!(obj.get("level").and_then(|v| v.as_i64()), Some(1));
}

#[test]
fn reserved_key_never_mutates_metadata() {
    let mut message = Message::new("Testing");
    message.set_metadata("kept", "yes").unwrap();

    let before = message.all_metadata().clone();
    let r = message.set_metadata("id", "anything");
    assert!(r.is_err());
    assert_eq!(message.all_metadata(), &before);

    // it fails every time, not only on the first attempt
    let r = message.set_metadata("id", "other");
    assert!(r.is_err());
    assert_eq!(message.all_metadata(), &before);
    assert!(message.metadata("id").is_none());
}

#[test]
fn defaults_added_only_for_absent_keys() {
    let mut logger = Logger::new_with_hostname(NullBackend::new(), "h");
    logger.set_default_metadata("facility", "default_facility");
    logger.set_default_metadata("team", "default_team");

    let mut message = Message::new("Testing");
    message.set_metadata("facility", "own_facility").unwrap();

    let wire = WireMessage::new(message, &logger);
    let json = to_json(&wire);

    // the message's own value wins on conflict
    assert_eq!(json.get("_facility"), Some(&Value::String(String::from("own_facility"))));
    // an absent key gets the default
    assert_eq!(json.get("_team"), Some(&Value::String(String::from("default_team"))));
}

#[test]
fn default_under_reserved_key_is_skipped() {
    let mut logger = Logger::new_with_hostname(NullBackend::new(), "h");
    logger.set_default_metadata("id", "should_not_appear");

    let wire = WireMessage::new(Message::new("Testing"), &logger);
    let json = to_json(&wire);
    assert!(json.get("_id").is_none());
    assert!(json.get("id").is_none());
}

#[test]
fn timestamp_renders_seconds_dot_millis() {
    let logger = Logger::new_with_hostname(NullBackend::new(), "h");

    let mut message = Message::new("t");
    message.set_timestamp(Timestamp { seconds: 946688523, millis: 7 });
    let json = to_json(&WireMessage::new(message, &logger));
    assert_eq!(json.get("timestamp"), Some(&Value::String(String::from("946688523.7"))));

    let mut message = Message::new("t");
    message.set_timestamp(Timestamp { seconds: -5, millis: 120 });
    let json = to_json(&WireMessage::new(message, &logger));
    assert_eq!(json.get("timestamp"), Some(&Value::String(String::from("-5.120"))));
}

#[test]
fn escaping_survives_a_json_parser() {
    let logger = Logger::new_with_hostname(NullBackend::new(), "h");
    let text = "a \"quote\", a \\ backslash,\n a newline, a tab\t and a bell\u{7}";
    let mut message = Message::new(text);
    message.set_metadata("weird\nkey", "weird\"value").unwrap();

    let json = to_json(&WireMessage::new(message, &logger));
    assert_eq!(json.get("short_message"), Some(&Value::String(String::from(text))));
    assert_eq!(json.get("_weird\nkey"), Some(&Value::String(String::from("weird\"value"))));
}

#[test]
fn tcp_frame_is_json_plus_null_byte() {
    let logger = Logger::new_with_hostname(NullBackend::new(), "h");
    let message = WireMessage::new(Message::new("Testing"), &logger);

    let frame = message.to_tcp_frame().unwrap();
    let json = message.to_gelf().unwrap();
    assert_eq!(frame.len(), json.len() + 1);
    assert_eq!(frame[frame.len() - 1], 0x00);
    assert_eq!(&frame[..frame.len() - 1], json.as_bytes());
}

#[test]
fn chunked_wire_message() {
    let logger = Logger::new_with_hostname(NullBackend::new(), "h");
    let message = WireMessage::new(Message::new("Testing"), &logger);

    let chunked = message
        .to_chunked_message(gelf::ChunkSize::Custom(10), gelf::MessageCompression::NoCompression)
        .unwrap();
    let json = message.to_gelf().unwrap();
    let expected_chunks = (json.len() + 9) / 10;
    assert_eq!(chunked.num_chunks as usize, expected_chunks);

    let mut rebuilt: Vec<u8> = Vec::new();
    let mut iter = chunked.iter();
    while let Some(chunk) = iter.next() {
        rebuilt.extend_from_slice(&chunk[12..]);
    }
    assert_eq!(rebuilt, json.as_bytes().to_vec());
}
