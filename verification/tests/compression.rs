use gelf::Error;
use gelf::Logger;
use gelf::Message;
use gelf::MessageCompression;
use gelf::NullBackend;
use gelf::WireMessage;

use serde_json::Value;

#[test]
fn test_compression_none() {
    let logger = Logger::new(NullBackend::new()).expect("Should not be an error");

    let message = WireMessage::new(Message::new("Testing"), &logger);

    let compressor = MessageCompression::NoCompression;

    let actual = compressor.compress(&message).expect("Should success");

    let actual: Value =
        serde_json::from_slice(actual.as_slice()).expect("Should success to parse");
    let expected: Value = serde_json::from_str(message.to_gelf().unwrap().as_str())
        .expect("Should success to encode");

    assert_eq!(actual, expected, "Should not compress any data and be equal");
}

#[test]
fn test_compression_gzip() {
    let logger = Logger::new(NullBackend::new()).expect("Should not be an error");

    let message = WireMessage::new(Message::new("Testing"), &logger);

    for level in 1..=12 {
        let compressor = MessageCompression::Gzip { level };

        let mut decompressor = libdeflater::Decompressor::new();

        let actual = compressor.compress(&message).expect("Should success");

        let json = message.to_gelf().unwrap();
        let mut buffer: Vec<u8> = std::iter::repeat(0).take(json.len()).collect();

        let decoded = decompressor
            .gzip_decompress(actual.as_slice(), buffer.as_mut_slice())
            .expect("Should not throw an error");

        buffer.truncate(decoded);

        let actual = buffer;

        let actual: Value =
            serde_json::from_slice(actual.as_slice()).expect("Should success to parse");

        let expected: Value =
            serde_json::from_str(json.as_str()).expect("Should success to encode");

        assert_eq!(actual, expected, "Decoded data should be equal input");
    }
}

#[test]
fn test_compression_zlib() {
    let logger = Logger::new(NullBackend::new()).expect("Should not be an error");

    let message = WireMessage::new(Message::new("Testing"), &logger);

    for level in 1..=12 {
        let compressor = MessageCompression::Zlib { level };

        let mut decompressor = libdeflater::Decompressor::new();

        let actual = compressor.compress(&message).expect("Should success");

        let json = message.to_gelf().unwrap();
        let mut buffer: Vec<u8> = std::iter::repeat(0).take(json.len()).collect();

        let decoded = decompressor
            .zlib_decompress(actual.as_slice(), buffer.as_mut_slice())
            .expect("Should not throw an error");

        buffer.truncate(decoded);

        let actual = buffer;

        let actual: Value =
            serde_json::from_slice(actual.as_slice()).expect("Should success to parse");

        let expected: Value =
            serde_json::from_str(json.as_str()).expect("Should success to encode");

        assert_eq!(actual, expected, "Decoded data should be equal input");
    }
}

#[test]
fn default_compression_is_fast_gzip() {
    assert_eq!(MessageCompression::default(), MessageCompression::Gzip { level: 1 });
}

#[test]
fn out_of_range_level_is_rejected() {
    let logger = Logger::new_with_hostname(NullBackend::new(), "h");
    let message = WireMessage::new(Message::new("Testing"), &logger);

    let r = MessageCompression::Gzip { level: 13 }.compress(&message);
    assert!(matches!(r, Err(Error::InvalidCompressionLevel { level: 13 })));

    let r = MessageCompression::Zlib { level: -1 }.compress(&message);
    assert!(matches!(r, Err(Error::InvalidCompressionLevel { level: -1 })));
}

#[test]
fn none_round_trip_equals_direct_serialization() {
    // serialize, pass-through compress, "decompress" (identity), parse:
    // the value equals the parse of the direct serialization
    let logger = Logger::new_with_hostname(NullBackend::new(), "h");
    let mut msg = Message::new("round trip");
    msg.set_full_message("with a \"quoted\" part\nand a second line");
    msg.set_metadata("key", "value").unwrap();
    let message = WireMessage::new(msg, &logger);

    let bytes = MessageCompression::NoCompression.compress(&message).unwrap();
    let direct = message.to_gelf().unwrap();
    assert_eq!(bytes, direct.as_bytes().to_vec());

    let parsed: Value = serde_json::from_slice(bytes.as_slice()).unwrap();
    let expected: Value = serde_json::from_str(direct.as_str()).unwrap();
    assert_eq!(parsed, expected);
}
