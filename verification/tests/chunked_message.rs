use gelf::ChunkSize;
use gelf::ChunkedMessage;
use gelf::ChunkedMessageId;
use gelf::Error;
use gelf::CHUNK_OVERHEAD;
use gelf::CHUNK_SIZE_WAN;
use gelf::MAGIC_BYTE_0;
use gelf::MAGIC_BYTE_1;

fn get_data(len: usize) -> Vec<u8> {
    let mut data = Vec::with_capacity(len);
    for i in 0..len {
        data.push(i as u8);
    }

    data
}

fn check_chunks(chunk_size: u16, msg_size: u32, expected_chunk_count: u8) {
    let msg_data = get_data(msg_size as usize);
    let msg_data_clone = msg_data.clone();
    let msg = ChunkedMessage::new(ChunkSize::Custom(chunk_size), msg_data).unwrap();
    let mut counter: u8 = 0;
    let mut iter = msg.iter();
    while let Some(chunk) = iter.next() {
        println!("{:?}", chunk);

        // length is in budget
        assert!(chunk.len() as u16 <= chunk_size + 12);
        // magic bytes
        assert_eq!(chunk[0], MAGIC_BYTE_0);
        assert_eq!(chunk[1], MAGIC_BYTE_1);

        // pos/counter section
        assert_eq!(chunk[10], counter);
        assert_eq!(chunk[11], expected_chunk_count);

        // first and last byte
        let first_index = (counter as u32 * chunk_size as u32) as usize;
        let last_index =
            (std::cmp::min((counter as u32 + 1) * chunk_size as u32, msg_size) - 1) as usize;
        assert_eq!(chunk[12], msg_data_clone[first_index]);
        assert_eq!(*chunk.last().unwrap(), msg_data_clone[last_index]);

        counter += 1;
    }

    assert_eq!(counter, expected_chunk_count);
}

fn chunking(chunk_size: u16, msg_size: u32) {
    check_chunks(chunk_size, msg_size, (msg_size / chunk_size as u32) as u8 + 1);
}

#[test]
fn chunked_message_id_from_and_to_bytes() {
    let raw_ids: Vec<&[u8; 8]> = vec![
        b"\xff\xff\xff\xff\xff\xff\xff\xff",
        b"\x00\x00\x00\x00\x00\x00\x00\x00",
        b"\xaa\xaa\xaa\xaa\xaa\xaa\xaa\xaa",
        b"\x55\x55\x55\x55\x55\x55\x55\x55",
        b"\x00\x01\x02\x03\x04\x05\x06\x07",
        b"\x07\x06\x05\x04\x03\x02\x01\x00",
        b"\x00\x10\x20\x30\x40\x50\x60\x70",
        b"\x70\x60\x50\x40\x30\x20\x10\x00",
    ];

    for raw_id in raw_ids {
        let id = ChunkedMessageId::from_bytes(raw_id.clone());
        assert_eq!(id.as_bytes(), raw_id);
    }
}

#[test]
fn chunked_message_id_from_and_to_int() {
    let raw_ids: Vec<u64> = vec![
        0xffffffffffffffff,
        0x0000000000000000,
        0xaaaaaaaaaaaaaaaa,
        0x5555555555555555,
        0x0001020304050607,
        0x0706050403020100,
        0x0010203040506070,
        0x7060504030201000,
    ];

    for raw_id in raw_ids {
        let id = ChunkedMessageId::from_int(raw_id);
        assert_eq!(id.to_int(), raw_id);
    }
}

#[test]
fn chunked_message_id_bytes_are_big_endian() {
    let id = ChunkedMessageId::from_int(0x0102030405060708);
    assert_eq!(id.as_bytes(), &[1, 2, 3, 4, 5, 6, 7, 8]);
    assert_eq!(id.to_int(), 0x0102030405060708);
}

#[test]
#[should_panic]
fn fail_too_many_chunks() {
    ChunkedMessage::new(ChunkSize::Custom(1), get_data(129)).unwrap();
}

#[test]
fn chunk_message_len() {
    let msg_1_chunk = ChunkedMessage::new(ChunkSize::Custom(1), get_data(1)).unwrap();
    let msg_2_chunks = ChunkedMessage::new(ChunkSize::Custom(1), get_data(2)).unwrap();
    let msg_128_chunks = ChunkedMessage::new(ChunkSize::Custom(1), get_data(128)).unwrap();

    assert_eq!(msg_1_chunk.len(), 1);
    assert_eq!(msg_2_chunks.len() as u32, 2 + 2 * CHUNK_OVERHEAD as u32);
    assert_eq!(msg_128_chunks.len() as u64, 128 + 128 * (CHUNK_OVERHEAD as u64));
}

#[test]
fn chunk_message_id_random() {
    let msg1 = ChunkedMessage::new(ChunkSize::Custom(1), get_data(1)).unwrap();
    let msg2 = ChunkedMessage::new(ChunkSize::Custom(1), get_data(1)).unwrap();
    let msg3 = ChunkedMessage::new(ChunkSize::Custom(1), get_data(1)).unwrap();

    assert!(msg1.id.to_int() != msg2.id.to_int());
    assert!(msg3.id.to_int() != msg2.id.to_int());
    assert!(msg1.id.to_int() != msg3.id.to_int());
}

#[test]
fn chunk_message_correct_math() {
    let msg1 = ChunkedMessage::new(ChunkSize::Custom(3), get_data(1)).unwrap();
    let msg2 = ChunkedMessage::new(ChunkSize::Custom(3), get_data(2)).unwrap();
    let msg3 = ChunkedMessage::new(ChunkSize::Custom(3), get_data(3)).unwrap();
    let msg4 = ChunkedMessage::new(ChunkSize::Custom(3), get_data(4)).unwrap();
    let msg5 = ChunkedMessage::new(ChunkSize::Custom(3), get_data(5)).unwrap();
    let msg6 = ChunkedMessage::new(ChunkSize::Custom(3), get_data(6)).unwrap();
    let msg7 = ChunkedMessage::new(ChunkSize::Custom(3), get_data(7)).unwrap();

    assert_eq!(msg1.num_chunks, 1);
    assert_eq!(msg2.num_chunks, 1);
    assert_eq!(msg3.num_chunks, 1);
    assert_eq!(msg4.num_chunks, 2);
    assert_eq!(msg5.num_chunks, 2);
    assert_eq!(msg6.num_chunks, 2);
    assert_eq!(msg7.num_chunks, 3);
}

#[test]
fn chunk_message_chunking() {
    // 10 exact chunks
    check_chunks(10, 100, 10);

    // 4 inexact chunks
    check_chunks(33, 100, 4);

    // test no chunks
    let msg = ChunkedMessage::new(ChunkSize::Custom(100), get_data(100)).unwrap();
    let mut iter = msg.iter();
    let chunk = iter.next().unwrap();
    assert_eq!(iter.next(), None);
    assert_eq!(chunk.len(), 100);
    assert_eq!(chunk[0], 0);
    assert_eq!(chunk[99], 99);
}

#[test]
fn chunk_large_message_chunking() {
    // 100k of msg
    chunking(CHUNK_SIZE_WAN, 100000);
}

#[test]
#[should_panic]
fn test_illegal_chunk_size() {
    ChunkedMessage::new(ChunkSize::Custom(0), get_data(1)).unwrap();
}

#[test]
fn too_many_chunks_is_chunking_error() {
    // 129 one-byte chunks exceed GELF's limit of 128
    let r = ChunkedMessage::new(ChunkSize::Custom(1), get_data(129));
    assert!(matches!(r, Err(Error::ChunkMessageFailed)));

    // exactly 128 chunks is still fine
    let r = ChunkedMessage::new(ChunkSize::Custom(1), get_data(128));
    assert!(r.is_ok());
}

#[test]
fn zero_chunk_size_is_illegal() {
    let r = ChunkedMessage::new(ChunkSize::Custom(0), get_data(1));
    assert!(matches!(r, Err(Error::IllegalChunkSize { size: 0 })));
}

#[test]
fn single_byte_chunks_layout() {
    // chunk_size = 1 and a 128-byte payload: 128 chunks of 13 bytes,
    // each holding the full header and one payload byte
    let data = get_data(128);
    let msg = ChunkedMessage::new(ChunkSize::Custom(1), data.clone()).unwrap();
    let id_bytes = *msg.id.as_bytes();
    let mut iter = msg.iter();
    let mut idx: usize = 0;
    while let Some(chunk) = iter.next() {
        assert_eq!(chunk.len(), 13);
        assert_eq!(chunk[0], 0x1e);
        assert_eq!(chunk[1], 0x0f);
        assert_eq!(&chunk[2..10], &id_bytes[..]);
        assert_eq!(chunk[10], idx as u8);
        assert_eq!(chunk[11], 128);
        assert_eq!(chunk[12], data[idx]);
        idx += 1;
    }
    assert_eq!(idx, 128);
}

#[test]
fn chunk_reassembly_restores_payload() {
    // concatenating the chunk payloads (headers stripped) in index
    // order reproduces the original payload byte for byte
    let data = get_data(1000);
    let msg = ChunkedMessage::new(ChunkSize::Custom(33), data.clone()).unwrap();
    let mut rebuilt: Vec<u8> = Vec::new();
    let mut iter = msg.iter();
    while let Some(chunk) = iter.next() {
        rebuilt.extend_from_slice(&chunk[12..]);
    }
    assert_eq!(rebuilt, data);
}

#[test]
fn default_chunk_sizes() {
    assert_eq!(ChunkSize::LAN.size(), 8154);
    assert_eq!(ChunkSize::WAN.size(), CHUNK_SIZE_WAN);
    assert_eq!(ChunkSize::Custom(77).size(), 77);
}

#[test]
fn empty_payload_has_no_chunks() {
    // ceiling division of 0 yields 0 chunks and an empty iteration
    let msg = ChunkedMessage::new(ChunkSize::Custom(10), Vec::new()).unwrap();
    assert_eq!(msg.num_chunks, 0);
    assert_eq!(msg.len(), 0);
    let mut iter = msg.iter();
    assert_eq!(iter.next(), None);
}
