use supershuckie::frame_server::protocol::{
    message_length, DecodeError, Info, ReadError, Reply, Request, MAX_REQUEST_LENGTH, TAG_R_FRAME,
};

fn round_trip_request(r: Request) {
    let mut bytes = Vec::new();
    r.encode(&mut bytes);
    let len = u32::from_le_bytes(bytes[..4].try_into().unwrap()) as usize;
    assert_eq!(len, bytes.len() - 4, "length counts tag + payload");
    assert_eq!(Request::decode(&bytes[4..]), Ok(r.clone()));
    let mut cursor = bytes.as_slice();
    assert_eq!(Request::read(&mut cursor).unwrap(), Some(Ok(r)));
    assert_eq!(Request::read(&mut cursor).unwrap(), None, "clean EOF after the message");
}

fn round_trip_reply(r: Reply) {
    let mut bytes = Vec::new();
    r.encode(&mut bytes);
    let len = u32::from_le_bytes(bytes[..4].try_into().unwrap()) as usize;
    assert_eq!(len, bytes.len() - 4);
    assert_eq!(Reply::decode(&bytes[4..]), Ok(r.clone()));
    let mut cursor = bytes.as_slice();
    assert_eq!(Reply::read(&mut cursor).unwrap(), Some(Ok(r)));
    assert_eq!(Reply::read(&mut cursor).unwrap(), None);
}

#[test]
fn every_request_round_trips() {
    round_trip_request(Request::Hello { protocol: 1 });
    round_trip_request(Request::Open {
        rom: "/roms/game.gba".into(),
        replay: "/replays/run — ünïcode.replay".into(),
        layout: 3,
        audio: true,
    });
    round_trip_request(Request::Open { rom: String::new(), replay: String::new(), layout: 0, audio: false });
    round_trip_request(Request::Frame { id: 7, index: 0 });
    round_trip_request(Request::Frame { id: u32::MAX, index: u64::MAX });
    round_trip_request(Request::Run { id: 9, from: 2000, to: 2060 });
    round_trip_request(Request::Audio { id: 11, first_frame: 3000, frames: 10 });
    round_trip_request(Request::Cancel { id: 9 });
    round_trip_request(Request::Close);
}

#[test]
fn every_reply_round_trips() {
    round_trip_reply(Reply::Hello {
        protocol: 1,
        server: "supershuckie-frame-server 0.4.14".into(),
        cores: vec!["Game Boy".into(), "Nintendo DS".into()],
    });
    round_trip_reply(Reply::Hello { protocol: 1, server: String::new(), cores: vec![] });
    round_trip_reply(Reply::Info(Info {
        console: "Game Boy Advance".into(),
        width: 240,
        height: 160,
        fps_num: 4194304,
        fps_den: 70224,
        frames: 36000,
        sample_rate: 48000,
        rom_ok: true,
        core_recorded: "mGBA 0.10.5".into(),
        core_running: "mGBA 0.10.5".into(),
        keyframes: vec![0, 120, 240, 36000],
        bookmarks: vec![("start".into(), 5), ("end".into(), 35000)],
        crop: Some((100, 35900)),
        counters: vec![("resets".into(), -3), ("encounters".into(), i64::MAX)],
    }));
    round_trip_reply(Reply::Info(Info { rom_ok: false, crop: None, ..Info::default() }));
    round_trip_reply(Reply::Frame {
        id: 3,
        index: 1000,
        pixels: (0..=255u8).cycle().take(240 * 160 * 4).collect(),
    });
    round_trip_reply(Reply::Frame { id: 3, index: 1000, pixels: vec![] });
    round_trip_reply(Reply::Done { id: 4 });
    round_trip_reply(Reply::Audio {
        id: 5,
        first_frame: 3000,
        frames: 10,
        samples: vec![0, -1, i16::MAX, i16::MIN, 1234, -1234],
    });
    round_trip_reply(Reply::Audio { id: 5, first_frame: 0, frames: 0, samples: vec![] });
    round_trip_reply(Reply::Cancelled { id: 6 });
    round_trip_reply(Reply::Error { id: 0, message: "no such file".into() });
}

#[test]
fn frame_pixels_are_the_raw_words() {
    // The server writes u32 0xAARRGGBB words as little-endian bytes: B, G, R, A.
    let word: u32 = 0xAABBCCDD;
    let mut pixels = Vec::new();
    pixels.extend_from_slice(&word.to_le_bytes());
    let reply = Reply::Frame { id: 1, index: 2, pixels };
    let mut bytes = Vec::new();
    reply.encode(&mut bytes);
    // length(4) tag(1) id(4) index(8) then the pixel
    assert_eq!(&bytes[17..], &[0xDD, 0xCC, 0xBB, 0xAA]);
    assert_eq!(bytes[4], TAG_R_FRAME);
}

#[test]
fn wire_layout_matches_the_document() {
    let mut bytes = Vec::new();
    Request::Run { id: 1, from: 2, to: 3 }.encode(&mut bytes);
    assert_eq!(
        bytes,
        [
            21, 0, 0, 0, // length = 1 + 4 + 8 + 8
            0x04, // Run
            1, 0, 0, 0, // id
            2, 0, 0, 0, 0, 0, 0, 0, // from
            3, 0, 0, 0, 0, 0, 0, 0, // to
        ]
    );

    let mut bytes = Vec::new();
    Reply::Error { id: 0, message: "hi".into() }.encode(&mut bytes);
    assert_eq!(bytes, [11, 0, 0, 0, 0x8F, 0, 0, 0, 0, 2, 0, 0, 0, b'h', b'i']);
}

#[test]
fn bad_input_is_an_error_not_a_panic() {
    assert_eq!(Request::decode(&[]), Err(DecodeError::Truncated));
    assert_eq!(Request::decode(&[0x03, 1, 0, 0, 0]), Err(DecodeError::Truncated));
    assert_eq!(Request::decode(&[0x42]), Err(DecodeError::UnknownTag(0x42)));
    assert_eq!(Request::decode(&[0x07, 0]), Err(DecodeError::TrailingBytes(1)));
    assert_eq!(Request::decode(&[0x02, 1, 0, 0, 0, 0xFF]), Err(DecodeError::BadString));
    assert_eq!(
        Reply::decode(&[0x85, 1, 0, 0, 0, 0, 0, 0, 0, 0, 0, 0, 0, 1, 0, 0, 0, 5, 0, 0, 0, 1, 2]),
        Err(DecodeError::Truncated)
    );

    // Length claims more than there is.
    let mut cursor: &[u8] = &[9, 0, 0, 0, 0x07];
    assert!(matches!(Request::read(&mut cursor).unwrap_err(), ReadError::UnexpectedEof));
    // A zero-length message is not a message.
    let mut cursor: &[u8] = &[0, 0, 0, 0];
    assert!(matches!(Request::read(&mut cursor).unwrap_err(), ReadError::InvalidData(_)));
    // Absurd lengths are refused before allocating.
    let mut cursor: &[u8] = &[0xFF, 0xFF, 0xFF, 0xFF];
    assert!(matches!(Request::read(&mut cursor).unwrap_err(), ReadError::InvalidData(_)));
}

#[test]
fn several_messages_in_one_stream() {
    let mut bytes = Vec::new();
    Request::Hello { protocol: 1 }.encode(&mut bytes);
    Request::Frame { id: 1, index: 5 }.encode(&mut bytes);
    Request::Close.encode(&mut bytes);
    let mut cursor = bytes.as_slice();
    assert_eq!(Request::read(&mut cursor).unwrap(), Some(Ok(Request::Hello { protocol: 1 })));
    assert_eq!(Request::read(&mut cursor).unwrap(), Some(Ok(Request::Frame { id: 1, index: 5 })));
    assert_eq!(Request::read(&mut cursor).unwrap(), Some(Ok(Request::Close)));
    assert_eq!(Request::read(&mut cursor).unwrap(), None);
}

#[test]
fn lengths_are_checked_before_a_body_is_read() {
    assert_eq!(message_length(&[1, 0, 0, 0], MAX_REQUEST_LENGTH), Ok(1));
    assert_eq!(message_length(&[0, 0, 0x10, 0], MAX_REQUEST_LENGTH), Ok(0x10_0000));
    assert!(message_length(&[1, 0, 0x10, 0], MAX_REQUEST_LENGTH).is_err());
    assert!(message_length(&[0, 0, 0, 0], MAX_REQUEST_LENGTH).is_err());
}

#[test]
fn decode_errors_in_words() {
    assert_eq!(DecodeError::Truncated.message().is_empty(), false);
    assert_ne!(DecodeError::UnknownTag(0x42).message(), DecodeError::UnknownTag(0x43).message());
}

#[test]
fn input_that_ends_inside_a_length_is_no_clean_end() {
    let mut input: &[u8] = &[1, 0, 0];
    assert!(matches!(Request::read(&mut input), Err(ReadError::UnexpectedEof)));
    let mut input: &[u8] = &[];
    assert!(matches!(Request::read(&mut input), Ok(None)));
}
