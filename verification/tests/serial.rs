use supershuckie::emulator::gb_serial::{
    GbSerialEvent, GbSerialEvents, MAX_GB_EVENTS, TAG_CONNECTED, TAG_INFRARED, TAG_MASTER, TAG_SLAVE,
};
use supershuckie::emulator::link::LinkError;
use supershuckie::emulator::varint::{push_varint, read_varint};

#[test]
fn varints_round_trip() {
    for value in [0u64, 1, 127, 128, 300, 16_383, 16_384, u32::MAX as u64, u64::MAX] {
        let mut bytes = Vec::new();
        push_varint(&mut bytes, value);
        let mut slice = bytes.as_slice();
        assert_eq!(read_varint(&mut slice).unwrap(), value);
        assert!(slice.is_empty());
    }
    let mut truncated: &[u8] = &[0x80, 0x80];
    assert!(read_varint(&mut truncated).is_err());
    let mut too_long: &[u8] = &[
        0x80, 0x80, 0x80, 0x80, 0x80, 0x80, 0x80, 0x80, 0x80, 0x80, 0x01,
    ];
    assert!(read_varint(&mut too_long).is_err());
}

#[test]
fn varints_are_seven_bits_at_a_time() {
    let mut bytes = Vec::new();
    push_varint(&mut bytes, 300);
    assert_eq!(bytes, [0xAC, 0x02]);
}

#[test]
fn gb_events_round_trip_in_order() {
    let events = vec![
        GbSerialEvent::Connected(true),
        GbSerialEvent::MasterBit(true),
        GbSerialEvent::MasterBit(false),
        GbSerialEvent::MasterBit(true),
        GbSerialEvent::MasterBit(true),
        GbSerialEvent::MasterBit(false),
        GbSerialEvent::MasterBit(false),
        GbSerialEvent::MasterBit(true),
        GbSerialEvent::MasterBit(false),
        GbSerialEvent::MasterBit(true),
        GbSerialEvent::SlaveBit { cycles: 12, bit: true },
        GbSerialEvent::SlaveBit { cycles: 12, bit: false },
        GbSerialEvent::SlaveBit { cycles: 4_000_000, bit: true },
        GbSerialEvent::MasterBit(false),
        GbSerialEvent::Connected(false),
    ];
    let mut bytes = Vec::new();
    GbSerialEvents::encode(&events, &mut bytes);
    assert_eq!(GbSerialEvents::decode(&bytes).unwrap(), events);

    // Nothing encodes to nothing, and nothing decodes to nothing.
    let mut empty = Vec::new();
    GbSerialEvents::encode(&[], &mut empty);
    assert!(empty.is_empty());
    assert!(GbSerialEvents::decode(&[]).unwrap().is_empty());
}

#[test]
fn gb_events_refuse_malformed_data() {
    assert!(GbSerialEvents::decode(&[0x09]).is_err(), "unknown tag");
    assert!(GbSerialEvents::decode(&[TAG_MASTER, 9, 0xFF]).is_err(), "truncated master bits");
    assert!(GbSerialEvents::decode(&[TAG_SLAVE, 1, 5]).is_err(), "truncated slave bit");
    assert!(GbSerialEvents::decode(&[TAG_SLAVE, 1, 5, 2]).is_err(), "slave bit value 2");
    assert!(GbSerialEvents::decode(&[TAG_CONNECTED]).is_err(), "truncated connected flag");
    assert!(GbSerialEvents::decode(&[TAG_CONNECTED, 7]).is_err(), "connected flag 7");
    assert!(GbSerialEvents::decode(&[TAG_INFRARED, 0]).is_err(), "infrared is reserved");
    // An absurd count is refused before anything is allocated for it.
    let mut huge = vec![TAG_MASTER];
    push_varint(&mut huge, 1 << 40);
    assert!(GbSerialEvents::decode(&huge).is_err());
    let mut bits = vec![TAG_SLAVE];
    push_varint(&mut bits, 1 << 40);
    assert!(GbSerialEvents::decode(&bits).is_err());
}

#[test]
fn master_bits_are_packed_from_the_top() {
    let mut bytes = Vec::new();
    GbSerialEvents::encode(
        &[GbSerialEvent::MasterBit(true), GbSerialEvent::MasterBit(false), GbSerialEvent::MasterBit(true)],
        &mut bytes,
    );
    assert_eq!(bytes, [TAG_MASTER, 3, 0b1010_0000]);
}

#[test]
fn link_errors_in_words() {
    assert_eq!(LinkError::NotConnected.message(), "the link port is not connected");
    assert_eq!(
        LinkError::IncompatiblePartner.message(),
        "the other console cannot be linked to this one"
    );
    assert_eq!(LinkError::Deadlock.message(), "both linked consoles are waiting on each other");
    assert_eq!(
        LinkError::BadSerialData("truncated varint".to_string()).message(),
        "the recorded link traffic is malformed: truncated varint"
    );
    assert_eq!(LinkError::Emulator("it stopped".to_string()).message(), "the emulator failed: it stopped");
}

#[test]
fn a_packet_describes_a_bounded_number_of_events() {
    let most = MAX_GB_EVENTS as usize;
    assert_eq!(most, 65_536);
    let plugs: Vec<u8> = [TAG_CONNECTED, 1].repeat(most);
    assert_eq!(GbSerialEvents::decode(&plugs).unwrap().len(), most);

    let one_more: Vec<u8> = [TAG_CONNECTED, 1].repeat(most + 1);
    match GbSerialEvents::decode(&one_more) {
        Err(LinkError::BadSerialData(what)) => {
            assert_eq!(what, "too many plug events in one frame")
        }
        other => panic!("{other:?}"),
    }

    // A full run of master bits leaves no room for a plug either.
    let mut mixed = vec![TAG_MASTER];
    push_varint(&mut mixed, MAX_GB_EVENTS);
    mixed.extend(vec![0xFF; most / 8]);
    assert_eq!(GbSerialEvents::decode(&mixed).unwrap().len(), most);
    mixed.extend([TAG_CONNECTED, 0]);
    assert!(GbSerialEvents::decode(&mixed).is_err());
}
