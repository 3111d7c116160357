use ts_analyzer::errors::invalid_first_byte::InvalidFirstByte;
use ts_analyzer::errors::invalid_payload_pointer::InvalidPayloadPointer;
use ts_analyzer::errors::no_payload::NoPayload;
use ts_analyzer::errors::no_sync_byte_found::NoSyncByteFound;
use ts_analyzer::errors::payload_is_not_start::PayloadIsNotStart;
use ts_analyzer::errors::truncated_packet::TruncatedPacket;
use ts_analyzer::errors::PacketError;
use ts_analyzer::helpers::tracked_payload::TrackedPayload;
use ts_analyzer::packet::TSPacket;
use ts_analyzer::text::decimal;

#[test]
fn decimal_numbers() {
    assert_eq!(decimal(0), "0");
    assert_eq!(decimal(7), "7");
    assert_eq!(decimal(10), "10");
    assert_eq!(decimal(71), "71");
    assert_eq!(decimal(255), "255");
    assert_eq!(decimal(1_234_567_890), "1234567890");
    assert_eq!(decimal(usize::MAX), format!("{}", usize::MAX));
}

#[test]
fn messages() {
    assert_eq!(InvalidFirstByte { byte: 72 }.message(), "invalid first byte for packet: [72]");
    assert_eq!(InvalidFirstByte { byte: 0 }.message(), "invalid first byte for packet: [0]");
    assert_eq!(
        InvalidPayloadPointer { pointer: 200, remainder: 184 }.message(),
        "payload pointer [200] is too large for packet remainder [184]"
    );
    assert_eq!(NoPayload.message(), "no payload found in packet");
    assert_eq!(NoSyncByteFound.message(), "no sync byte found in reader");
    assert_eq!(
        PayloadIsNotStart.message(),
        "payload does not contain the start of a new partial payload"
    );
    assert_eq!(
        TruncatedPacket { needed: 203, available: 184 }.message(),
        "packet ends too early: [203] bytes are needed where [184] are left"
    );
}

#[test]
fn packet_error_says_what_its_cause_says() {
    assert_eq!(
        PacketError::InvalidFirstByte(InvalidFirstByte { byte: 1 }).message(),
        "invalid first byte for packet: [1]"
    );
    assert_eq!(
        PacketError::InvalidPayloadPointer(InvalidPayloadPointer { pointer: 9, remainder: 8 })
            .message(),
        "payload pointer [9] is too large for packet remainder [8]"
    );
    assert_eq!(
        PacketError::TruncatedPacket(TruncatedPacket { needed: 2, available: 1 }).message(),
        "packet ends too early: [2] bytes are needed where [1] are left"
    );
}

#[test]
fn tracking_from_a_packet_wants_a_payload() {
    // An adaptation field only: no payload.
    let mut bytes = vec![0x47, 0x00, 0x05, 0x20, 0];
    bytes.resize(188, 0xFF);
    let packet = TSPacket::from_bytes(&bytes).unwrap();
    assert_eq!(TrackedPayload::from_packet(&packet).unwrap_err(), NoPayload);
    // A payload that starts a unit is the first to be kept.
    let mut bytes = vec![0x47, 0x40, 0x05, 0x10, 0];
    bytes.resize(188, 0xFF);
    let packet = TSPacket::from_bytes(&bytes).unwrap();
    let tracker = TrackedPayload::from_packet(&packet).unwrap();
    assert_eq!(tracker.pid(), 5);
    assert_eq!(tracker.payloads().len(), 1);
    // One that starts none is not kept.
    let mut bytes = vec![0x47, 0x00, 0x05, 0x10, 0];
    bytes.resize(188, 0xFF);
    let packet = TSPacket::from_bytes(&bytes).unwrap();
    let tracker = TrackedPayload::from_packet(&packet).unwrap();
    assert_eq!(tracker.pid(), 5);
    assert_eq!(tracker.payloads().len(), 0);
}
