use ts_analyzer::errors::invalid_first_byte::InvalidFirstByte;
use ts_analyzer::errors::no_sync_byte_found::NoSyncByteFound;
use ts_analyzer::errors::PacketError;
use ts_analyzer::reader::{find_alignment, TSReader};

/// A packet with a payload only. The payload is `payload`, filled up with
/// bytes of value 0xFF.
fn packet(pid: u16, pusi: bool, counter: u8, payload: &[u8]) -> Vec<u8> {
    let mut bytes = vec![
        0x47,
        (if pusi { 0x40 } else { 0x00 }) | (pid >> 8) as u8,
        (pid & 0xFF) as u8,
        0x10 | counter,
    ];
    bytes.extend_from_slice(payload);
    assert!(bytes.len() <= 188);
    bytes.resize(188, 0xFF);
    bytes
}

/// The packets one after the other, behind `prefix`.
fn stream(prefix: &[u8], packets: &[Vec<u8>]) -> Vec<u8> {
    let mut bytes = prefix.to_vec();
    for packet in packets {
        bytes.extend_from_slice(packet);
    }
    bytes
}

#[test]
fn alignment_is_the_offset_of_the_first_confirmed_sync_byte() {
    let packets = [packet(1, false, 0, &[]), packet(2, false, 0, &[]), packet(3, false, 0, &[])];
    for k in [0usize, 1, 2, 5, 187, 188, 189, 400] {
        let reader = TSReader::new("test", stream(&vec![0x00; k], &packets)).unwrap();
        assert_eq!(reader.sync_byte_alignment(), k as u64);
        assert_eq!(reader.packets_read(), 0);
    }
}

#[test]
fn sync_byte_without_a_second_one_is_passed_by() {
    // A sync byte at offset 2 has no sync byte 188 bytes later.
    let mut prefix = vec![0x00; 10];
    prefix[2] = 0x47;
    let packets = [packet(1, false, 0, &[]), packet(2, false, 0, &[])];
    let reader = TSReader::new("test", stream(&prefix, &packets)).unwrap();
    assert_eq!(reader.sync_byte_alignment(), 10);
    // Two sync bytes in a row: the search goes on with the very next byte.
    let mut prefix = vec![0x00; 10];
    prefix[8] = 0x47;
    prefix[9] = 0x47;
    let reader = TSReader::new("test", stream(&prefix, &packets)).unwrap();
    assert_eq!(reader.sync_byte_alignment(), 10);
}

#[test]
fn coincidence_is_taken_for_alignment() {
    // Two bytes of the sync value a packet length apart are believed,
    // whatever they are part of.
    let mut prefix = vec![0x00; 200];
    prefix[3] = 0x47;
    prefix[191] = 0x47;
    let packets = [packet(1, false, 0, &[]), packet(2, false, 0, &[])];
    let reader = TSReader::new("test", stream(&prefix, &packets)).unwrap();
    assert_eq!(reader.sync_byte_alignment(), 3);
}

#[test]
fn source_without_confirmed_sync_byte_is_refused() {
    assert_eq!(TSReader::new("test", Vec::new()).err(), Some(NoSyncByteFound));
    assert_eq!(TSReader::new("test", vec![0x00; 1000]).err(), Some(NoSyncByteFound));
    assert_eq!(TSReader::new("test", vec![0x47]).err(), Some(NoSyncByteFound));
    // Sync bytes, but no two of them a packet length apart.
    let mut bytes = vec![0x00; 1000];
    bytes[0] = 0x47;
    bytes[187] = 0x47;
    bytes[189] = 0x47;
    bytes[500] = 0x47;
    assert_eq!(TSReader::new("test", bytes).err(), Some(NoSyncByteFound));
    // One packet alone: nothing confirms its sync byte.
    assert_eq!(TSReader::new("test", packet(1, false, 0, &[])).err(), Some(NoSyncByteFound));
    // One byte more, and it is a sync byte.
    let mut bytes = packet(1, false, 0, &[]);
    bytes.push(0x47);
    assert_eq!(TSReader::new("test", bytes).unwrap().sync_byte_alignment(), 0);
}

#[test]
fn filename_is_kept() {
    let packets = [packet(1, false, 0, &[]), packet(2, false, 0, &[])];
    let reader = TSReader::new("stream.ts", stream(&[], &packets)).unwrap();
    assert_eq!(reader.filename(), "stream.ts");
}

#[test]
fn packets_come_in_order() {
    let packets = [
        packet(10, false, 0, &[1]),
        packet(20, true, 1, &[0, 2]),
        packet(30, false, 2, &[3]),
    ];
    let mut reader = TSReader::new("test", stream(&[0x00; 7], &packets)).unwrap();
    let first = reader.next_packet().unwrap().unwrap();
    assert_eq!(first.header().pid(), 10);
    assert_eq!(first.payload().unwrap().data()[0], 1);
    assert_eq!(reader.packets_read(), 1);
    let second = reader.next_packet().unwrap().unwrap();
    assert_eq!(second.header().pid(), 20);
    assert_eq!(second.payload().unwrap().start_index(), Some(0));
    assert_eq!(second.payload().unwrap().data()[0], 2);
    assert_eq!(reader.packets_read(), 2);
    let third = reader.next_packet().unwrap().unwrap();
    assert_eq!(third.header().pid(), 30);
    assert_eq!(third.header().continuity_counter(), 2);
    assert_eq!(reader.packets_read(), 3);
    assert!(reader.next_packet().unwrap().is_none());
    assert_eq!(reader.packets_read(), 3);
    assert_eq!(reader.sync_byte_alignment(), 7);
}

#[test]
fn only_tracked_pids_are_handed_out() {
    let packets = [packet(257, false, 0, &[]), packet(0, false, 0, &[])];
    let mut reader = TSReader::new("test", stream(&[], &packets)).unwrap();
    reader.add_tracked_pid(257);
    assert_eq!(reader.next_packet().unwrap().unwrap().header().pid(), 257);
    assert!(reader.next_packet().unwrap().is_none());
    // The packet that was passed over counts as read.
    assert_eq!(reader.packets_read(), 2);

    // The other way round, the first packet is passed over.
    let packets = [packet(0, false, 0, &[]), packet(257, false, 0, &[])];
    let mut reader = TSReader::new("test", stream(&[], &packets)).unwrap();
    reader.add_tracked_pid(257);
    assert_eq!(reader.next_packet().unwrap().unwrap().header().pid(), 257);
    assert_eq!(reader.packets_read(), 2);
    assert!(reader.next_packet().unwrap().is_none());
}

#[test]
fn every_pid_is_handed_out_where_none_is_tracked() {
    let packets = [packet(257, false, 0, &[]), packet(0, false, 0, &[])];
    let mut reader = TSReader::new("test", stream(&[], &packets)).unwrap();
    assert_eq!(reader.next_packet().unwrap().unwrap().header().pid(), 257);
    assert_eq!(reader.next_packet().unwrap().unwrap().header().pid(), 0);
    assert!(reader.next_packet().unwrap().is_none());
}

#[test]
fn tracked_pids_can_be_taken_back() {
    let packets = [
        packet(1, false, 0, &[]),
        packet(2, false, 0, &[]),
        packet(3, false, 0, &[]),
        packet(1, false, 1, &[]),
        packet(2, false, 1, &[]),
    ];
    let mut reader = TSReader::new("test", stream(&[], &packets)).unwrap();
    reader.add_tracked_pid(2);
    reader.add_tracked_pid(3);
    reader.add_tracked_pid(2);
    assert!(reader.is_tracked(2));
    assert!(reader.is_tracked(3));
    assert!(!reader.is_tracked(1));
    assert_eq!(reader.next_packet().unwrap().unwrap().header().pid(), 2);
    // Every occurrence goes.
    reader.remove_tracked_pid(2);
    assert!(!reader.is_tracked(2));
    assert!(reader.is_tracked(3));
    assert_eq!(reader.next_packet().unwrap().unwrap().header().pid(), 3);
    // With the last one gone, every packet is handed out again.
    reader.remove_tracked_pid(3);
    assert!(reader.is_tracked(1));
    assert!(reader.is_tracked(2));
    assert_eq!(reader.next_packet().unwrap().unwrap().header().pid(), 1);
    assert_eq!(reader.next_packet().unwrap().unwrap().header().pid(), 2);
    assert!(reader.next_packet().unwrap().is_none());
    // Taking back what was never asked for changes nothing.
    reader.add_tracked_pid(9);
    reader.remove_tracked_pid(8);
    assert!(reader.is_tracked(9));
    assert!(!reader.is_tracked(8));
}

#[test]
fn end_of_stream_stays() {
    let packets = [packet(1, false, 0, &[]), packet(2, false, 0, &[])];
    let mut bytes = stream(&[0x00; 3], &packets);
    // Part of a packet at the end is no packet.
    bytes.extend_from_slice(&packet(3, false, 0, &[])[0..100]);
    let mut reader = TSReader::new("test", bytes).unwrap();
    assert!(reader.next_packet().unwrap().is_some());
    assert!(reader.next_packet().unwrap().is_some());
    for _ in 0..10 {
        assert!(reader.next_packet().unwrap().is_none());
        assert!(reader.next_packet_unchecked().is_none());
        assert_eq!(reader.next_payload().unwrap(), None);
        assert_eq!(reader.next_payload_unchecked(), None);
        assert_eq!(reader.packets_read(), 2);
    }
}

#[test]
fn packet_that_cannot_be_decoded_ends_the_call() {
    let mut broken = packet(2, false, 0, &[]);
    broken[0] = 0x48;
    let packets =
        [packet(1, false, 0, &[]), packet(1, false, 1, &[]), broken, packet(3, false, 0, &[])];
    let mut reader = TSReader::new("test", stream(&[], &packets)).unwrap();
    assert!(reader.next_packet().unwrap().is_some());
    assert!(reader.next_packet().unwrap().is_some());
    assert_eq!(
        reader.next_packet().unwrap_err(),
        PacketError::InvalidFirstByte(InvalidFirstByte { byte: 0x48 })
    );
    // The packet counts as read, and the reader goes on behind it.
    assert_eq!(reader.packets_read(), 3);
    assert_eq!(reader.next_packet().unwrap().unwrap().header().pid(), 3);
    assert!(reader.next_packet().unwrap().is_none());
}

#[test]
fn unchecked_calls_hand_out_nothing_on_errors() {
    let mut broken = packet(2, true, 0, &[0]);
    broken[0] = 0x00;
    let packets = [packet(1, false, 0, &[]), packet(1, false, 1, &[]), broken.clone()];
    let mut reader = TSReader::new("test", stream(&[], &packets)).unwrap();
    assert_eq!(reader.next_packet_unchecked().unwrap().header().pid(), 1);
    assert_eq!(reader.next_packet_unchecked().unwrap().header().continuity_counter(), 1);
    assert!(reader.next_packet_unchecked().is_none());
    assert_eq!(reader.packets_read(), 3);

    let mut reader = TSReader::new("test", stream(&[], &packets)).unwrap();
    assert_eq!(reader.next_payload_unchecked(), None);
    assert_eq!(reader.packets_read(), 3);
    let mut reader = TSReader::new("test", stream(&[], &packets)).unwrap();
    assert_eq!(
        reader.next_payload().unwrap_err(),
        PacketError::InvalidFirstByte(InvalidFirstByte { byte: 0x00 })
    );
}

#[test]
fn payload_units_are_put_together() {
    let mut first = vec![0u8];
    first.extend([0xA0; 183]);
    let middle = [0xB0; 184];
    let mut last = vec![3u8, 0xC0, 0xC1, 0xC2];
    last.extend([0xD0; 180]);
    let packets = [
        packet(256, true, 0, &first),
        packet(256, false, 1, &middle),
        packet(256, true, 2, &last),
        packet(256, false, 3, &[0xD1; 184]),
    ];
    let mut reader = TSReader::new("test", stream(&[], &packets)).unwrap();
    let mut expected = vec![0xA0; 183];
    expected.extend([0xB0; 184]);
    expected.extend([0xC0, 0xC1, 0xC2]);
    assert_eq!(reader.next_payload().unwrap(), Some(expected));
    assert_eq!(reader.packets_read(), 3);
    // The unit that began in the third packet never ends.
    assert_eq!(reader.next_payload().unwrap(), None);
    assert_eq!(reader.packets_read(), 4);
}

#[test]
fn payload_units_of_several_pids_are_kept_apart() {
    let packets = [
        packet(1, false, 5, &[0xEE, 0xEE]),
        packet(1, true, 6, &[0, 0x11]),
        packet(2, true, 0, &[0, 0x21]),
        packet(1, false, 7, &[0x12]),
        packet(2, true, 1, &[2, 0x22, 0x23, 0x24]),
        packet(1, true, 8, &[1, 0x13, 0x14]),
        packet(3, false, 0, &[]),
    ];
    let mut reader = TSReader::new("test", stream(&[0x00; 50], &packets)).unwrap();
    let mut unit_of_2 = vec![0x21];
    unit_of_2.extend([0xFF; 182]);
    unit_of_2.extend([0x22, 0x23]);
    assert_eq!(reader.next_payload().unwrap(), Some(unit_of_2));
    assert_eq!(reader.packets_read(), 5);
    let mut unit_of_1 = vec![0x11];
    unit_of_1.extend([0xFF; 182]);
    unit_of_1.push(0x12);
    unit_of_1.extend([0xFF; 183]);
    unit_of_1.push(0x13);
    assert_eq!(reader.next_payload().unwrap(), Some(unit_of_1));
    assert_eq!(reader.packets_read(), 6);
    assert_eq!(reader.next_payload().unwrap(), None);
    assert_eq!(reader.packets_read(), 7);
}

#[test]
fn payloads_of_pids_that_are_not_tracked_are_left_out() {
    let packets = [
        packet(1, true, 0, &[0, 0x11]),
        packet(2, true, 0, &[0, 0x21]),
        packet(1, true, 1, &[1, 0x12]),
        packet(2, true, 1, &[1, 0x22]),
    ];
    let mut reader = TSReader::new("test", stream(&[], &packets)).unwrap();
    reader.add_tracked_pid(2);
    let mut unit = vec![0x21];
    unit.extend([0xFF; 182]);
    unit.push(0x22);
    assert_eq!(reader.next_payload().unwrap(), Some(unit));
    assert_eq!(reader.packets_read(), 4);
    assert_eq!(reader.next_payload().unwrap(), None);
}

#[test]
fn add_tracked_payload_takes_packets_one_by_one() {
    let packets = [
        packet(7, true, 0, &[0, 1, 2]),
        packet(7, true, 1, &[2, 3, 4, 5]),
        packet(8, false, 0, &[9]),
    ];
    let mut feeder = TSReader::new("packets", stream(&[], &packets)).unwrap();
    let first = feeder.next_packet().unwrap().unwrap();
    let second = feeder.next_packet().unwrap().unwrap();
    let third = feeder.next_packet().unwrap().unwrap();

    let mut reader = TSReader::new("test", stream(&[], &packets)).unwrap();
    // A payload that starts no unit, with none under way, is dropped.
    assert_eq!(reader.add_tracked_payload(&third), None);
    assert_eq!(reader.add_tracked_payload(&first), None);
    let mut unit = vec![1, 2];
    unit.extend([0xFF; 181]);
    unit.extend([3, 4]);
    assert_eq!(reader.add_tracked_payload(&second), Some(unit));
    assert_eq!(reader.packets_read(), 0);
}

#[test]
fn alignment_can_be_looked_for_without_a_reader() {
    let packets = [packet(1, false, 0, &[]), packet(2, false, 0, &[])];
    assert_eq!(find_alignment(&stream(&[0x00; 9], &packets)), Some(9));
    assert_eq!(find_alignment(&stream(&[], &packets)), Some(0));
    assert_eq!(find_alignment(&packets[0]), None);
    assert_eq!(find_alignment(&[]), None);
    assert_eq!(find_alignment(&[0x47; 188]), None);
    assert_eq!(find_alignment(&[0x47; 189]), Some(0));
    // What is found in the begin of a source is found in all of it.
    let source = stream(&[0x00; 9], &packets);
    assert_eq!(find_alignment(&source[0..197]), None);
    assert_eq!(find_alignment(&source[0..198]), Some(9));
}

/// The packet identifiers of the packets that `reader` hands out.
fn pids_of(reader: &mut TSReader) -> Vec<u16> {
    let mut pids = Vec::new();
    while let Some(packet) = reader.next_packet().unwrap() {
        pids.push(packet.header().pid());
    }
    pids
}

#[test]
fn stream_in_pieces_gives_the_same_packets() {
    let packets = [
        packet(1, false, 0, &[]),
        packet(2, false, 0, &[]),
        packet(3, false, 0, &[]),
        packet(2, false, 1, &[]),
        packet(5, false, 0, &[]),
        packet(2, false, 2, &[]),
    ];
    let source = stream(&[0x00; 11], &packets);
    for asked_for in [vec![], vec![2u16], vec![3, 5]] {
        let mut at_once = TSReader::new("test", source.clone()).unwrap();
        for pid in &asked_for {
            at_once.add_tracked_pid(*pid);
        }
        let expected = pids_of(&mut at_once);
        for piece in [1usize, 50, 188, 189, 400] {
            // The first piece must reach to the second sync byte.
            let mut reader = TSReader::new("test", source[0..200].to_vec()).unwrap();
            for pid in &asked_for {
                reader.add_tracked_pid(*pid);
            }
            assert_eq!(reader.sync_byte_alignment(), 11);
            let mut pids = pids_of(&mut reader);
            let mut given = 200;
            while given < source.len() {
                let end = usize::min(given + piece, source.len());
                reader.push_bytes(&source[given..end]);
                given = end;
                pids.extend(pids_of(&mut reader));
            }
            assert_eq!(pids, expected);
            assert_eq!(reader.packets_read(), 6);
            assert_eq!(reader.sync_byte_alignment(), 11);
        }
    }
}

#[test]
fn bytes_that_were_read_can_be_given_up() {
    let packets = [
        packet(1, true, 0, &[0, 0x11]),
        packet(1, false, 1, &[0x12]),
        packet(1, true, 2, &[1, 0x13, 0x14]),
        packet(1, true, 3, &[0, 0x15]),
    ];
    let source = stream(&[0x00; 5], &packets);
    let mut reader = TSReader::new("test", source[0..300].to_vec()).unwrap();
    assert_eq!(reader.held(), 300);
    // Nothing is read yet but what comes before the first packet.
    reader.release();
    assert_eq!(reader.held(), 295);
    assert_eq!(reader.next_payload().unwrap(), None);
    assert_eq!(reader.packets_read(), 1);
    reader.release();
    assert_eq!(reader.held(), 107);
    reader.release();
    assert_eq!(reader.held(), 107);
    reader.push_bytes(&source[300..600]);
    assert_eq!(reader.held(), 407);
    let mut unit = vec![0x11];
    unit.extend([0xFF; 182]);
    unit.push(0x12);
    unit.extend([0xFF; 183]);
    unit.push(0x13);
    assert_eq!(reader.next_payload().unwrap(), Some(unit));
    assert_eq!(reader.packets_read(), 3);
    reader.release();
    assert_eq!(reader.held(), 31);
    reader.push_bytes(&source[600..]);
    let mut unit = vec![0x14];
    unit.extend([0xFF; 181]);
    assert_eq!(reader.next_payload().unwrap(), Some(unit));
    assert_eq!(reader.next_payload().unwrap(), None);
    assert_eq!(reader.packets_read(), 4);
    reader.release();
    assert_eq!(reader.held(), 0);
    assert_eq!(reader.sync_byte_alignment(), 5);
}
