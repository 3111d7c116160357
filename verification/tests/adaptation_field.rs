use ts_analyzer::errors::truncated_packet::TruncatedPacket;
use ts_analyzer::packet::adaptation_field::{
    AdaptationField, DataAdaptationField, StuffingAdaptationField, PCR_SIZE, SPLICE_COUNTDOWN_SIZE,
    STUFFING_ADAPTATION_FIELD_LENGTH, TRANSPORT_PRIVATE_DATA_LENGTH_LENGTH,
};

/// The six bytes of a clock reference.
fn clock_bytes(base: u64, reserved: u64, extension: u64) -> Vec<u8> {
    let word = (base << 14) | (reserved << 9) | extension;
    word.to_be_bytes()[2..].to_vec()
}

/// An adaptation field with a clock reference and nothing else.
fn field_with_pcr(base: u64, reserved: u64, extension: u64) -> Vec<u8> {
    let mut bytes = vec![7, 0x10];
    bytes.extend(clock_bytes(base, reserved, extension));
    bytes
}

#[test]
fn layout_constants() {
    assert_eq!(PCR_SIZE, 6);
    assert_eq!(SPLICE_COUNTDOWN_SIZE, 1);
    assert_eq!(TRANSPORT_PRIVATE_DATA_LENGTH_LENGTH, 1);
    assert_eq!(STUFFING_ADAPTATION_FIELD_LENGTH, 1);
}

#[test]
fn stuffing_field_is_one_byte() {
    let field = StuffingAdaptationField::new();
    assert_eq!(field.adaptation_field_length(), 1);
}

#[test]
fn clock_reference_is_base_times_300_plus_extension() {
    let bases = [0u64, 1, 2, 0x1234_5678, 0x1_FFFF_FFFF, 0x2_0000_0000, 0x3_FFFF_FFFF];
    let extensions = [0u64, 1, 255, 256, 299, 511];
    for base in bases {
        for extension in extensions {
            for reserved in [0u64, 21, 31] {
                let field =
                    DataAdaptationField::from_bytes(&field_with_pcr(base, reserved, extension))
                        .unwrap();
                assert_eq!(field.pcr(), Some(base * 300 + extension));
                assert_eq!(field.opcr(), None);
            }
        }
    }
}

#[test]
fn clock_reference_exact_values() {
    // Base 1, extension 0: the last bit of the base is bit 33.
    let field = DataAdaptationField::from_bytes(&[7, 0x10, 0, 0, 0, 0, 0x40, 0]).unwrap();
    assert_eq!(field.pcr(), Some(300));
    // Extension 1 alone.
    let field = DataAdaptationField::from_bytes(&[7, 0x10, 0, 0, 0, 0, 0, 1]).unwrap();
    assert_eq!(field.pcr(), Some(1));
    // The reserved bits count for nothing.
    let field = DataAdaptationField::from_bytes(&[7, 0x10, 0, 0, 0, 0, 0x3E, 0]).unwrap();
    assert_eq!(field.pcr(), Some(0));
    // Every bit set: base 2^34 - 1, extension 511.
    let field =
        DataAdaptationField::from_bytes(&[7, 0x10, 0xFF, 0xFF, 0xFF, 0xFF, 0xFF, 0xFF]).unwrap();
    assert_eq!(field.pcr(), Some(17_179_869_183 * 300 + 511));
    assert_eq!(field.pcr(), Some(5_153_960_755_411));
}

#[test]
fn read_pcr_data_moves_behind_what_it_read() {
    let mut bytes = vec![0xEE, 0xEE];
    bytes.extend(clock_bytes(5, 0, 7));
    bytes.push(0xEE);
    let mut read_idx = 2;
    assert_eq!(DataAdaptationField::read_pcr_data(true, &bytes, &mut read_idx), Some(1507));
    assert_eq!(read_idx, 8);
    let mut read_idx = 2;
    assert_eq!(DataAdaptationField::read_pcr_data(false, &bytes, &mut read_idx), None);
    assert_eq!(read_idx, 2);
}

#[test]
fn flags_are_the_bits_of_the_second_byte() {
    let expected = [
        (0x80u8, [true, false, false, false, false, false, false, false]),
        (0x40u8, [false, true, false, false, false, false, false, false]),
        (0x20u8, [false, false, true, false, false, false, false, false]),
        (0x01u8, [false, false, false, false, false, false, false, true]),
        (0xE1u8, [true, true, true, false, false, false, false, true]),
        (0x00u8, [false; 8]),
    ];
    for (flags, set) in expected {
        let field = DataAdaptationField::from_bytes(&[1, flags]).unwrap();
        assert_eq!(field.adaptation_field_length(), 1);
        assert_eq!(field.discontinuity_indicator(), set[0]);
        assert_eq!(field.random_access_indicator(), set[1]);
        assert_eq!(field.elementary_stream_priority_indicator(), set[2]);
        assert_eq!(field.pcr_flag(), set[3]);
        assert_eq!(field.opcr_flag(), set[4]);
        assert_eq!(field.splicing_point_flag(), set[5]);
        assert_eq!(field.transport_private_data_flag(), set[6]);
        assert_eq!(field.adaptation_extension_field_flag(), set[7]);
        assert_eq!(field.pcr(), None);
        assert_eq!(field.opcr(), None);
        assert_eq!(field.splice_countdown(), None);
        assert_eq!(field.transport_private_data_length(), None);
        assert_eq!(field.transport_private_data(), &None);
    }
}

#[test]
fn every_part_in_its_order() {
    let mut bytes = vec![19, 0xFF];
    bytes.extend(clock_bytes(1000, 0x1F, 11));
    bytes.extend(clock_bytes(2000, 0, 22));
    bytes.push(0xFE);
    bytes.extend([3, 0xA1, 0xA2, 0xA3]);
    bytes.extend([0xFF, 0xFF]);
    let field = DataAdaptationField::from_bytes(&bytes).unwrap();
    assert_eq!(field.adaptation_field_length(), 19);
    assert!(field.pcr_flag());
    assert!(field.opcr_flag());
    assert!(field.splicing_point_flag());
    assert!(field.transport_private_data_flag());
    assert!(field.adaptation_extension_field_flag());
    assert_eq!(field.pcr(), Some(300_011));
    assert_eq!(field.opcr(), Some(600_022));
    assert_eq!(field.splice_countdown(), Some(-2));
    assert_eq!(field.transport_private_data_length(), Some(3));
    assert_eq!(field.transport_private_data(), &Some(vec![0xA1, 0xA2, 0xA3]));
    assert!(field.within_declared_length());
}

#[test]
fn parts_move_up_where_one_is_missing() {
    // No PCR: the OPCR stands where the PCR would.
    let mut bytes = vec![8, 0x0C];
    bytes.extend(clock_bytes(3, 0, 4));
    bytes.push(0x05);
    let field = DataAdaptationField::from_bytes(&bytes).unwrap();
    assert_eq!(field.pcr(), None);
    assert_eq!(field.opcr(), Some(904));
    assert_eq!(field.splice_countdown(), Some(5));
    // Private data alone, and empty.
    let field = DataAdaptationField::from_bytes(&[2, 0x02, 0]).unwrap();
    assert_eq!(field.transport_private_data_length(), Some(0));
    assert_eq!(field.transport_private_data(), &Some(Vec::new()));
}

#[test]
fn splice_countdown_is_signed() {
    for (byte, value) in [(0x00u8, 0i8), (0x01, 1), (0x7F, 127), (0x80, -128), (0xFF, -1)] {
        let field = DataAdaptationField::from_bytes(&[2, 0x04, byte]).unwrap();
        assert_eq!(field.splice_countdown(), Some(value));
    }
}

#[test]
fn field_that_ends_too_early_is_refused() {
    // Not even the flags.
    assert_eq!(
        DataAdaptationField::from_bytes(&[]).unwrap_err(),
        TruncatedPacket { needed: 2, available: 0 }
    );
    assert_eq!(
        DataAdaptationField::from_bytes(&[5]).unwrap_err(),
        TruncatedPacket { needed: 2, available: 1 }
    );
    // A clock reference is announced, and four of its six bytes are there.
    assert_eq!(
        DataAdaptationField::from_bytes(&[7, 0x10, 1, 2, 3, 4]).unwrap_err(),
        TruncatedPacket { needed: 8, available: 6 }
    );
    // Both clock references and a countdown: 15 bytes.
    assert_eq!(
        DataAdaptationField::from_bytes(&[14, 0x1C, 0, 0, 0, 0, 0, 0, 0, 0, 0, 0, 0, 0])
            .unwrap_err(),
        TruncatedPacket { needed: 15, available: 14 }
    );
    // The length of the private data is missing.
    assert_eq!(
        DataAdaptationField::from_bytes(&[1, 0x02]).unwrap_err(),
        TruncatedPacket { needed: 3, available: 2 }
    );
    // Private data of 4 bytes are announced, and 3 are there.
    assert_eq!(
        DataAdaptationField::from_bytes(&[5, 0x02, 4, 1, 2, 3]).unwrap_err(),
        TruncatedPacket { needed: 7, available: 6 }
    );
    // With one byte more it is whole.
    assert!(DataAdaptationField::from_bytes(&[5, 0x02, 4, 1, 2, 3, 4]).is_ok());
}

#[test]
fn declared_length_can_be_checked_against_the_parts() {
    // A clock reference takes 8 bytes with length byte and flags.
    let within = DataAdaptationField::from_bytes(&field_with_pcr(1, 0, 1)).unwrap();
    assert_eq!(within.adaptation_field_length(), 7);
    assert!(within.within_declared_length());
    // More declared than the parts take: the rest is stuffing.
    let mut bytes = field_with_pcr(1, 0, 1);
    bytes[0] = 100;
    assert!(DataAdaptationField::from_bytes(&bytes).unwrap().within_declared_length());
    // Less declared than the parts take: decoded all the same, and told.
    let mut bytes = field_with_pcr(1, 0, 1);
    bytes[0] = 6;
    let short = DataAdaptationField::from_bytes(&bytes).unwrap();
    assert_eq!(short.pcr(), Some(301));
    assert!(!short.within_declared_length());
    // Flags alone fit a length of 1.
    assert!(DataAdaptationField::from_bytes(&[1, 0]).unwrap().within_declared_length());
    // Private data count with their length byte.
    assert!(DataAdaptationField::from_bytes(&[4, 0x02, 2, 9, 9]).unwrap().within_declared_length());
    assert!(!DataAdaptationField::from_bytes(&[3, 0x02, 2, 9, 9]).unwrap().within_declared_length());
}

#[test]
fn new_keeps_what_it_is_given() {
    let field = DataAdaptationField::new(
        42,
        true,
        false,
        true,
        false,
        true,
        false,
        true,
        false,
        Some(1),
        None,
        Some(-3),
        Some(2),
        Some(vec![5, 6]),
    );
    assert_eq!(field.adaptation_field_length(), 42);
    assert!(field.discontinuity_indicator());
    assert!(!field.random_access_indicator());
    assert!(field.elementary_stream_priority_indicator());
    assert!(!field.pcr_flag());
    assert!(field.opcr_flag());
    assert!(!field.splicing_point_flag());
    assert!(field.transport_private_data_flag());
    assert!(!field.adaptation_extension_field_flag());
    assert_eq!(field.pcr(), Some(1));
    assert_eq!(field.opcr(), None);
    assert_eq!(field.splice_countdown(), Some(-3));
    assert_eq!(field.transport_private_data_length(), Some(2));
    assert_eq!(field.transport_private_data(), &Some(vec![5, 6]));
    let copy = field.clone();
    assert_eq!(copy.transport_private_data(), &Some(vec![5, 6]));
    assert_eq!(copy.splice_countdown(), Some(-3));
}

#[test]
fn length_byte_of_zero_is_stuffing() {
    let field = AdaptationField::from_bytes(&[0, 0xFF, 0xFF]).unwrap();
    assert!(matches!(field, AdaptationField::Stuffing(_)));
    assert_eq!(field.size(), 1);
    let field = AdaptationField::from_bytes(&[0]).unwrap();
    assert!(matches!(field, AdaptationField::Stuffing(_)));
}

#[test]
fn length_byte_above_zero_is_data() {
    let field = AdaptationField::from_bytes(&[3, 0x40, 0xFF, 0xFF]).unwrap();
    assert_eq!(field.size(), 4);
    match field {
        AdaptationField::Data(data) => {
            assert_eq!(data.adaptation_field_length(), 3);
            assert!(data.random_access_indicator());
        }
        AdaptationField::Stuffing(_) => panic!("a field with data was decoded as stuffing"),
    }
    let field = AdaptationField::from_bytes(&[255, 0]).unwrap();
    assert_eq!(field.size(), 256);
}

#[test]
fn field_without_a_byte_is_refused() {
    assert_eq!(
        AdaptationField::from_bytes(&[]).unwrap_err(),
        TruncatedPacket { needed: 1, available: 0 }
    );
    assert_eq!(
        AdaptationField::from_bytes(&[9]).unwrap_err(),
        TruncatedPacket { needed: 2, available: 1 }
    );
    assert_eq!(
        AdaptationField::from_bytes(&[9, 0x08, 1]).unwrap_err(),
        TruncatedPacket { needed: 8, available: 3 }
    );
}
