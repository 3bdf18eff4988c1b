use cryptotokenkit::{TlvEncoding, TlvRecord};

#[test]
fn ber_records_encode_tag_length_and_value() {
    let record = TlvRecord::ber(0x5A, &[0x01, 0x02]).expect("BER record");
    assert_eq!(record.encoding, TlvEncoding::Ber);
    assert_eq!(record.tag, 0x5A);
    assert_eq!(record.value, vec![0x01, 0x02]);
    assert_eq!(record.data, vec![0x5A, 0x02, 0x01, 0x02]);

    let two_byte_tag = TlvRecord::ber(0x5F2D, b"en").expect("BER record");
    assert_eq!(two_byte_tag.data, vec![0x5F, 0x2D, 0x02, b'e', b'n']);
}

#[test]
fn ber_lengths_switch_to_the_long_form_at_128() {
    let short = TlvRecord::ber(0x04, &[0; 127]).expect("BER record");
    assert_eq!(&short.data[..2], &[0x04, 0x7F]);
    assert_eq!(short.data.len(), 2 + 127);

    let long = TlvRecord::ber(0x04, &[0; 128]).expect("BER record");
    assert_eq!(&long.data[..3], &[0x04, 0x81, 0x80]);

    let longer = TlvRecord::ber(0x04, &[0; 0x1234]).expect("BER record");
    assert_eq!(&longer.data[..4], &[0x04, 0x82, 0x12, 0x34]);
    assert_eq!(longer.data.len(), 4 + 0x1234);
}

#[test]
fn ber_tag_data_is_the_shortest_big_endian_spelling() {
    assert_eq!(TlvRecord::ber_tag_data(0x01), Some(vec![0x01]));
    assert_eq!(TlvRecord::ber_tag_data(0x9F33), Some(vec![0x9F, 0x33]));
    assert_eq!(
        TlvRecord::ber_tag_data(u64::MAX),
        Some(vec![0xFF; 8])
    );
}

#[test]
fn simple_lengths_switch_to_three_bytes_at_255() {
    let short = TlvRecord::simple(0x10, &[0xCC; 254]).expect("SIMPLE record");
    assert_eq!(&short.data[..2], &[0x10, 0xFE]);

    let long = TlvRecord::simple(0x10, &[0xCC; 255]).expect("SIMPLE record");
    assert_eq!(&long.data[..4], &[0x10, 0xFF, 0x00, 0xFF]);
    assert_eq!(long.data.len(), 4 + 255);
    assert_eq!(
        TlvRecord::parse_with_encoding(TlvEncoding::Simple, &long.data),
        Some(long)
    );
}

#[test]
fn compact_records_pack_tag_and_length_in_one_byte() {
    let record = TlvRecord::compact(0x4, &[0xAA, 0xBB, 0xCC]).expect("COMPACT record");
    assert_eq!(record.data, vec![0x43, 0xAA, 0xBB, 0xCC]);
    assert_eq!(record.tag, 0x4);
}

#[test]
fn constructed_records_hold_the_children_bytes() {
    let child_one = TlvRecord::ber(0x5A, &[0x01]).expect("BER record");
    let child_two = TlvRecord::simple(0x20, &[0x02, 0x03]).expect("SIMPLE record");
    let parent = TlvRecord::ber_constructed(0x70, &[child_one.clone(), child_two.clone()])
        .expect("constructed record");
    assert_eq!(parent.value, [child_one.data, child_two.data].concat());
    assert_eq!(parent.data[0], 0x70);
    assert_eq!(parent.data[1] as usize, parent.value.len());
}

#[test]
fn constructed_records_rebuild_children_from_tag_and_value() {
    let mut stale = TlvRecord::compact(0x1, &[0xAA]).expect("COMPACT record");
    stale.data = vec![0xFF, 0xFF, 0xFF];
    let parent = TlvRecord::ber_constructed(0x70, &[stale]).expect("constructed record");
    assert_eq!(parent.value, vec![0x11, 0xAA]);
}

#[test]
fn records_round_trip_through_their_bytes() {
    for record in [
        TlvRecord::ber(0x5A, &[0x01, 0x02]).unwrap(),
        TlvRecord::ber(0x1F8101, &[0x10; 300]).unwrap(),
        TlvRecord::simple(0x01, &[0xCA, 0xFE]).unwrap(),
        TlvRecord::simple(0x7E, &[0x55; 1000]).unwrap(),
        TlvRecord::compact(0x0, &[]).unwrap(),
        TlvRecord::compact(0xF, &[0x01; 15]).unwrap(),
    ] {
        assert_eq!(
            TlvRecord::parse_with_encoding(record.encoding, &record.data),
            Some(record.clone())
        );
        let mut with_more = record.data.clone();
        with_more.extend_from_slice(&record.data);
        assert_eq!(
            TlvRecord::parse_sequence_with_encoding(record.encoding, &with_more),
            Some(vec![record.clone(), record.clone()])
        );
    }
}

#[test]
fn simple_records_with_reserved_tags_do_not_read_back() {
    let reserved = TlvRecord::simple(0x00, &[0x01]).expect("SIMPLE record");
    assert_eq!(
        TlvRecord::parse_with_encoding(TlvEncoding::Simple, &reserved.data),
        None
    );
}

#[test]
fn parse_tries_ber_then_simple_then_compact() {
    let ber = TlvRecord::parse(&[0x5A, 0x01, 0x07]).expect("a record");
    assert_eq!(ber.encoding, TlvEncoding::Ber);

    let simple = TlvRecord::parse(&[0x1F, 0x02, 0xAA, 0xBB]).expect("a record");
    assert_eq!(simple.encoding, TlvEncoding::Simple);
    assert_eq!(simple.tag, 0x1F);

    let compact = TlvRecord::parse(&[0x00]).expect("a record");
    assert_eq!(compact.encoding, TlvEncoding::Compact);
    assert_eq!(compact.tag, 0);
    assert!(compact.value.is_empty());
}

#[test]
fn empty_sequences_parse_to_no_records() {
    assert_eq!(TlvRecord::parse_sequence(&[]), Some(Vec::new()));
    assert_eq!(
        TlvRecord::parse_sequence_with_encoding(TlvEncoding::Compact, &[]),
        Some(Vec::new())
    );
}

#[test]
fn parsed_records_are_rebuilt_in_the_shortest_form() {
    let record = TlvRecord::parse_with_encoding(TlvEncoding::Ber, &[0x5A, 0x81, 0x01, 0x07])
        .expect("long form of a short length");
    assert_eq!(record.value, vec![0x07]);
    assert_eq!(record.data, vec![0x5A, 0x01, 0x07]);
}

#[test]
fn a_failing_step_gives_no_partial_sequence() {
    assert_eq!(
        TlvRecord::parse_sequence_with_encoding(TlvEncoding::Ber, &[0x5A, 0x00]).map(|rs| rs.len()),
        Some(1)
    );
    assert_eq!(
        TlvRecord::parse_sequence_with_encoding(TlvEncoding::Ber, &[0x5A, 0x00, 0x00, 0x00]),
        None
    );
    let records =
        TlvRecord::parse_sequence_with_encoding(TlvEncoding::Simple, &[0x01, 0x01, 0xAA, 0x02, 0x00])
            .expect("two SIMPLE records");
    assert_eq!(records.len(), 2);
    assert!(records.iter().all(|r| r.encoding == TlvEncoding::Simple));
    assert_eq!(records[0].value, vec![0xAA]);
    assert_eq!(records[1].tag, 0x02);
}
