use zkattend::codec::{calc_checksum, encode_frame, encode_packet, parse_frame_header, parse_leading_frame, parse_packet, verify_checksum};
use zkattend::error::ZkError;

#[test]
fn checksum_of_connect_packet() {
    let p = [0xE8u8, 0x03, 0x00, 0x00, 0x00, 0x00, 0xFE, 0xFF];
    assert_eq!(calc_checksum(&p), 0xFC17);
}

#[test]
fn checksum_of_empty_buffer() {
    assert_eq!(calc_checksum(&[]), 65534);
}

#[test]
fn checksum_adds_trailing_odd_byte() {
    assert_eq!(calc_checksum(&[0x01]), 65533);
}

#[test]
fn checksum_of_all_ones_word() {
    assert_eq!(calc_checksum(&[0xFF, 0xFF]), 65534);
}

#[test]
fn encoded_packet_carries_its_checksum() {
    let p = encode_packet(1000, 0, 65535, &[]);
    assert_eq!(p, vec![0xE8, 0x03, 0x16, 0xFC, 0x00, 0x00, 0xFF, 0xFF]);
    assert!(verify_checksum(&p));
}

#[test]
fn encoded_packet_with_payload_is_accepted() {
    let p = encode_packet(11, 0x1234, 7, b"~DeviceName\0");
    assert_eq!(p.len(), 8 + 12);
    assert_eq!(&p[8..], b"~DeviceName\0");
    assert!(verify_checksum(&p));
}

#[test]
fn corrupted_packet_is_rejected() {
    let mut p = encode_packet(1000, 0, 1, &[1, 2, 3]);
    p[9] ^= 0x01;
    assert!(!verify_checksum(&p));
    assert!(!verify_checksum(&p[..7]));
}

#[test]
fn frame_header_round_trip() {
    let packet = encode_packet(2000, 5, 6, &[9, 9, 9]);
    let frame = encode_frame(&packet);
    assert_eq!(&frame[..4], &[0x50, 0x50, 0x82, 0x7D]);
    assert_eq!(parse_frame_header(&frame[..8]), Ok(11));
    assert_eq!(&frame[8..], &packet[..]);
}

#[test]
fn frame_header_with_bad_magic_is_refused() {
    let h = [0x50u8, 0x50, 0x82, 0x72, 8, 0, 0, 0];
    assert_eq!(parse_frame_header(&h), Err(ZkError::BadMagic));
}

#[test]
fn short_packet_is_refused() {
    assert!(matches!(parse_packet(&[1, 2, 3, 4, 5, 6, 7]), Err(ZkError::ShortPacket)));
}

#[test]
fn packet_fields_are_decoded() {
    let p = parse_packet(&[0xD0, 0x07, 0xAA, 0xBB, 0x34, 0x12, 0x02, 0x00, 5]).ok().unwrap();
    assert_eq!(p.command, 2000);
    assert_eq!(p.checksum, 0xBBAA);
    assert_eq!(p.session_id, 0x1234);
    assert_eq!(p.reply_id, 2);
    assert_eq!(p.payload, vec![5]);
}

#[test]
fn leading_frame_keeps_following_bytes() {
    let first = encode_frame(&encode_packet(2000, 1, 2, &[]));
    let second = encode_frame(&encode_packet(1501, 1, 3, &[7, 8]));
    let mut buf = first.clone();
    buf.extend_from_slice(&second);
    let f = parse_leading_frame(&buf).ok().unwrap();
    assert_eq!(f.packet.command, 2000);
    assert_eq!(f.packet.reply_id, 2);
    assert!(f.packet.payload.is_empty());
    assert_eq!(f.missing, 0);
    assert_eq!(f.rest, second);
}

#[test]
fn leading_frame_counts_missing_payload() {
    let frame = encode_frame(&encode_packet(1501, 1, 2, &[1, 2, 3, 4, 5, 6, 7, 8, 9, 10]));
    let f = parse_leading_frame(&frame[..20]).ok().unwrap();
    assert_eq!(f.packet.command, 1501);
    assert_eq!(f.packet.payload, vec![1, 2, 3, 4]);
    assert_eq!(f.missing, 6);
    assert!(f.rest.is_empty());
}

#[test]
fn leading_frame_errors() {
    assert!(matches!(parse_leading_frame(&[0x50, 0x50, 0x82, 0x7D, 8, 0, 0, 0]), Err(ZkError::ShortPacket)));
    let mut bad = encode_frame(&encode_packet(2000, 1, 2, &[]));
    bad[0] = 0;
    assert!(matches!(parse_leading_frame(&bad), Err(ZkError::BadMagic)));
    let mut short = encode_frame(&encode_packet(2000, 1, 2, &[0; 8]));
    short[4] = 7;
    assert!(matches!(parse_leading_frame(&short), Err(ZkError::ShortPacket)));
}
