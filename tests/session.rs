use zkattend::fetch::{fetch_plan, on_failure, runs_after_abort, FailureKind, FetchStep, OnFailure};
use zkattend::codec::{encode_packet, parse_frame_header};
use zkattend::session::{make_commkey, on_auth_reply, parse_free_sizes, shutdown_commands, HandshakeStep, Session};
use zkattend::error::ZkError;

fn reply_id_of(frame: &[u8]) -> u16 {
    u16::from_le_bytes([frame[14], frame[15]])
}

#[test]
fn new_session_starts_below_ushrt_max() {
    let s = Session::new();
    assert_eq!(s.session_id, 0);
    assert_eq!(s.reply_id, 65534);
}

#[test]
fn reply_id_wraps_at_ushrt_max() {
    let mut s = Session::new();
    let first = s.encode_command(1000, &[]);
    assert_eq!(reply_id_of(&first), 0);
    let echo = encode_packet(2000, 0x55, 0, &[]);
    let pk = s.receive(&echo).ok().unwrap();
    assert_eq!(pk.command, 2000);
    assert_eq!(s.session_id, 0x55);
    assert_eq!(s.reply_id, 0);
    let second = s.encode_command(1003, &[]);
    assert_eq!(reply_id_of(&second), 1);
    let high = Session { session_id: 1, reply_id: 65533 };
    assert_eq!(high.next_reply_id(), 65534);
}

#[test]
fn first_connect_checksums_current_reply_id() {
    let s = Session::new();
    let frame = s.encode_command(1000, &[]);
    assert_eq!(&frame[8..], &[0xE8, 0x03, 0x17, 0xFC, 0x00, 0x00, 0x00, 0x00]);
}

#[test]
fn reply_id_follows_response_even_on_error_reply() {
    let mut s = Session { session_id: 9, reply_id: 10 };
    let echo = encode_packet(2001, 0, 11, &[]);
    s.receive(&echo).ok().unwrap();
    assert_eq!(s.session_id, 9);
    assert_eq!(s.next_reply_id(), 12);
}

#[test]
fn command_frame_carries_session_and_length() {
    let s = Session { session_id: 0x1234, reply_id: 4 };
    let f = s.encode_command(11, b"MAC\0");
    assert_eq!(parse_frame_header(&f[..8]), Ok(12));
    assert_eq!(&f[12..14], &[0x34, 0x12]);
    assert_eq!(reply_id_of(&f), 5);
}

#[test]
fn short_response_leaves_session() {
    let mut s = Session { session_id: 3, reply_id: 4 };
    assert!(matches!(s.receive(&[0, 1, 2]), Err(ZkError::ShortPacket)));
    assert_eq!(s.session_id, 3);
    assert_eq!(s.reply_id, 4);
}

#[test]
fn commkey_for_session_0x1234() {
    assert_eq!(make_commkey(0, 0x1234), vec![0x61, 0x7D, 0x32, 0x6B]);
}

#[test]
fn commkey_reverses_password_bits() {
    assert_eq!(make_commkey(1, 0), vec![0x61, 0xFD, 0x32, 0x79]);
    assert_eq!(make_commkey(12345, 7), vec![0x6D, 0xE1, 0x32, 0x79]);
}

#[test]
fn handshake_ack_takes_session_from_payload() {
    let mut s = Session::new();
    let step = s.on_connect_reply(2000, &[0x34, 0x12]);
    assert!(matches!(step, HandshakeStep::Connected));
    assert_eq!(s.session_id, 0x1234);
}

#[test]
fn handshake_unauthorized_sends_key() {
    let mut s = Session { session_id: 0x1234, reply_id: 0 };
    match s.on_connect_reply(2005, &[]) {
        HandshakeStep::SendAuth(key) => assert_eq!(key, vec![0x61, 0x7D, 0x32, 0x6B]),
        _ => panic!("expected an authentication step"),
    }
}

#[test]
fn handshake_other_reply_fails() {
    let mut s = Session::new();
    assert!(matches!(s.on_connect_reply(2001, &[]), HandshakeStep::Failed(ZkError::HandshakeFailed(2001))));
}

#[test]
fn auth_reply_outcomes() {
    assert!(on_auth_reply(2000).is_ok());
    assert_eq!(on_auth_reply(2005), Err(ZkError::AuthRejected(2005)));
}

#[test]
fn free_sizes_are_read_from_offsets() {
    let mut data = vec![0u8; 80];
    data[16] = 3;
    data[24] = 7;
    data[32] = 0x10;
    data[33] = 0x27;
    assert_eq!(parse_free_sizes(2000, &data), (3, 7, 10000));
    assert_eq!(parse_free_sizes(2000, &data[..79]), (0, 0, 0));
    assert_eq!(parse_free_sizes(2001, &data), (0, 0, 0));
}

#[test]
fn shutdown_enables_then_exits() {
    assert_eq!(shutdown_commands(), vec![1002, 1001]);
}

#[test]
fn fetch_steps_and_failures() {
    assert_eq!(
        fetch_plan(),
        vec![
            FetchStep::DisableDevice,
            FetchStep::ReadInfo,
            FetchStep::ReadSizes,
            FetchStep::ReadUsers,
            FetchStep::ReadAttendance,
            FetchStep::EnableDevice,
            FetchStep::Exit,
        ]
    );
    assert_eq!(on_failure(FetchStep::ReadAttendance, FailureKind::Session), OnFailure::Abort);
    assert_eq!(on_failure(FetchStep::ReadAttendance, FailureKind::Refused), OnFailure::Abort);
    assert_eq!(on_failure(FetchStep::ReadUsers, FailureKind::Session), OnFailure::Abort);
    assert_eq!(on_failure(FetchStep::DisableDevice, FailureKind::Session), OnFailure::Abort);
    assert_eq!(on_failure(FetchStep::DisableDevice, FailureKind::Refused), OnFailure::Ignore);
    assert_eq!(on_failure(FetchStep::ReadSizes, FailureKind::Refused), OnFailure::ZeroCounts);
    assert_eq!(on_failure(FetchStep::ReadUsers, FailureKind::Refused), OnFailure::NoUsers);
    assert_eq!(on_failure(FetchStep::EnableDevice, FailureKind::Session), OnFailure::Ignore);
    assert_eq!(on_failure(FetchStep::Exit, FailureKind::Refused), OnFailure::Ignore);
    assert!(runs_after_abort(FetchStep::EnableDevice));
    assert!(runs_after_abort(FetchStep::Exit));
    assert!(!runs_after_abort(FetchStep::ReadUsers));
}
