use zkattend::layouts::{
    parse_att16, parse_att40, parse_att8, parse_user28, parse_user72, serialize_att16, serialize_att40, serialize_att8,
    serialize_user28, serialize_user72, AttRecord16, AttRecord40, AttRecord8, UserRecord28, UserRecord72,
};
use zkattend::records::{attendance_record_size, parse_attendance, parse_users, status_to_event, user_record_size, NameTable, User};

fn blob(records: &[Vec<u8>]) -> Vec<u8> {
    let body: Vec<u8> = records.concat();
    let mut b = (body.len() as u32).to_le_bytes().to_vec();
    b.extend_from_slice(&body);
    b
}

fn field(text: &[u8], width: usize) -> Vec<u8> {
    let mut f = text.to_vec();
    f.resize(width, 0);
    f
}

fn user72(uid: u16, name: &[u8], badge: &[u8]) -> Vec<u8> {
    serialize_user72(&UserRecord72 {
        uid,
        privilege: 0,
        password: field(b"", 8),
        name: field(name, 24),
        card: 0,
        pad1: 0,
        group: field(b"1", 7),
        pad2: 0,
        user_id: field(badge, 24),
    })
}

fn user28(uid: u16, name: &[u8]) -> Vec<u8> {
    serialize_user28(&UserRecord28 { uid, name: field(name, 24), tail: 0 })
}

#[test]
fn attendance_16_byte_record() {
    let rec = serialize_att16(&AttRecord16 { user_id: 101, timestamp: 0, status: 0, punch: 0, reserved: 0, workcode: 0 });
    let recs = parse_attendance(&blob(&[rec]), 1, &NameTable { entries: Vec::new() });
    assert_eq!(recs.len(), 1);
    let r = &recs[0];
    assert_eq!(r.user_id, 101);
    assert_eq!(r.timestamp, "2000-01-01T00:00:00");
    assert_eq!(r.status, 0);
    assert_eq!(r.event, "Check In");
    assert_eq!(r.date, "2000-01-01");
    assert_eq!(r.time, "00:00:00");
    assert_eq!(r.user_name, "ID: 101");
    assert!(r.timestamp_valid);
}

#[test]
fn attendance_8_byte_records_named_by_uid() {
    let users = parse_users(&blob(&[user28(7, b"Alice")]));
    let table = NameTable::from_users(&users);
    let a = serialize_att8(&AttRecord8 { uid: 7, status: 1, timestamp: 2_678_400, punch: 2 });
    let b = serialize_att8(&AttRecord8 { uid: 8, status: 9, timestamp: 0, punch: 0 });
    let recs = parse_attendance(&blob(&[a, b]), 2, &table);
    assert_eq!(recs.len(), 2);
    assert_eq!(recs[0].user_name, "Alice");
    assert_eq!(recs[0].event, "Check Out");
    assert_eq!(recs[0].date, "2000-02-01");
    assert_eq!(recs[0].punch, 2);
    assert_eq!(recs[1].user_name, "ID: 8");
    assert_eq!(recs[1].event, "Unknown");
}

#[test]
fn attendance_40_byte_record_by_badge() {
    let users = parse_users(&blob(&[user72(3, b"Bob", b"E-0042")]));
    let table = NameTable::from_users(&users);
    let rec = serialize_att40(&AttRecord40 {
        uid: 3,
        user_id: field(b"E-0042", 24),
        status: 4,
        timestamp: 3600,
        punch: 1,
        spare: field(b"", 8),
    });
    let numeric = serialize_att40(&AttRecord40 {
        uid: 9,
        user_id: field(b"0042", 24),
        status: 5,
        timestamp: 0,
        punch: 0,
        spare: field(b"", 8),
    });
    let recs = parse_attendance(&blob(&[rec, numeric]), 2, &table);
    assert_eq!(recs.len(), 2);
    assert_eq!(recs[0].user_name, "Bob");
    assert_eq!(recs[0].user_id, 3);
    assert_eq!(recs[0].event, "OT In");
    assert_eq!(recs[0].time, "01:00:00");
    assert_eq!(recs[1].user_id, 42);
    assert_eq!(recs[1].user_name, "ID: 0042");
    assert_eq!(recs[1].event, "OT Out");
}

#[test]
fn attendance_size_from_header_and_count() {
    assert_eq!(attendance_record_size(80, 2, 80), 40);
    assert_eq!(attendance_record_size(0, 5, 32), 16);
    assert_eq!(attendance_record_size(0, 0, 24), 8);
    assert_eq!(attendance_record_size(0, 0, 7), 16);
    assert_eq!(attendance_record_size(0, 0, 0), 40);
}

#[test]
fn attendance_with_no_records() {
    let table = NameTable { entries: Vec::new() };
    assert!(parse_attendance(&[1, 2, 3], 5, &table).is_empty());
    assert!(parse_attendance(&[0, 0, 0, 0], 0, &table).is_empty());
    assert!(parse_attendance(&[0, 0, 0, 0, 1, 2, 3], 0, &table).is_empty());
    let odd_size = blob(&[vec![0u8; 24]]);
    assert!(parse_attendance(&odd_size, 1, &table).is_empty());
    let wide = blob(&[vec![0u8; 48]]);
    assert!(parse_attendance(&wide, 1, &table).is_empty());
    let zero_size = blob(&[vec![0u8; 16]]);
    assert!(parse_attendance(&zero_size, 100, &table).is_empty());
}

#[test]
fn users_72_byte_layout() {
    let users = parse_users(&blob(&[user72(1, b"Carol  ", b"B7"), user72(2, b"", b"")]));
    assert_eq!(users.len(), 2);
    assert_eq!(users[0].uid, 1);
    assert_eq!(users[0].name, "Carol");
    assert_eq!(users[0].user_id, "B7");
    assert_eq!(users[1].name, "NN-");
    assert_eq!(users[1].user_id, "2");
}

#[test]
fn users_28_byte_layout_with_wide_name() {
    let users = parse_users(&blob(&[user28(5, "Zoë Ñ".as_bytes()), user28(6, b"")]));
    assert_eq!(users.len(), 2);
    assert_eq!(users[0].name, "Zoë Ñ");
    assert_eq!(users[0].user_id, "5");
    assert_eq!(users[1].name, "User-6");
}

#[test]
fn empty_user_directory() {
    assert!(parse_users(&[]).is_empty());
    assert!(parse_users(&[0, 0, 0, 0]).is_empty());
    assert!(parse_users(&[1, 0, 0, 0, 9]).is_empty());
}

#[test]
fn user_record_size_detection() {
    assert_eq!(user_record_size(144), 72);
    assert_eq!(user_record_size(56), 28);
    assert_eq!(user_record_size(30), 28);
    assert_eq!(user_record_size(0), 28);
}

#[test]
fn name_table_keys() {
    let users = vec![
        User { uid: 1, user_id: "0042".to_string(), name: "Dana".to_string() },
        User { uid: 2, user_id: "17abc".to_string(), name: "Eve".to_string() },
    ];
    let t = NameTable::from_users(&users);
    for (key, name) in [("1", "Dana"), ("0042", "Dana"), ("42", "Dana"), ("2", "Eve"), ("17abc", "Eve"), ("17", "Eve")] {
        assert_eq!(t.lookup(&key.to_string()), Some(name.to_string()));
    }
    assert_eq!(t.lookup(&"3".to_string()), None);
    assert_eq!(t.name_or_unknown(&"3".to_string(), "3"), "ID: 3");
}

#[test]
fn later_user_wins_on_shared_key() {
    let users = vec![
        User { uid: 1, user_id: "9".to_string(), name: "First".to_string() },
        User { uid: 9, user_id: "x".to_string(), name: "Second".to_string() },
    ];
    let t = NameTable::from_users(&users);
    assert_eq!(t.lookup(&"9".to_string()), Some("Second".to_string()));
}

#[test]
fn status_names() {
    let names = ["Check In", "Check Out", "Break Out", "Break In", "OT In", "OT Out", "Unknown"];
    for (s, n) in names.iter().enumerate() {
        assert_eq!(status_to_event(s as u8), *n);
    }
    assert_eq!(status_to_event(255), "Unknown");
}

#[test]
fn user_layouts_round_trip() {
    let r = UserRecord72 {
        uid: 513,
        privilege: 14,
        password: field(b"pw", 8),
        name: field(b"Name", 24),
        card: 0xDEADBEEF,
        pad1: 1,
        group: field(b"g", 7),
        pad2: 2,
        user_id: field(b"ID", 24),
    };
    let back = parse_user72(&serialize_user72(&r));
    assert_eq!((back.uid, back.privilege, back.card, back.pad1, back.pad2), (513, 14, 0xDEADBEEF, 1, 2));
    assert_eq!((back.password, back.name, back.group, back.user_id), (r.password, r.name, r.group, r.user_id));
    let s = UserRecord28 { uid: 77, name: field(b"N", 24), tail: 0x0102 };
    let back = parse_user28(&serialize_user28(&s));
    assert_eq!((back.uid, back.name, back.tail), (77, s.name, 0x0102));
}

#[test]
fn attendance_layouts_round_trip() {
    let a = AttRecord8 { uid: 65535, status: 3, timestamp: 0xFFFF_FFFF, punch: 200 };
    assert_eq!(parse_att8(&serialize_att8(&a)), a);
    let b = AttRecord16 { user_id: 123456, timestamp: 99, status: 1, punch: 15, reserved: 0xABCD, workcode: 7 };
    assert_eq!(parse_att16(&serialize_att16(&b)), b);
    let c = AttRecord40 { uid: 4, user_id: field(b"42", 24), status: 2, timestamp: 5, punch: 6, spare: field(b"zz", 8) };
    let back = parse_att40(&serialize_att40(&c));
    assert_eq!((back.uid, back.status, back.timestamp, back.punch), (4, 2, 5, 6));
    assert_eq!((back.user_id, back.spare), (c.user_id, c.spare));
}
