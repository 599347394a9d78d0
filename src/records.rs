//! Decoding of the user directory and the attendance log, with name
//! resolution from badge and uid keys.
use vstd::prelude::*;

use crate::bytes::{copy_range, le16, le32, read_u32};
use crate::layouts::{parse_att16, parse_att40, parse_att8, parse_user28, parse_user72, att16_at, att8_at};
use crate::text::{
    dec, decimal, is_trim_of, leading_digit_text, leading_digits, parse_dec, parse_u32, push_decimal, push_text,
    text_field, trim_nul, utf8_lossy,
};
use crate::time::{date_text, decode_time, decoded, format_date, format_iso, format_time, is_valid_date, is_valid_stamp, iso_text, time_text};

verus! {

/// A user of the device directory.
pub struct User {
    /// The device-internal index.
    pub uid: u32,
    /// The badge or employee id.
    pub user_id: String,
    pub name: String,
}

/// One punch of the attendance log.
pub struct AttendanceRecord {
    pub user_id: u32,
    pub user_name: String,
    /// `YYYY-MM-DDTHH:MM:SS` in the device's local time.
    pub timestamp: String,
    pub status: u8,
    pub punch: u8,
    pub date: String,
    pub time: String,
    pub event: String,
    /// Whether the packed time names a day that exists.
    pub timestamp_valid: bool,
}

/// One key of the name lookup.
pub struct NameEntry {
    pub key: String,
    pub name: String,
}

/// The name lookup built from the user directory; a later entry wins over an
/// earlier one with the same key.
pub struct NameTable {
    pub entries: Vec<NameEntry>,
}

/// `t` is the text of the field `b`: NUL padding dropped, decoded, trimmed.
pub open spec fn text_of(b: Seq<u8>, t: Seq<char>) -> bool {
    is_trim_of(t, utf8_lossy(trim_nul(b)))
}

/// `name` is the text of the field `b`, or `fallback` where that is empty.
pub open spec fn text_or(b: Seq<u8>, name: Seq<char>, fallback: Seq<char>) -> bool {
    (name.len() > 0 && text_of(b, name)) || (text_of(b, Seq::empty()) && name == fallback)
}

/// The name of a status code.
pub open spec fn event_name(status: u8) -> Seq<char> {
    if status == 0 { "Check In"@ }
    else if status == 1 { "Check Out"@ }
    else if status == 2 { "Break Out"@ }
    else if status == 3 { "Break In"@ }
    else if status == 4 { "OT In"@ }
    else if status == 5 { "OT Out"@ }
    else { "Unknown"@ }
}

/// The record size of a user directory body: 72 where the body is a
/// non-empty multiple of 72, else 28.
pub open spec fn user_size(body_len: int) -> int {
    if body_len >= 72 && body_len % 72 == 0 { 72 } else { 28 }
}

/// `u` is the user of the 28-byte record `rec`: the uid, the name from the wide
/// window over bytes 2..26 (else `User-<uid>`), and the uid as user id.
pub open spec fn user28_ok(rec: Seq<u8>, u: User) -> bool {
    &&& u.uid as int == le16(rec, 0)
    &&& u.user_id@ == dec(u.uid as nat)
    &&& text_or(rec.subrange(2, 26), u.name@, "User-"@ + dec(u.uid as nat))
}

/// `u` is the user of the 72-byte record `rec`: the uid, the badge id from
/// bytes 48..72 (else the uid), and the name from bytes 11..35 (else `NN-`
/// followed by the badge text).
pub open spec fn user72_ok(rec: Seq<u8>, u: User) -> bool {
    &&& u.uid as int == le16(rec, 0)
    &&& exists|badge: Seq<char>|
        text_of(rec.subrange(48, 72), badge)
        && u.user_id@ == (if badge.len() > 0 { badge } else { dec(u.uid as nat) })
        && text_or(rec.subrange(11, 35), u.name@, "NN-"@ + badge)
}

/// The `i`-th record of `size` bytes in `body`.
pub open spec fn slot(body: Seq<u8>, i: int, size: int) -> Seq<u8> {
    body.subrange(i * size, i * size + size)
}

/// The users of a directory blob: a 4-byte size header, then records.
pub open spec fn users_ok(blob: Seq<u8>, users: Seq<User>) -> bool {
    if blob.len() <= 4 {
        users.len() == 0
    } else {
        let body = blob.subrange(4, blob.len() as int);
        let size = user_size(body.len() as int);
        &&& users.len() == body.len() as int / size
        &&& forall|i: int| 0 <= i < users.len() ==>
            if size == 72 { user72_ok(slot(body, i, 72), #[trigger] users[i]) } else { user28_ok(slot(body, i, 28), users[i]) }
    }
}

/// The (key, name) pairs of a lookup.
pub open spec fn pairs(entries: Seq<NameEntry>) -> Seq<(Seq<char>, Seq<char>)> {
    entries.map_values(|e: NameEntry| (e.key@, e.name@))
}

/// The name under `key`: the last pair with that key.
pub open spec fn resolve(t: Seq<(Seq<char>, Seq<char>)>, key: Seq<char>) -> Option<Seq<char>>
    decreases t.len(),
{
    if t.len() == 0 {
        None
    } else if t.last().0 == key {
        Some(t.last().1)
    } else {
        resolve(t.drop_last(), key)
    }
}

/// The keys under which a user's name is found: the uid, the user id, the
/// user id's numeric value where it is a number, and its leading digits where
/// there are any.
pub open spec fn user_keys(u: User) -> Seq<Seq<char>> {
    seq![dec(u.uid as nat), u.user_id@]
        + (match parse_dec(u.user_id@) { Some(n) => seq![dec(n as nat)], None => Seq::empty() })
        + (if leading_digits(u.user_id@).len() > 0 { seq![leading_digits(u.user_id@)] } else { Seq::empty() })
}

/// The lookup pairs of a user directory, in order.
pub open spec fn table_pairs(users: Seq<User>) -> Seq<(Seq<char>, Seq<char>)>
    decreases users.len(),
{
    if users.len() == 0 {
        Seq::empty()
    } else {
        let u = users.last();
        table_pairs(users.drop_last()) + user_keys(u).map_values(|k: Seq<char>| (k, u.name@))
    }
}

/// The name under `key`, or `ID: <shown>` where no user has that key.
pub open spec fn name_or_unknown(t: Seq<(Seq<char>, Seq<char>)>, key: Seq<char>, shown: Seq<char>) -> Seq<char> {
    match resolve(t, key) {
        Some(n) => n,
        None => "ID: "@ + shown,
    }
}

/// The time fields of a record are those of the packed time `ts`.
pub open spec fn stamped(r: AttendanceRecord, ts: u32) -> bool {
    let s = decoded(ts as nat);
    &&& r.timestamp@ == iso_text(s)
    &&& r.date@ == date_text(s)
    &&& r.time@ == time_text(s)
    &&& r.timestamp_valid == (is_valid_date(s.year as int, s.month as int, s.day as int))
}

/// `r` is the attendance record of the 8-byte record `rec`.
pub open spec fn att8_ok(rec: Seq<u8>, t: Seq<(Seq<char>, Seq<char>)>, r: AttendanceRecord) -> bool {
    let a = att8_at(rec);
    &&& r.user_id == a.uid as u32
    &&& r.user_name@ == name_or_unknown(t, dec(a.uid as nat), dec(a.uid as nat))
    &&& r.status == a.status && r.punch == a.punch
    &&& r.event@ == event_name(a.status)
    &&& stamped(r, a.timestamp)
}

/// `r` is the attendance record of the 16-byte record `rec`.
pub open spec fn att16_ok(rec: Seq<u8>, t: Seq<(Seq<char>, Seq<char>)>, r: AttendanceRecord) -> bool {
    let a = att16_at(rec);
    &&& r.user_id == a.user_id
    &&& r.user_name@ == name_or_unknown(t, dec(a.user_id as nat), dec(a.user_id as nat))
    &&& r.status == a.status && r.punch == a.punch
    &&& r.event@ == event_name(a.status)
    &&& stamped(r, a.timestamp)
}

/// The name of a 40-byte record's user: by badge text, then by uid, else
/// `ID: <badge>`; with no badge text, by uid, else `ID: <uid>`.
pub open spec fn name40(t: Seq<(Seq<char>, Seq<char>)>, badge: Seq<char>, uid: u16) -> Seq<char> {
    if badge.len() > 0 {
        match resolve(t, badge) {
            Some(n) => n,
            None => name_or_unknown(t, dec(uid as nat), badge),
        }
    } else {
        name_or_unknown(t, dec(uid as nat), dec(uid as nat))
    }
}

/// `r` is the attendance record of the 40-byte record `rec`: the user id is
/// the badge's numeric value, else the uid.
pub open spec fn att40_ok(rec: Seq<u8>, t: Seq<(Seq<char>, Seq<char>)>, r: AttendanceRecord) -> bool {
    let uid = le16(rec, 0) as u16;
    let ts = le32(rec, 27) as u32;
    &&& exists|badge: Seq<char>| #![trigger text_of(rec.subrange(2, 26), badge)]
        text_of(rec.subrange(2, 26), badge)
        && r.user_name@ == name40(t, badge, uid)
        && r.user_id == (match parse_dec(badge) { Some(n) => n, None => uid as u32 })
    &&& r.status == rec[26] && r.punch == rec[31]
    &&& r.event@ == event_name(rec[26])
    &&& stamped(r, ts)
}

/// The record size of an attendance body: the header's total size divided by
/// the record count the device reported, where both are non-zero; else the
/// first of 40, 16 and 8 that divides the body, else 16.
pub open spec fn att_size(total: int, expected: int, body_len: int) -> int {
    if expected > 0 && total > 0 {
        total / expected
    } else if body_len % 40 == 0 {
        40
    } else if body_len % 16 == 0 {
        16
    } else if body_len % 8 == 0 {
        8
    } else {
        16
    }
}

/// How many records an attendance body of that record size yields: the
/// 8-, 16- and 40-byte layouts are read as such; any other size is not
/// supported and yields none.
pub open spec fn att_count(size: int, body_len: int) -> int {
    if size == 8 || size == 16 || size == 40 { body_len / size } else { 0 }
}

/// The width of the records of a supported record size.
pub open spec fn layout_step(size: int) -> int {
    if size == 8 { 8 } else if size == 16 { 16 } else { 40 }
}

/// `r` is the attendance record of `rec` under the layout of that size.
pub open spec fn att_ok(size: int, rec: Seq<u8>, t: Seq<(Seq<char>, Seq<char>)>, r: AttendanceRecord) -> bool {
    if size == 8 {
        att8_ok(rec, t, r)
    } else if size == 16 {
        att16_ok(rec, t, r)
    } else {
        att40_ok(rec, t, r)
    }
}

/// The attendance records of a log blob: a 4-byte size header, then records.
pub open spec fn attendance_ok(blob: Seq<u8>, expected: u32, t: Seq<(Seq<char>, Seq<char>)>, recs: Seq<AttendanceRecord>) -> bool {
    if blob.len() < 4 {
        recs.len() == 0
    } else {
        let body = blob.subrange(4, blob.len() as int);
        let size = att_size(le32(blob, 0), expected as int, body.len() as int);
        &&& recs.len() == att_count(size, body.len() as int)
        &&& forall|i: int| 0 <= i < recs.len() ==>
            att_ok(size, slot(body, i, layout_step(size)), t, #[trigger] recs[i])
    }
}

/// The name of a status code.
pub fn status_to_event(status: u8) -> (r: &'static str)
    ensures
        r@ == event_name(status),
{
    if status == 0 { "Check In" }
    else if status == 1 { "Check Out" }
    else if status == 2 { "Break Out" }
    else if status == 3 { "Break In" }
    else if status == 4 { "OT In" }
    else if status == 5 { "OT Out" }
    else { "Unknown" }
}

/// `prefix` followed by the decimal text of `n`.
fn prefixed_decimal(prefix: &str, n: u32) -> (r: String)
    ensures
        r@ == prefix@ + dec(n as nat),
{
    let mut s = String::from_str(prefix);
    push_decimal(&mut s, n);
    s
}

/// `prefix` followed by `t`.
fn prefixed_text(prefix: &str, t: &str) -> (r: String)
    ensures
        r@ == prefix@ + t@,
{
    let mut s = String::from_str(prefix);
    push_text(&mut s, t);
    s
}

/// Decodes a 28-byte user record.
pub fn user_from_record28(rec: &[u8]) -> (u: User)
    requires
        rec@.len() >= 28,
    ensures
        user28_ok(rec@, u),
{
    let raw = parse_user28(rec);
    let uid = raw.uid as u32;
    let text = text_field(raw.name.as_slice());
    proof {
        if text@.len() == 0 {
            assert(text@ =~= Seq::<char>::empty());
        }
    }
    let name = if text.as_str().unicode_len() == 0 { prefixed_decimal("User-", uid) } else { text };
    User { uid, user_id: decimal(uid), name }
}

/// Decodes a 72-byte user record.
pub fn user_from_record72(rec: &[u8]) -> (u: User)
    requires
        rec@.len() >= 72,
    ensures
        user72_ok(rec@, u),
{
    let raw = parse_user72(rec);
    let uid = raw.uid as u32;
    let badge = text_field(raw.user_id.as_slice());
    let text = text_field(raw.name.as_slice());
    let name = if text.as_str().unicode_len() == 0 { prefixed_text("NN-", badge.as_str()) } else { text };
    let user_id = if badge.as_str().unicode_len() == 0 { decimal(uid) } else { badge.clone() };
    proof {
        if text@.len() == 0 {
            assert(text@ =~= Seq::<char>::empty());
        }
        if badge@.len() == 0 {
            assert(badge@ =~= Seq::<char>::empty());
        }
    }
    assert(text_of(rec@.subrange(48, 72), badge@));
    User { uid, user_id, name }
}

/// The record size of a user directory body.
pub fn user_record_size(body_len: usize) -> (r: usize)
    ensures
        r == user_size(body_len as int),
{
    if body_len >= 72 && body_len % 72 == 0 { 72 } else { 28 }
}

proof fn lemma_slot_fits(len: int, i: int, size: int)
    requires
        size > 0,
        0 <= i < len / size,
    ensures
        0 <= i * size,
        i * size + size <= len,
{
    assert(i * size + size == (i + 1) * size) by (nonlinear_arith);
    assert((i + 1) * size <= (len / size) * size) by (nonlinear_arith)
        requires i + 1 <= len / size, size > 0;
    assert((len / size) * size <= len) by (nonlinear_arith)
        requires size > 0;
    assert(0 <= i * size) by (nonlinear_arith)
        requires 0 <= i, size > 0;
}

/// Decodes a user directory blob: the 4-byte size header, then 28- or 72-byte
/// records; bytes that do not fill a record are ignored.
pub fn parse_users(blob: &[u8]) -> (users: Vec<User>)
    ensures
        users_ok(blob@, users@),
{
    let mut users: Vec<User> = Vec::new();
    if blob.len() <= 4 {
        return users;
    }
    let body = copy_range(blob, 4, blob.len());
    let size = user_record_size(body.len());
    let count = body.len() / size;
    let mut i: usize = 0;
    while i < count
        invariant
            i <= count,
            count == body@.len() as int / size as int,
            size == user_size(body@.len() as int),
            blob@.len() > 4,
            body@ == blob@.subrange(4, blob@.len() as int),
            body@.len() <= usize::MAX,
            users@.len() == i,
            forall|j: int| 0 <= j < i ==>
                if size == 72 { user72_ok(slot(body@, j, 72), #[trigger] users@[j]) } else { user28_ok(slot(body@, j, 28), users@[j]) },
        decreases count - i,
    {
        proof {
            lemma_slot_fits(body@.len() as int, i as int, size as int);
        }
        let start = i * size;
        let rec = copy_range(body.as_slice(), start, start + size);
        let u = if size == 72 { user_from_record72(rec.as_slice()) } else { user_from_record28(rec.as_slice()) };
        users.push(u);
        i = i + 1;
    }
    users
}

impl NameTable {
    /// Builds the lookup from a user directory.
    pub fn from_users(users: &Vec<User>) -> (t: NameTable)
        ensures
            pairs(t.entries@) == table_pairs(users@),
    {
        let mut entries: Vec<NameEntry> = Vec::new();
        let mut i: usize = 0;
        while i < users.len()
            invariant
                i <= users@.len(),
                pairs(entries@) == table_pairs(users@.subrange(0, i as int)),
            decreases users@.len() - i,
        {
            let u = &users[i];
            let ghost before = entries@;
            entries.push(NameEntry { key: decimal(u.uid), name: u.name.clone() });
            entries.push(NameEntry { key: u.user_id.clone(), name: u.name.clone() });
            match parse_u32(u.user_id.as_str()) {
                Some(n) => entries.push(NameEntry { key: decimal(n), name: u.name.clone() }),
                None => {},
            }
            let lead = leading_digit_text(u.user_id.as_str());
            if lead.as_str().unicode_len() > 0 {
                entries.push(NameEntry { key: lead, name: u.name.clone() });
            }
            proof {
                let sub = users@.subrange(0, i + 1);
                assert(sub.drop_last() =~= users@.subrange(0, i as int));
                assert(sub.last() == *u);
                assert(pairs(entries@) =~= pairs(before) + user_keys(*u).map_values(|k: Seq<char>| (k, u.name@)));
            }
            i = i + 1;
        }
        assert(users@.subrange(0, users@.len() as int) =~= users@);
        NameTable { entries }
    }

    /// The name under `key`, the last entry with that key winning.
    pub fn lookup(&self, key: &String) -> (r: Option<String>)
        ensures
            match r {
                Some(n) => resolve(pairs(self.entries@), key@) == Some(n@),
                None => resolve(pairs(self.entries@), key@) is None,
            },
    {
        let mut i: usize = self.entries.len();
        assert(self.entries@.subrange(0, i as int) =~= self.entries@);
        while i > 0
            invariant
                i <= self.entries@.len(),
                resolve(pairs(self.entries@), key@) == resolve(pairs(self.entries@.subrange(0, i as int)), key@),
            decreases i,
        {
            let e = &self.entries[i - 1];
            proof {
                assert(pairs(self.entries@.subrange(0, i as int)).drop_last() =~= pairs(self.entries@.subrange(0, i - 1)));
            }
            if e.key == *key {
                return Some(e.name.clone());
            }
            i = i - 1;
        }
        None
    }

    /// The name under `key`, or `ID: <shown>`.
    pub fn name_or_unknown(&self, key: &String, shown: &str) -> (r: String)
        ensures
            r@ == name_or_unknown(pairs(self.entries@), key@, shown@),
    {
        match self.lookup(key) {
            Some(n) => n,
            None => prefixed_text("ID: ", shown),
        }
    }
}

/// The time fields of a record.
fn stamp_fields(ts: u32) -> (r: (String, String, String, bool))
    ensures
        r.0@ == iso_text(decoded(ts as nat)),
        r.1@ == date_text(decoded(ts as nat)),
        r.2@ == time_text(decoded(ts as nat)),
        r.3 == is_valid_date(decoded(ts as nat).year as int, decoded(ts as nat).month as int, decoded(ts as nat).day as int),
{
    let s = decode_time(ts);
    assert(s.year <= 200_000) by {
        assert(ts as nat / 60 / 60 / 24 / 31 / 12 <= 20000);
    }
    let valid = is_valid_stamp(&s);
    (format_iso(&s), format_date(&s), format_time(&s), valid)
}

/// Decodes an 8-byte attendance record.
pub fn attendance_from_record8(rec: &[u8], table: &NameTable) -> (r: AttendanceRecord)
    requires
        rec@.len() >= 8,
    ensures
        att8_ok(rec@, pairs(table.entries@), r),
{
    let a = parse_att8(rec);
    let id = decimal(a.uid as u32);
    let user_name = table.name_or_unknown(&id, id.as_str());
    let (timestamp, date, time, timestamp_valid) = stamp_fields(a.timestamp);
    AttendanceRecord {
        user_id: a.uid as u32,
        user_name,
        timestamp,
        status: a.status,
        punch: a.punch,
        date,
        time,
        event: String::from_str(status_to_event(a.status)),
        timestamp_valid,
    }
}

/// Decodes a 16-byte attendance record.
pub fn attendance_from_record16(rec: &[u8], table: &NameTable) -> (r: AttendanceRecord)
    requires
        rec@.len() >= 16,
    ensures
        att16_ok(rec@, pairs(table.entries@), r),
{
    let a = parse_att16(rec);
    let id = decimal(a.user_id);
    let user_name = table.name_or_unknown(&id, id.as_str());
    let (timestamp, date, time, timestamp_valid) = stamp_fields(a.timestamp);
    AttendanceRecord {
        user_id: a.user_id,
        user_name,
        timestamp,
        status: a.status,
        punch: a.punch,
        date,
        time,
        event: String::from_str(status_to_event(a.status)),
        timestamp_valid,
    }
}

/// Decodes a 40-byte attendance record.
pub fn attendance_from_record40(rec: &[u8], table: &NameTable) -> (r: AttendanceRecord)
    requires
        rec@.len() >= 40,
    ensures
        att40_ok(rec@, pairs(table.entries@), r),
{
    let a = parse_att40(rec);
    let badge = text_field(a.user_id.as_slice());
    let uid_text = decimal(a.uid as u32);
    let user_name = if badge.as_str().unicode_len() > 0 {
        match table.lookup(&badge) {
            Some(n) => n,
            None => table.name_or_unknown(&uid_text, badge.as_str()),
        }
    } else {
        table.name_or_unknown(&uid_text, uid_text.as_str())
    };
    let user_id = match parse_u32(badge.as_str()) {
        Some(n) => n,
        None => a.uid as u32,
    };
    let (timestamp, date, time, timestamp_valid) = stamp_fields(a.timestamp);
    let r = AttendanceRecord {
        user_id,
        user_name,
        timestamp,
        status: a.status,
        punch: a.punch,
        date,
        time,
        event: String::from_str(status_to_event(a.status)),
        timestamp_valid,
    };
    assert(text_of(rec@.subrange(2, 26), badge@));
    r
}

/// The record size of an attendance body.
pub fn attendance_record_size(total: u32, expected: u32, body_len: usize) -> (r: usize)
    ensures
        r as int == att_size(total as int, expected as int, body_len as int),
{
    if expected > 0 && total > 0 {
        (total / expected) as usize
    } else if body_len % 40 == 0 {
        40
    } else if body_len % 16 == 0 {
        16
    } else if body_len % 8 == 0 {
        8
    } else {
        16
    }
}

/// Decodes `count` records of `size`'s layout from `body`.
fn decode_records(body: &[u8], size: usize, count: usize, table: &NameTable) -> (recs: Vec<AttendanceRecord>)
    requires
        count * layout_step(size as int) <= body@.len(),
    ensures
        recs@.len() == count,
        forall|j: int| 0 <= j < count ==>
            att_ok(size as int, slot(body@, j, layout_step(size as int)), pairs(table.entries@), #[trigger] recs@[j]),
{
    let step: usize = if size == 8 { 8 } else if size == 16 { 16 } else { 40 };
    let body_len = body.len();
    let mut recs: Vec<AttendanceRecord> = Vec::new();
    let mut i: usize = 0;
    while i < count
        invariant
            i <= count,
            step as int == layout_step(size as int),
            count * step <= body@.len(),
            body@.len() == body_len,
            recs@.len() == i,
            forall|j: int| 0 <= j < i ==>
                att_ok(size as int, slot(body@, j, step as int), pairs(table.entries@), #[trigger] recs@[j]),
        decreases count - i,
    {
        proof {
            assert((i + 1) * step <= count * step) by (nonlinear_arith)
                requires i + 1 <= count;
            assert(i * step + step == (i + 1) * step) by (nonlinear_arith);
        }
        let start = i * step;
        let rec = copy_range(body, start, start + step);
        let r = if step == 8 {
            attendance_from_record8(rec.as_slice(), table)
        } else if step == 16 {
            attendance_from_record16(rec.as_slice(), table)
        } else {
            attendance_from_record40(rec.as_slice(), table)
        };
        recs.push(r);
        i = i + 1;
    }
    recs
}

/// Decodes an attendance log blob: the 4-byte size header, then 8-, 16- or
/// 40-byte records, named from the lookup. Bytes that do not fill a record
/// are ignored, and a record size other than 8, 16 and 40 yields no records.
pub fn parse_attendance(blob: &[u8], expected: u32, table: &NameTable) -> (recs: Vec<AttendanceRecord>)
    ensures
        attendance_ok(blob@, expected, pairs(table.entries@), recs@),
{
    if blob.len() < 4 {
        return Vec::new();
    }
    let total = read_u32(blob, 0);
    let body = copy_range(blob, 4, blob.len());
    let size = attendance_record_size(total, expected, body.len());
    let step: usize = if size == 8 { 8 } else if size == 16 { 16 } else { 40 };
    let count: usize = if size == 8 || size == 16 || size == 40 { body.len() / step } else { 0 };
    proof {
        assert(count * step <= body@.len()) by (nonlinear_arith)
            requires count == 0 || count == body@.len() as int / step as int, step > 0;
    }
    decode_records(body.as_slice(), size, count, table)
}

} // verus!
