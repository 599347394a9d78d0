//! The fixed-size binary layouts of user and attendance records.
use vstd::prelude::*;

use crate::bytes::{copy_range, le16, le16_bytes, le32, le32_bytes, push_all, push_u16, push_u32, read_u16, read_u32};
use crate::bytes::{lemma_le16_round_trip, lemma_le32_round_trip};

verus! {

/// A 28-byte user record as devices fill it: the uid, a 24-byte name window
/// over bytes 2..26, and two trailing bytes.
pub struct UserRecord28 {
    pub uid: u16,
    pub name: Vec<u8>,
    pub tail: u16,
}

/// A 72-byte user record: uid, privilege, 8-byte password, 24-byte name,
/// card number, a pad byte, 7-byte group, a pad byte and the 24-byte badge id.
pub struct UserRecord72 {
    pub uid: u16,
    pub privilege: u8,
    pub password: Vec<u8>,
    pub name: Vec<u8>,
    pub card: u32,
    pub pad1: u8,
    pub group: Vec<u8>,
    pub pad2: u8,
    pub user_id: Vec<u8>,
}

/// An 8-byte attendance record: uid, status, timestamp, punch.
#[derive(Debug, Clone, Copy, PartialEq, Eq, Structural)]
pub struct AttRecord8 {
    pub uid: u16,
    pub status: u8,
    pub timestamp: u32,
    pub punch: u8,
}

/// A 16-byte attendance record: user id, timestamp, status, punch, two
/// reserved bytes and the work code.
#[derive(Debug, Clone, Copy, PartialEq, Eq, Structural)]
pub struct AttRecord16 {
    pub user_id: u32,
    pub timestamp: u32,
    pub status: u8,
    pub punch: u8,
    pub reserved: u16,
    pub workcode: u32,
}

/// A 40-byte attendance record: uid, 24-byte badge id, status, timestamp,
/// punch and 8 spare bytes.
pub struct AttRecord40 {
    pub uid: u16,
    pub user_id: Vec<u8>,
    pub status: u8,
    pub timestamp: u32,
    pub punch: u8,
    pub spare: Vec<u8>,
}

/// The bytes of a 28-byte user record.
pub open spec fn user28_bytes(r: UserRecord28) -> Seq<u8> {
    le16_bytes(r.uid as int) + r.name@ + le16_bytes(r.tail as int)
}

/// The name window of a 28-byte record holds 24 bytes.
pub open spec fn user28_wf(r: UserRecord28) -> bool {
    r.name@.len() == 24
}

/// Two 28-byte records with the same fields.
pub open spec fn user28_eq(a: UserRecord28, b: UserRecord28) -> bool {
    a.uid == b.uid && a.name@ == b.name@ && a.tail == b.tail
}

/// The bytes of a 72-byte user record.
pub open spec fn user72_bytes(r: UserRecord72) -> Seq<u8> {
    le16_bytes(r.uid as int) + seq![r.privilege] + r.password@ + r.name@ + le32_bytes(r.card as int)
        + seq![r.pad1] + r.group@ + seq![r.pad2] + r.user_id@
}

/// The text fields of a 72-byte record have their fixed widths.
pub open spec fn user72_wf(r: UserRecord72) -> bool {
    r.password@.len() == 8 && r.name@.len() == 24 && r.group@.len() == 7 && r.user_id@.len() == 24
}

/// Two 72-byte records with the same fields.
pub open spec fn user72_eq(a: UserRecord72, b: UserRecord72) -> bool {
    &&& a.uid == b.uid && a.privilege == b.privilege && a.password@ == b.password@
    &&& a.name@ == b.name@ && a.card == b.card && a.pad1 == b.pad1
    &&& a.group@ == b.group@ && a.pad2 == b.pad2 && a.user_id@ == b.user_id@
}

/// The bytes of an 8-byte attendance record.
pub open spec fn att8_bytes(r: AttRecord8) -> Seq<u8> {
    le16_bytes(r.uid as int) + seq![r.status] + le32_bytes(r.timestamp as int) + seq![r.punch]
}

/// The bytes of a 16-byte attendance record.
pub open spec fn att16_bytes(r: AttRecord16) -> Seq<u8> {
    le32_bytes(r.user_id as int) + le32_bytes(r.timestamp as int) + seq![r.status, r.punch]
        + le16_bytes(r.reserved as int) + le32_bytes(r.workcode as int)
}

/// The bytes of a 40-byte attendance record.
pub open spec fn att40_bytes(r: AttRecord40) -> Seq<u8> {
    le16_bytes(r.uid as int) + r.user_id@ + seq![r.status] + le32_bytes(r.timestamp as int)
        + seq![r.punch] + r.spare@
}

/// The badge and spare fields of a 40-byte record have their fixed widths.
pub open spec fn att40_wf(r: AttRecord40) -> bool {
    r.user_id@.len() == 24 && r.spare@.len() == 8
}

/// Two 40-byte records with the same fields.
pub open spec fn att40_eq(a: AttRecord40, b: AttRecord40) -> bool {
    &&& a.uid == b.uid && a.user_id@ == b.user_id@ && a.status == b.status
    &&& a.timestamp == b.timestamp && a.punch == b.punch && a.spare@ == b.spare@
}

/// The 28-byte user record at the start of `b`.
pub open spec fn user28_at(b: Seq<u8>, r: UserRecord28) -> bool {
    r.uid as int == le16(b, 0) && r.name@ == b.subrange(2, 26) && r.tail as int == le16(b, 26)
}

/// The 72-byte user record at the start of `b`.
pub open spec fn user72_at(b: Seq<u8>, r: UserRecord72) -> bool {
    &&& r.uid as int == le16(b, 0) && r.privilege == b[2] && r.password@ == b.subrange(3, 11)
    &&& r.name@ == b.subrange(11, 35) && r.card as int == le32(b, 35) && r.pad1 == b[39]
    &&& r.group@ == b.subrange(40, 47) && r.pad2 == b[47] && r.user_id@ == b.subrange(48, 72)
}

/// The 8-byte attendance record at the start of `b`.
pub open spec fn att8_at(b: Seq<u8>) -> AttRecord8 {
    AttRecord8 { uid: le16(b, 0) as u16, status: b[2], timestamp: le32(b, 3) as u32, punch: b[7] }
}

/// The 16-byte attendance record at the start of `b`.
pub open spec fn att16_at(b: Seq<u8>) -> AttRecord16 {
    AttRecord16 {
        user_id: le32(b, 0) as u32,
        timestamp: le32(b, 4) as u32,
        status: b[8],
        punch: b[9],
        reserved: le16(b, 10) as u16,
        workcode: le32(b, 12) as u32,
    }
}

/// The 40-byte attendance record at the start of `b`.
pub open spec fn att40_at(b: Seq<u8>, r: AttRecord40) -> bool {
    &&& r.uid as int == le16(b, 0) && r.user_id@ == b.subrange(2, 26) && r.status == b[26]
    &&& r.timestamp as int == le32(b, 27) && r.punch == b[31] && r.spare@ == b.subrange(32, 40)
}

proof fn lemma_le16_at(b: Seq<u8>, i: int, v: int)
    requires
        0 <= v < 65536,
        0 <= i,
        i + 2 <= b.len(),
        b.subrange(i, i + 2) == le16_bytes(v),
    ensures
        le16(b, i) == v,
{
    lemma_le16_round_trip(v);
    assert(b[i] == b.subrange(i, i + 2)[0]);
    assert(b[i + 1] == b.subrange(i, i + 2)[1]);
}

proof fn lemma_le32_at(b: Seq<u8>, i: int, v: int)
    requires
        0 <= v < 0x1_0000_0000,
        0 <= i,
        i + 4 <= b.len(),
        b.subrange(i, i + 4) == le32_bytes(v),
    ensures
        le32(b, i) == v,
{
    lemma_le32_round_trip(v);
    let s = b.subrange(i, i + 4);
    assert(b[i] == s[0] && b[i + 1] == s[1] && b[i + 2] == s[2] && b[i + 3] == s[3]);
}

/// Reads a 28-byte user record.
pub fn parse_user28(b: &[u8]) -> (r: UserRecord28)
    requires
        b@.len() >= 28,
    ensures
        user28_at(b@, r),
        user28_wf(r),
{
    UserRecord28 { uid: read_u16(b, 0), name: copy_range(b, 2, 26), tail: read_u16(b, 26) }
}

/// Writes a 28-byte user record.
pub fn serialize_user28(r: &UserRecord28) -> (out: Vec<u8>)
    requires
        user28_wf(*r),
    ensures
        out@ == user28_bytes(*r),
        out@.len() == 28,
{
    let mut out: Vec<u8> = Vec::new();
    push_u16(&mut out, r.uid);
    push_all(&mut out, r.name.as_slice());
    push_u16(&mut out, r.tail);
    out
}

/// Reads a 72-byte user record.
pub fn parse_user72(b: &[u8]) -> (r: UserRecord72)
    requires
        b@.len() >= 72,
    ensures
        user72_at(b@, r),
        user72_wf(r),
{
    UserRecord72 {
        uid: read_u16(b, 0),
        privilege: b[2],
        password: copy_range(b, 3, 11),
        name: copy_range(b, 11, 35),
        card: read_u32(b, 35),
        pad1: b[39],
        group: copy_range(b, 40, 47),
        pad2: b[47],
        user_id: copy_range(b, 48, 72),
    }
}

/// Writes a 72-byte user record.
pub fn serialize_user72(r: &UserRecord72) -> (out: Vec<u8>)
    requires
        user72_wf(*r),
    ensures
        out@ == user72_bytes(*r),
        out@.len() == 72,
{
    let mut out: Vec<u8> = Vec::new();
    push_u16(&mut out, r.uid);
    out.push(r.privilege);
    push_all(&mut out, r.password.as_slice());
    push_all(&mut out, r.name.as_slice());
    push_u32(&mut out, r.card);
    out.push(r.pad1);
    push_all(&mut out, r.group.as_slice());
    out.push(r.pad2);
    push_all(&mut out, r.user_id.as_slice());
    assert(out@ =~= user72_bytes(*r));
    out
}

/// Reads an 8-byte attendance record.
pub fn parse_att8(b: &[u8]) -> (r: AttRecord8)
    requires
        b@.len() >= 8,
    ensures
        r == att8_at(b@),
{
    AttRecord8 { uid: read_u16(b, 0), status: b[2], timestamp: read_u32(b, 3), punch: b[7] }
}

/// Writes an 8-byte attendance record.
pub fn serialize_att8(r: &AttRecord8) -> (out: Vec<u8>)
    ensures
        out@ == att8_bytes(*r),
        out@.len() == 8,
{
    let mut out: Vec<u8> = Vec::new();
    push_u16(&mut out, r.uid);
    out.push(r.status);
    push_u32(&mut out, r.timestamp);
    out.push(r.punch);
    assert(out@ =~= att8_bytes(*r));
    out
}

/// Reads a 16-byte attendance record.
pub fn parse_att16(b: &[u8]) -> (r: AttRecord16)
    requires
        b@.len() >= 16,
    ensures
        r == att16_at(b@),
{
    AttRecord16 {
        user_id: read_u32(b, 0),
        timestamp: read_u32(b, 4),
        status: b[8],
        punch: b[9],
        reserved: read_u16(b, 10),
        workcode: read_u32(b, 12),
    }
}

/// Writes a 16-byte attendance record.
pub fn serialize_att16(r: &AttRecord16) -> (out: Vec<u8>)
    ensures
        out@ == att16_bytes(*r),
        out@.len() == 16,
{
    let mut out: Vec<u8> = Vec::new();
    push_u32(&mut out, r.user_id);
    push_u32(&mut out, r.timestamp);
    out.push(r.status);
    out.push(r.punch);
    push_u16(&mut out, r.reserved);
    push_u32(&mut out, r.workcode);
    assert(out@ =~= att16_bytes(*r));
    out
}

/// Reads a 40-byte attendance record.
pub fn parse_att40(b: &[u8]) -> (r: AttRecord40)
    requires
        b@.len() >= 40,
    ensures
        att40_at(b@, r),
        att40_wf(r),
{
    AttRecord40 {
        uid: read_u16(b, 0),
        user_id: copy_range(b, 2, 26),
        status: b[26],
        timestamp: read_u32(b, 27),
        punch: b[31],
        spare: copy_range(b, 32, 40),
    }
}

/// Writes a 40-byte attendance record.
pub fn serialize_att40(r: &AttRecord40) -> (out: Vec<u8>)
    requires
        att40_wf(*r),
    ensures
        out@ == att40_bytes(*r),
        out@.len() == 40,
{
    let mut out: Vec<u8> = Vec::new();
    push_u16(&mut out, r.uid);
    push_all(&mut out, r.user_id.as_slice());
    out.push(r.status);
    push_u32(&mut out, r.timestamp);
    out.push(r.punch);
    push_all(&mut out, r.spare.as_slice());
    assert(out@ =~= att40_bytes(*r));
    out
}

/// Reading back a written 28-byte user record gives the record.
pub proof fn lemma_user28_round_trip(r: UserRecord28, s: UserRecord28)
    requires
        user28_wf(r),
        user28_at(user28_bytes(r), s),
    ensures
        user28_eq(s, r),
{
    let b = user28_bytes(r);
    assert(b.subrange(0, 2) =~= le16_bytes(r.uid as int));
    assert(b.subrange(2, 26) =~= r.name@);
    assert(b.subrange(26, 28) =~= le16_bytes(r.tail as int));
    lemma_le16_at(b, 0, r.uid as int);
    lemma_le16_at(b, 26, r.tail as int);
}

/// Reading back a written 72-byte user record gives the record.
pub proof fn lemma_user72_round_trip(r: UserRecord72, s: UserRecord72)
    requires
        user72_wf(r),
        user72_at(user72_bytes(r), s),
    ensures
        user72_eq(s, r),
{
    let b = user72_bytes(r);
    assert(b.subrange(0, 2) =~= le16_bytes(r.uid as int));
    assert(b.subrange(3, 11) =~= r.password@);
    assert(b.subrange(11, 35) =~= r.name@);
    assert(b.subrange(35, 39) =~= le32_bytes(r.card as int));
    assert(b.subrange(40, 47) =~= r.group@);
    assert(b.subrange(48, 72) =~= r.user_id@);
    lemma_le16_at(b, 0, r.uid as int);
    lemma_le32_at(b, 35, r.card as int);
}

/// Reading back a written 8-byte attendance record gives the record.
pub proof fn lemma_att8_round_trip(r: AttRecord8)
    ensures
        att8_at(att8_bytes(r)) == r,
{
    let b = att8_bytes(r);
    assert(b.subrange(0, 2) =~= le16_bytes(r.uid as int));
    assert(b.subrange(3, 7) =~= le32_bytes(r.timestamp as int));
    lemma_le16_at(b, 0, r.uid as int);
    lemma_le32_at(b, 3, r.timestamp as int);
}

/// Reading back a written 16-byte attendance record gives the record.
pub proof fn lemma_att16_round_trip(r: AttRecord16)
    ensures
        att16_at(att16_bytes(r)) == r,
{
    let b = att16_bytes(r);
    assert(b.subrange(0, 4) =~= le32_bytes(r.user_id as int));
    assert(b.subrange(4, 8) =~= le32_bytes(r.timestamp as int));
    assert(b.subrange(10, 12) =~= le16_bytes(r.reserved as int));
    assert(b.subrange(12, 16) =~= le32_bytes(r.workcode as int));
    lemma_le32_at(b, 0, r.user_id as int);
    lemma_le32_at(b, 4, r.timestamp as int);
    lemma_le16_at(b, 10, r.reserved as int);
    lemma_le32_at(b, 12, r.workcode as int);
}

/// Reading back a written 40-byte attendance record gives the record.
pub proof fn lemma_att40_round_trip(r: AttRecord40, s: AttRecord40)
    requires
        att40_wf(r),
        att40_at(att40_bytes(r), s),
    ensures
        att40_eq(s, r),
{
    let b = att40_bytes(r);
    assert(b.subrange(0, 2) =~= le16_bytes(r.uid as int));
    assert(b.subrange(2, 26) =~= r.user_id@);
    assert(b.subrange(27, 31) =~= le32_bytes(r.timestamp as int));
    assert(b.subrange(32, 40) =~= r.spare@);
    lemma_le16_at(b, 0, r.uid as int);
    lemma_le32_at(b, 27, r.timestamp as int);
}

} // verus!
