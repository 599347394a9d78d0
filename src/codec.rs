//! The two framing layers: the 8-byte outer TCP frame and the inner
//! protocol packet with its 16-bit checksum.
use vstd::prelude::*;

use crate::bytes::{copy_range, le16, le16_bytes, le32, le32_bytes, push_all, push_u16, push_u32, read_u16, read_u32};
use crate::bytes::{lemma_le16_round_trip, lemma_le32_round_trip};
use crate::error::ZkError;

verus! {

/// First magic word of the outer frame.
pub const FRAME_MAGIC_1: u16 = 0x5050;

/// Second magic word of the outer frame.
pub const FRAME_MAGIC_2: u16 = 0x7D82;

/// One addition of the running checksum: add the word, and if the sum passes
/// `USHRT_MAX`, take `USHRT_MAX` off.
pub open spec fn fold_word(acc: int, w: int) -> int {
    if acc + w > 65535 { acc + w - 65535 } else { acc + w }
}

/// The running checksum after the first `k` little-endian words of `b`.
pub open spec fn word_sum(b: Seq<u8>, k: nat) -> int
    decreases k,
{
    if k == 0 { 0 } else { fold_word(word_sum(b, (k - 1) as nat), le16(b, 2 * (k - 1))) }
}

/// The running checksum after all words, the trailing odd byte, and the last reduction.
pub open spec fn folded_sum(b: Seq<u8>) -> int {
    let w = word_sum(b, b.len() / 2);
    let s = if b.len() % 2 == 1 { w + b[b.len() - 1] as int } else { w };
    if s > 65535 { s - 65535 } else { s }
}

/// Bitwise NOT of `s` on a signed 32-bit accumulator (`-s - 1`), with
/// `USHRT_MAX` added while the value is negative.
pub open spec fn complement(s: int) -> int {
    let n = -s - 1;
    if n + 65535 < 0 { n + 2 * 65535 } else { n + 65535 }
}

/// The protocol checksum of `b`.
#[verifier::opaque]
pub open spec fn checksum_of(b: Seq<u8>) -> int {
    complement(folded_sum(b))
}

/// The inner packet with its four header fields and payload.
pub open spec fn packet_bytes(command: int, checksum: int, session_id: int, reply_id: int, payload: Seq<u8>) -> Seq<u8> {
    le16_bytes(command) + le16_bytes(checksum) + le16_bytes(session_id) + le16_bytes(reply_id) + payload
}

/// `p` with its checksum field set to zero.
pub open spec fn zero_checksum(p: Seq<u8>) -> Seq<u8> {
    p.update(2, 0u8).update(3, 0u8)
}

/// `p` with its checksum field holding the checksum of `zero_checksum(p)`.
pub open spec fn with_checksum(p: Seq<u8>) -> Seq<u8> {
    let c = le16_bytes(checksum_of(zero_checksum(p)));
    p.update(2, c[0]).update(3, c[1])
}

/// A packet that a receiver accepts: long enough for the header, and its
/// checksum field is the checksum of the packet with that field zeroed.
pub open spec fn checksum_valid(p: Seq<u8>) -> bool {
    p.len() >= 8 && le16(p, 2) == checksum_of(zero_checksum(p))
}

/// The packet that is sent for a command: the checksum is computed over the
/// packet as sent, with the checksum field zeroed.
pub open spec fn sealed_packet(command: u16, session_id: u16, reply_id: u16, payload: Seq<u8>) -> Seq<u8> {
    packet_bytes(
        command as int,
        checksum_of(packet_bytes(command as int, 0, session_id as int, reply_id as int, payload)),
        session_id as int,
        reply_id as int,
        payload,
    )
}

/// The packet that a session sends: the checksum is computed with the
/// session's current reply id in place, and the packet then carries the next
/// reply id.
pub open spec fn header_packet(command: u16, session_id: u16, current: u16, next: u16, payload: Seq<u8>) -> Seq<u8> {
    packet_bytes(
        command as int,
        checksum_of(packet_bytes(command as int, 0, session_id as int, current as int, payload)),
        session_id as int,
        next as int,
        payload,
    )
}

/// The outer frame around an inner packet.
pub open spec fn frame_bytes(packet: Seq<u8>) -> Seq<u8> {
    le16_bytes(FRAME_MAGIC_1 as int) + le16_bytes(FRAME_MAGIC_2 as int) + le32_bytes(packet.len() as int) + packet
}

/// An 8-byte outer frame header whose magic words are right.
pub open spec fn magic_ok(h: Seq<u8>) -> bool {
    le16(h, 0) == FRAME_MAGIC_1 as int && le16(h, 2) == FRAME_MAGIC_2 as int
}

/// A decoded inner packet.
pub struct Packet {
    pub command: u16,
    pub checksum: u16,
    pub session_id: u16,
    pub reply_id: u16,
    pub payload: Vec<u8>,
}

/// `pk` holds the fields of the inner packet `p`.
pub open spec fn decodes_to(p: Seq<u8>, pk: Packet) -> bool {
    &&& pk.command as int == le16(p, 0)
    &&& pk.checksum as int == le16(p, 2)
    &&& pk.session_id as int == le16(p, 4)
    &&& pk.reply_id as int == le16(p, 6)
    &&& pk.payload@ == p.subrange(8, p.len() as int)
}

proof fn lemma_word_sum_bound(b: Seq<u8>, k: nat)
    requires
        2 * k <= b.len(),
    ensures
        0 <= word_sum(b, k) <= 65535,
    decreases k,
{
    if k > 0 {
        lemma_word_sum_bound(b, (k - 1) as nat);
    }
}

/// Computes the protocol checksum: little-endian words are summed with
/// `USHRT_MAX` taken off whenever the sum passes it, a trailing odd byte is
/// added, and the complement is brought into range.
pub fn calc_checksum(data: &[u8]) -> (r: u16)
    ensures
        r as int == checksum_of(data@),
{
    let mut checksum: i32 = 0;
    let mut i: usize = 0;
    while i + 1 < data.len()
        invariant
            i % 2 == 0,
            i <= data@.len(),
            checksum as int == word_sum(data@, (i / 2) as nat),
            0 <= checksum <= 65535,
        decreases data@.len() - i,
    {
        let val = read_u16(data, i) as i32;
        proof {
            assert(((i + 2) / 2) as nat == ((i / 2) + 1) as nat);
        }
        checksum = checksum + val;
        if checksum > 65535 {
            checksum = checksum - 65535;
        }
        i = i + 2;
    }
    assert(i / 2 == data@.len() / 2);
    if i < data.len() {
        checksum = checksum + data[i] as i32;
    }
    let ghost s0 = checksum as int;
    while checksum > 65535
        invariant
            checksum == s0 || (s0 > 65535 && checksum == s0 - 65535),
            0 <= s0 <= 65535 + 255,
        decreases checksum,
    {
        checksum = checksum - 65535;
    }
    assert(checksum == folded_sum(data@));
    checksum = -checksum - 1;
    let ghost n0 = checksum as int;
    while checksum < 0
        invariant
            -65536 <= n0 <= -1,
            checksum == n0 || (checksum == n0 + 65535) || (n0 + 65535 < 0 && checksum == n0 + 2 * 65535),
        decreases 2 * 65535 - (checksum - n0),
    {
        checksum = checksum + 65535;
    }
    proof {
        reveal(checksum_of);
    }
    checksum as u16
}

/// Builds the packet a session sends: the checksum covers the packet holding
/// the `current` reply id, and the packet carries `next`.
pub fn encode_header(command: u16, session_id: u16, current: u16, next: u16, payload: &[u8]) -> (r: Vec<u8>)
    ensures
        r@ == header_packet(command, session_id, current, next, payload@),
{
    let mut buf: Vec<u8> = Vec::new();
    push_u16(&mut buf, command);
    push_u16(&mut buf, 0);
    push_u16(&mut buf, session_id);
    push_u16(&mut buf, current);
    push_all(&mut buf, payload);
    assert(buf@ =~= packet_bytes(command as int, 0, session_id as int, current as int, payload@));
    let checksum = calc_checksum(buf.as_slice());
    let mut out: Vec<u8> = Vec::new();
    push_u16(&mut out, command);
    push_u16(&mut out, checksum);
    push_u16(&mut out, session_id);
    push_u16(&mut out, next);
    push_all(&mut out, payload);
    assert(out@ =~= header_packet(command, session_id, current, next, payload@));
    out
}

/// Builds the inner packet for a command, checksum included.
pub fn encode_packet(command: u16, session_id: u16, reply_id: u16, payload: &[u8]) -> (r: Vec<u8>)
    ensures
        r@ == sealed_packet(command, session_id, reply_id, payload@),
{
    let mut buf: Vec<u8> = Vec::new();
    push_u16(&mut buf, command);
    push_u16(&mut buf, 0);
    push_u16(&mut buf, session_id);
    push_u16(&mut buf, reply_id);
    push_all(&mut buf, payload);
    assert(buf@ =~= packet_bytes(command as int, 0, session_id as int, reply_id as int, payload@));
    let checksum = calc_checksum(buf.as_slice());
    let mut out: Vec<u8> = Vec::new();
    push_u16(&mut out, command);
    push_u16(&mut out, checksum);
    push_u16(&mut out, session_id);
    push_u16(&mut out, reply_id);
    push_all(&mut out, payload);
    assert(out@ =~= sealed_packet(command, session_id, reply_id, payload@));
    out
}

/// Tells whether a received inner packet carries a valid checksum.
pub fn verify_checksum(p: &[u8]) -> (r: bool)
    ensures
        r == checksum_valid(p@),
{
    if p.len() < 8 {
        return false;
    }
    let stated = read_u16(p, 2);
    let mut zeroed = copy_range(p, 0, p.len());
    zeroed.set(2, 0);
    zeroed.set(3, 0);
    assert(zeroed@ =~= zero_checksum(p@));
    stated == calc_checksum(zeroed.as_slice())
}

/// Wraps an inner packet in the outer frame.
pub fn encode_frame(packet: &[u8]) -> (r: Vec<u8>)
    requires
        packet@.len() <= u32::MAX,
    ensures
        r@ == frame_bytes(packet@),
{
    let mut top: Vec<u8> = Vec::new();
    push_u16(&mut top, FRAME_MAGIC_1);
    push_u16(&mut top, FRAME_MAGIC_2);
    push_u32(&mut top, packet.len() as u32);
    push_all(&mut top, packet);
    assert(top@ =~= frame_bytes(packet@));
    top
}

/// Checks an 8-byte outer frame header and returns the length of the inner
/// packet that follows it.
pub fn parse_frame_header(h: &[u8]) -> (r: Result<u32, ZkError>)
    requires
        h@.len() >= 8,
    ensures
        magic_ok(h@) ==> r == Ok::<u32, ZkError>(le32(h@, 4) as u32),
        !magic_ok(h@) ==> r == Err::<u32, ZkError>(ZkError::BadMagic),
{
    let m1 = read_u16(h, 0);
    let m2 = read_u16(h, 2);
    if m1 != FRAME_MAGIC_1 || m2 != FRAME_MAGIC_2 {
        return Err(ZkError::BadMagic);
    }
    Ok(read_u32(h, 4))
}

/// Decodes an inner packet; one shorter than its 8-byte header is refused.
pub fn parse_packet(p: &[u8]) -> (r: Result<Packet, ZkError>)
    ensures
        p@.len() < 8 ==> r == Err::<Packet, ZkError>(ZkError::ShortPacket),
        p@.len() >= 8 ==> (r is Ok && decodes_to(p@, r->Ok_0)),
{
    if p.len() < 8 {
        return Err(ZkError::ShortPacket);
    }
    Ok(Packet {
        command: read_u16(p, 0),
        checksum: read_u16(p, 2),
        session_id: read_u16(p, 4),
        reply_id: read_u16(p, 6),
        payload: copy_range(p, 8, p.len()),
    })
}

/// The first frame of a buffer read in one piece.
pub struct LeadingFrame {
    /// The frame's packet, as far as the buffer holds it.
    pub packet: Packet,
    /// Payload bytes of the packet that the buffer does not hold yet.
    pub missing: u32,
    /// The bytes after the frame: further frames that came with it.
    pub rest: Vec<u8>,
}

/// Where the first frame of `buf` ends: 8 header bytes plus its inner length.
pub open spec fn leading_end(buf: Seq<u8>) -> int {
    8 + le32(buf, 4)
}

/// How much of the first frame `buf` holds.
pub open spec fn leading_have(buf: Seq<u8>) -> int {
    if leading_end(buf) < buf.len() { leading_end(buf) } else { buf.len() as int }
}

/// Decodes the first frame of a buffer read in one piece. The packet ends
/// where the frame's length field says; bytes past it are handed back as the
/// rest, and payload bytes past the buffer are counted as missing.
pub fn parse_leading_frame(buf: &[u8]) -> (r: Result<LeadingFrame, ZkError>)
    ensures
        buf@.len() < 16 ==> r == Err::<LeadingFrame, ZkError>(ZkError::ShortPacket),
        buf@.len() >= 16 && !magic_ok(buf@) ==> r == Err::<LeadingFrame, ZkError>(ZkError::BadMagic),
        buf@.len() >= 16 && magic_ok(buf@) && le32(buf@, 4) < 8 ==> r == Err::<LeadingFrame, ZkError>(ZkError::ShortPacket),
        buf@.len() >= 16 && magic_ok(buf@) && le32(buf@, 4) >= 8 ==> r is Ok
            && decodes_to(buf@.subrange(8, leading_have(buf@)), r->Ok_0.packet)
            && r->Ok_0.missing as int == leading_end(buf@) - leading_have(buf@)
            && r->Ok_0.rest@ == buf@.subrange(leading_have(buf@), buf@.len() as int),
{
    if buf.len() < 16 {
        return Err(ZkError::ShortPacket);
    }
    let len = match parse_frame_header(buf) {
        Err(e) => return Err(e),
        Ok(l) => l,
    };
    if len < 8 {
        return Err(ZkError::ShortPacket);
    }
    let end: u64 = 8 + len as u64;
    let have: usize = if end < buf.len() as u64 { end as usize } else { buf.len() };
    let missing: u32 = (end - have as u64) as u32;
    let inner = copy_range(buf, 8, have);
    let rest = copy_range(buf, have, buf.len());
    match parse_packet(inner.as_slice()) {
        Err(e) => Err(e),
        Ok(packet) => Ok(LeadingFrame { packet, missing, rest }),
    }
}

/// Placing the checksum of a packet, computed with the checksum field zeroed,
/// into that field yields a packet that the receiver's check accepts.
pub proof fn lemma_checksum_accepts(b: Seq<u8>)
    requires
        b.len() >= 8,
    ensures
        checksum_valid(with_checksum(b)),
{
    let c = checksum_of(zero_checksum(b));
    let w = with_checksum(b);
    assert(zero_checksum(w) =~= zero_checksum(b));
    lemma_checksum_range(zero_checksum(b));
    lemma_le16_round_trip(c);
}

/// Every packet built for sending carries the checksum that the receiver's
/// check accepts.
pub proof fn lemma_sealed_packet_valid(command: u16, session_id: u16, reply_id: u16, payload: Seq<u8>)
    ensures
        checksum_valid(sealed_packet(command, session_id, reply_id, payload)),
{
    let zero = packet_bytes(command as int, 0, session_id as int, reply_id as int, payload);
    let p = sealed_packet(command, session_id, reply_id, payload);
    assert(zero_checksum(p) =~= zero);
    lemma_checksum_range(zero);
    lemma_le16_round_trip(checksum_of(zero));
    assert(le16(p, 2) == le16(le16_bytes(checksum_of(zero)), 0));
}

/// A frame built around a packet decodes back to that packet's length.
pub proof fn lemma_frame_header_round_trip(packet: Seq<u8>)
    requires
        packet.len() <= u32::MAX,
    ensures
        magic_ok(frame_bytes(packet)),
        le32(frame_bytes(packet), 4) == packet.len(),
        frame_bytes(packet).subrange(8, frame_bytes(packet).len() as int) == packet,
{
    let f = frame_bytes(packet);
    lemma_le16_round_trip(FRAME_MAGIC_1 as int);
    lemma_le16_round_trip(FRAME_MAGIC_2 as int);
    lemma_le32_round_trip(packet.len() as int);
    let l = le32_bytes(packet.len() as int);
    assert(f[4] == l[0] && f[5] == l[1] && f[6] == l[2] && f[7] == l[3]);
    assert(le32(f, 4) == le32(l, 0));
    assert(f.subrange(8, f.len() as int) =~= packet);
}

/// The header fields of a sealed packet read back as built.
pub proof fn lemma_sealed_fields(command: u16, session_id: u16, reply_id: u16, payload: Seq<u8>)
    ensures
        le16(sealed_packet(command, session_id, reply_id, payload), 0) == command,
        le16(sealed_packet(command, session_id, reply_id, payload), 4) == session_id,
        le16(sealed_packet(command, session_id, reply_id, payload), 6) == reply_id,
        sealed_packet(command, session_id, reply_id, payload).len() == payload.len() + 8,
        sealed_packet(command, session_id, reply_id, payload).subrange(8, payload.len() as int + 8) == payload,
{
    let p = sealed_packet(command, session_id, reply_id, payload);
    let c = le16_bytes(command as int);
    let sid = le16_bytes(session_id as int);
    let rid = le16_bytes(reply_id as int);
    lemma_le16_round_trip(command as int);
    lemma_le16_round_trip(session_id as int);
    lemma_le16_round_trip(reply_id as int);
    assert(p[0] == c[0] && p[1] == c[1]);
    assert(p[4] == sid[0] && p[5] == sid[1]);
    assert(p[6] == rid[0] && p[7] == rid[1]);
    assert(p.subrange(8, payload.len() as int + 8) =~= payload);
}

/// Byte `8 + i` of a frame is byte `i` of its packet.
pub proof fn lemma_frame_index(packet: Seq<u8>, i: int)
    requires
        0 <= i < packet.len(),
    ensures
        frame_bytes(packet)[8 + i] == packet[i],
        frame_bytes(packet).len() == packet.len() + 8,
{
}

/// The header fields of a sent packet read back as built, and its checksum
/// field holds the checksum of the packet with the current reply id.
pub proof fn lemma_header_fields(command: u16, session_id: u16, current: u16, next: u16, payload: Seq<u8>)
    ensures
        le16(header_packet(command, session_id, current, next, payload), 0) == command,
        le16(header_packet(command, session_id, current, next, payload), 2)
            == checksum_of(packet_bytes(command as int, 0, session_id as int, current as int, payload)),
        le16(header_packet(command, session_id, current, next, payload), 4) == session_id,
        le16(header_packet(command, session_id, current, next, payload), 6) == next,
        header_packet(command, session_id, current, next, payload).len() == payload.len() + 8,
        header_packet(command, session_id, current, next, payload).subrange(8, payload.len() as int + 8) == payload,
{
    let p = header_packet(command, session_id, current, next, payload);
    let cs = checksum_of(packet_bytes(command as int, 0, session_id as int, current as int, payload));
    let c = le16_bytes(command as int);
    let k = le16_bytes(cs);
    let sid = le16_bytes(session_id as int);
    let rid = le16_bytes(next as int);
    lemma_checksum_range(packet_bytes(command as int, 0, session_id as int, current as int, payload));
    lemma_le16_round_trip(command as int);
    lemma_le16_round_trip(cs);
    lemma_le16_round_trip(session_id as int);
    lemma_le16_round_trip(next as int);
    assert(p[0] == c[0] && p[1] == c[1]);
    assert(p[2] == k[0] && p[3] == k[1]);
    assert(p[4] == sid[0] && p[5] == sid[1]);
    assert(p[6] == rid[0] && p[7] == rid[1]);
    assert(p.subrange(8, payload.len() as int + 8) =~= payload);
}

proof fn lemma_checksum_range(b: Seq<u8>)
    ensures
        0 <= checksum_of(b) <= 65534,
{
    reveal(checksum_of);
    let k = b.len() / 2;
    lemma_word_sum_bound(b, k as nat);
}

} // verus!
