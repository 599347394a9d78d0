//! Session state: the session id assigned by the device, the reply-id
//! sequence, the authentication key and the handshake decisions.
use vstd::prelude::*;
use vstd::arithmetic::power2::{pow2, lemma_pow2_unfold, lemma2_to64};

use crate::bytes::{le16, le32, le32_bytes, push_u32, read_u16, read_u32};
use crate::codec::{checksum_of, decodes_to, encode_frame, encode_header, frame_bytes, header_packet, packet_bytes, parse_packet, Packet};
use crate::commands::{CMD_ACK_OK, CMD_ACK_UNAUTH, CMD_ENABLEDEVICE, CMD_EXIT};
use crate::error::ZkError;
use crate::USHRT_MAX;

verus! {

/// The reply id that follows `r`, counting modulo `USHRT_MAX`: after
/// `USHRT_MAX - 1` comes 0.
pub open spec fn next_reply(r: u16) -> u16 {
    ((r as int + 1) % 65535) as u16
}

/// The mutable state of one session.
pub struct Session {
    pub session_id: u16,
    pub reply_id: u16,
}

/// The session after a response packet: a non-zero session id is adopted,
/// and the response's reply id always is.
pub open spec fn absorbed(s: Session, pk: Packet) -> Session {
    Session {
        session_id: if pk.session_id != 0 { pk.session_id } else { s.session_id },
        reply_id: pk.reply_id,
    }
}

/// The frame that a session sends for a command: its session id and the next
/// reply id, with the checksum computed over the packet holding the current one.
pub open spec fn command_frame(s: Session, command: u16, payload: Seq<u8>) -> Seq<u8> {
    frame_bytes(header_packet(command, s.session_id, s.reply_id, next_reply(s.reply_id), payload))
}

/// What to do after the device answered the connect request.
pub enum HandshakeStep {
    /// The session is open.
    Connected,
    /// Send the authentication command with this key.
    SendAuth(Vec<u8>),
    /// The handshake failed.
    Failed(ZkError),
}

impl Session {
    /// A session before the handshake: no session id, reply id `USHRT_MAX - 1`.
    pub fn new() -> (s: Session)
        ensures
            s.session_id == 0,
            s.reply_id == USHRT_MAX - 1,
    {
        Session { session_id: 0, reply_id: USHRT_MAX - 1 }
    }

    /// The reply id that the next command carries.
    pub fn next_reply_id(&self) -> (r: u16)
        ensures
            r == next_reply(self.reply_id),
    {
        ((self.reply_id as u32 + 1) % (USHRT_MAX as u32)) as u16
    }

    /// The framed bytes to send for a command.
    pub fn encode_command(&self, command: u16, payload: &[u8]) -> (r: Vec<u8>)
        requires
            payload@.len() + 8 <= u32::MAX,
        ensures
            r@ == command_frame(*self, command, payload@),
    {
        let packet = encode_header(command, self.session_id, self.reply_id, self.next_reply_id(), payload);
        encode_frame(packet.as_slice())
    }

    /// Takes the session id and reply id of a response packet.
    pub fn absorb(&mut self, pk: &Packet)
        ensures
            *final(self) == absorbed(*old(self), *pk),
    {
        if pk.session_id != 0 {
            self.session_id = pk.session_id;
        }
        self.reply_id = pk.reply_id;
    }

    /// Takes only a reply id, as the frames of a chunk transfer and a second
    /// frame announcing a transfer give it.
    pub fn adopt_reply_id(&mut self, reply_id: u16)
        ensures
            final(self).session_id == old(self).session_id,
            final(self).reply_id == reply_id,
    {
        self.reply_id = reply_id;
    }

    /// Decodes a received inner packet and takes its sequencing fields; a
    /// packet shorter than its header is refused and leaves the session as it was.
    pub fn receive(&mut self, body: &[u8]) -> (r: Result<Packet, ZkError>)
        ensures
            body@.len() < 8 ==> r == Err::<Packet, ZkError>(ZkError::ShortPacket) && *final(self) == *old(self),
            body@.len() >= 8 ==> r is Ok && decodes_to(body@, r->Ok_0) && *final(self) == absorbed(*old(self), r->Ok_0),
    {
        match parse_packet(body) {
            Err(e) => Err(e),
            Ok(pk) => {
                self.absorb(&pk);
                Ok(pk)
            },
        }
    }

    /// Decides the next step of the handshake from the answer to the connect
    /// request. On `CMD_ACK_OK` a payload of two or more bytes gives the
    /// session id; on `CMD_ACK_UNAUTH` the key for password 0 is to be sent.
    pub fn on_connect_reply(&mut self, command: u16, payload: &[u8]) -> (r: HandshakeStep)
        ensures
            command == CMD_ACK_OK ==> r is Connected && final(self).reply_id == old(self).reply_id
                && final(self).session_id as int == (if payload@.len() >= 2 { le16(payload@, 0) } else { old(self).session_id as int }),
            command == CMD_ACK_UNAUTH ==> *final(self) == *old(self) && r is SendAuth
                && r->SendAuth_0@ == commkey_bytes(0, old(self).session_id),
            command != CMD_ACK_OK && command != CMD_ACK_UNAUTH ==> *final(self) == *old(self)
                && r == HandshakeStep::Failed(ZkError::HandshakeFailed(command)),
    {
        if command == CMD_ACK_UNAUTH {
            HandshakeStep::SendAuth(make_commkey(0, self.session_id))
        } else if command == CMD_ACK_OK {
            if payload.len() >= 2 {
                self.session_id = read_u16(payload, 0);
            }
            HandshakeStep::Connected
        } else {
            HandshakeStep::Failed(ZkError::HandshakeFailed(command))
        }
    }
}

/// The commands sent, results ignored, when a session ends: enable the
/// device again, then exit.
pub fn shutdown_commands() -> (r: Vec<u16>)
    ensures
        r@ == seq![CMD_ENABLEDEVICE, CMD_EXIT],
{
    let r: Vec<u16> = vec![CMD_ENABLEDEVICE, CMD_EXIT];
    assert(r@ =~= seq![CMD_ENABLEDEVICE, CMD_EXIT]);
    r
}

/// The outcome of the authentication command.
pub fn on_auth_reply(command: u16) -> (r: Result<(), ZkError>)
    ensures
        command == CMD_ACK_OK ==> r is Ok,
        command != CMD_ACK_OK ==> r == Err::<(), ZkError>(ZkError::AuthRejected(command)),
{
    if command == CMD_ACK_OK {
        Ok(())
    } else {
        Err(ZkError::AuthRejected(command))
    }
}

/// The low `n` bits of `p` in reverse order: bit `i` moves to bit `n - 1 - i`.
pub open spec fn bit_reverse(p: nat, n: nat) -> nat
    decreases n,
{
    if n == 0 { 0 } else { (p % 2) * pow2((n - 1) as nat) + bit_reverse(p / 2, (n - 1) as nat) }
}

/// The authentication key for a password and session id: the password's 32
/// bits reversed, plus the session id (modulo 2^32), as four little-endian
/// bytes XORed with `"ZKSO"`, the two 16-bit halves swapped, bytes 0, 1 and 3
/// XORed with 50 and byte 2 set to 50.
pub open spec fn commkey_bytes(password: u32, session_id: u16) -> Seq<u8> {
    let k = (bit_reverse(password as nat, 32) + session_id as int) % 0x1_0000_0000;
    let b = le32_bytes(k);
    let x = seq![b[0] ^ 0x5Au8, b[1] ^ 0x4Bu8, b[2] ^ 0x53u8, b[3] ^ 0x4Fu8];
    seq![x[2] ^ 50u8, x[3] ^ 50u8, 50u8, x[1] ^ 50u8]
}

proof fn lemma_bit_reverse_bound(p: nat, n: nat)
    ensures
        bit_reverse(p, n) < pow2(n),
    decreases n,
{
    if n > 0 {
        lemma_bit_reverse_bound(p / 2, (n - 1) as nat);
        lemma_pow2_unfold(n);
        let m = pow2((n - 1) as nat);
        assert((p % 2) * m <= m) by (nonlinear_arith)
            requires p % 2 <= 1;
    } else {
        lemma2_to64();
    }
}

/// Reverses the 32 bits of `key`.
fn reverse_bits(key: u32) -> (k: u32)
    ensures
        k as nat == bit_reverse(key as nat, 32),
{
    let mut k: u32 = 0;
    let mut rest: u32 = key;
    let mut i: u32 = 0;
    proof {
        lemma2_to64();
    }
    while i < 32
        invariant
            i <= 32,
            k < pow2(i as nat),
            pow2(32) == 0x1_0000_0000,
            k * pow2((32 - i) as nat) + bit_reverse(rest as nat, (32 - i) as nat) == bit_reverse(key as nat, 32),
        decreases 32 - i,
    {
        let ghost n: nat = (32 - i) as nat;
        proof {
            lemma_pow2_unfold(n);
            lemma_pow2_unfold((i + 1) as nat);
            lemma_pow2_monotone(i as nat + 1, 32);
            let m = pow2((n - 1) as nat) as int;
            assert(k * (2 * m) == (2 * k) * m) by (nonlinear_arith);
            assert((2 * k + rest % 2) * m == (2 * k) * m + (rest % 2) * m) by (nonlinear_arith);
        }
        k = 2 * k + rest % 2;
        rest = rest / 2;
        i = i + 1;
    }
    proof {
        lemma2_to64();
        assert(bit_reverse(rest as nat, 0) == 0);
        assert(k * pow2(0) == k);
    }
    k
}

proof fn lemma_pow2_monotone(a: nat, b: nat)
    requires
        a <= b,
    ensures
        pow2(a) <= pow2(b),
    decreases b - a,
{
    if a < b {
        lemma_pow2_monotone(a, (b - 1) as nat);
        lemma_pow2_unfold(b);
    }
}

/// Derives the 4-byte authentication key for a password and session id.
pub fn make_commkey(password: u32, session_id: u16) -> (r: Vec<u8>)
    ensures
        r@ == commkey_bytes(password, session_id),
{
    let k = reverse_bits(password).wrapping_add(session_id as u32);
    proof {
        lemma_bit_reverse_bound(password as nat, 32);
        lemma2_to64();
    }
    let mut kb: Vec<u8> = Vec::new();
    push_u32(&mut kb, k);
    let x0 = kb[0] ^ 0x5A;
    let x1 = kb[1] ^ 0x4B;
    let x2 = kb[2] ^ 0x53;
    let x3 = kb[3] ^ 0x4F;
    let mut r: Vec<u8> = Vec::new();
    r.push(x2 ^ 50);
    r.push(x3 ^ 50);
    r.push(50);
    r.push(x1 ^ 50);
    assert(r@ =~= commkey_bytes(password, session_id));
    r
}

/// Reads the counts that `CMD_GET_FREE_SIZES` reports: users at bytes 16..20,
/// fingerprints at 24..28 and records at 32..36. Any other answer, or one of
/// fewer than 80 bytes, gives zeros.
pub fn parse_free_sizes(command: u16, data: &[u8]) -> (r: (u32, u32, u32))
    ensures
        command == CMD_ACK_OK && data@.len() >= 80 ==> r.0 as int == le32(data@, 16)
            && r.1 as int == le32(data@, 24) && r.2 as int == le32(data@, 32),
        !(command == CMD_ACK_OK && data@.len() >= 80) ==> r == (0u32, 0u32, 0u32),
{
    if command == CMD_ACK_OK && data.len() >= 80 {
        (read_u32(data, 16), read_u32(data, 24), read_u32(data, 32))
    } else {
        (0, 0, 0)
    }
}

/// Within a session the device echoes the reply id it was sent; the session
/// then takes that id, so the next command carries the id one higher, modulo
/// `USHRT_MAX`, whatever the response's command was. The checksum of each
/// command covers the packet holding the session's current reply id.
pub proof fn lemma_reply_id_sequence(s: Session, command: u16, payload: Seq<u8>, response: Packet)
    requires
        payload.len() + 8 <= u32::MAX,
        response.reply_id == le16(command_frame(s, command, payload), 14),
    ensures
        le16(command_frame(s, command, payload), 14) as int == (s.reply_id as int + 1) % 65535,
        le16(command_frame(s, command, payload), 10)
            == checksum_of(packet_bytes(command as int, 0, s.session_id as int, s.reply_id as int, payload)),
        absorbed(s, response).reply_id == next_reply(s.reply_id),
        next_reply(absorbed(s, response).reply_id) as int == (s.reply_id as int + 2) % 65535,
{
    let r = next_reply(s.reply_id);
    let p = header_packet(command, s.session_id, s.reply_id, r, payload);
    crate::codec::lemma_header_fields(command, s.session_id, s.reply_id, r, payload);
    crate::codec::lemma_frame_index(p, 2);
    crate::codec::lemma_frame_index(p, 3);
    crate::codec::lemma_frame_index(p, 6);
    crate::codec::lemma_frame_index(p, 7);
    assert(((s.reply_id as int + 1) % 65535 + 1) % 65535 == (s.reply_id as int + 2) % 65535) by {
        vstd::arithmetic::div_mod::lemma_add_mod_noop(s.reply_id as int + 1, 1, 65535);
    }
}

} // verus!
