//! The decisions of a bulk transfer of the user directory or attendance log:
//! the request, which of the device's answers leads where, the chunk plan and
//! the assembly of the received bytes. The caller performs the reads and
//! writes and hands each answer back.
use vstd::prelude::*;

use crate::bytes::{copy_range, le16, le16_bytes, le32, le32_bytes, push_all, push_u16, push_u32, read_u16, read_u32};
use crate::codec::{magic_ok, FRAME_MAGIC_1, FRAME_MAGIC_2};
use crate::commands::{CMD_ACK_OK, CMD_DATA, CMD_PREPARE_DATA};
use crate::error::ZkError;

verus! {

/// The most bytes a device sends for one chunk request.
pub const MAX_CHUNK: u32 = 0xFFC0;

/// The largest transfer accepted: sizes from this on are refused.
pub const MAX_TRANSFER: u32 = 104_857_600;

/// Packets read at most while waiting for a delayed answer.
pub const DRAIN_PACKETS: u32 = 25;

/// Milliseconds spent at most waiting for a delayed answer.
pub const DRAIN_MILLIS: u64 = 35_000;

/// The payload of `CMD_DATA_WRRQ`: flag 1, the inner command as a 16-bit
/// value, the function selector and four zero bytes.
pub open spec fn data_request_bytes(inner: u16, fct: u32) -> Seq<u8> {
    seq![1u8] + le16_bytes(inner as int) + le32_bytes(fct as int) + le32_bytes(0)
}

/// The payload of `CMD_DATA_RDY`: start offset and length.
pub open spec fn chunk_request_bytes(start: u32, len: u32) -> Seq<u8> {
    le32_bytes(start as int) + le32_bytes(len as int)
}

/// The first step after the answer to the data request.
#[derive(Debug, Clone, Copy, PartialEq, Eq, Structural)]
pub enum BulkStart {
    /// `CMD_DATA`: the payload is the whole blob.
    Complete,
    /// `CMD_ACK_OK` with fewer than 5 bytes and no announcing frame after
    /// it: the device answers later; read further packets.
    Drain,
    /// Any other answer: decide the transfer from it.
    Proceed,
}

/// What a packet read while waiting for a delayed answer leads to.
#[derive(Debug, Clone, Copy, PartialEq, Eq, Structural)]
pub enum DrainStep {
    /// `CMD_DATA`: the payload is the whole blob.
    Complete,
    /// `CMD_PREPARE_DATA`, or `CMD_ACK_OK` with a size: decide the transfer.
    Proceed,
    /// Anything else: keep reading.
    Continue,
}

/// How the blob is transferred.
#[derive(Debug, Clone, Copy, PartialEq, Eq, Structural)]
pub enum Transfer {
    /// Read `CMD_DATA` packets until this many bytes or `CMD_ACK_OK`.
    Streamed(u32),
    /// Request chunks of this total size; where a reply id is given, the
    /// session takes it first.
    Chunked(u32, Option<u16>),
    /// Nothing to read; where the flag is set, free the device buffer.
    Nothing(bool),
}

/// What the answer to one chunk request leads to.
#[derive(Debug, Clone, Copy, PartialEq, Eq, Structural)]
pub enum ChunkStep {
    /// `CMD_DATA`: the payload is chunk data; read this many more bytes
    /// straight from the stream, then look for a trailing acknowledgement.
    Data(u32),
    /// `CMD_ACK_OK`: the data follows in the next frame.
    AwaitNext,
    /// `CMD_PREPARE_DATA`: collect `CMD_DATA` packets up to this many bytes.
    Stream(u32),
    /// The transfer failed.
    Fail(ZkError),
}

/// What the frame after an acknowledged chunk request leads to.
#[derive(Debug, Clone, Copy, PartialEq, Eq, Structural)]
pub enum FollowStep {
    /// `CMD_DATA` with data: read this many more bytes straight from the stream.
    Data(u32),
    /// `CMD_PREPARE_DATA`: collect `CMD_DATA` packets up to this many bytes.
    Stream(u32),
    /// The chunk is empty.
    Empty,
}

/// What the answer to a plain read command leads to.
#[derive(Debug, Clone, Copy, PartialEq, Eq, Structural)]
pub enum SimpleRead {
    /// The payload is the data.
    Complete,
    /// Read `CMD_DATA` packets until this many bytes or `CMD_ACK_OK`.
    Streamed(u32),
    /// No data.
    Nothing,
}

/// A frame in `rest`, the bytes that came after the first answer, that
/// announces a chunked transfer: its payload bytes 1..5 hold a non-zero size.
pub open spec fn announces(rest: Seq<u8>) -> bool {
    rest.len() >= 21 && magic_ok(rest) && le32(rest, 17) > 0
}

/// The first step after the answer `command` with a payload of that length,
/// where `rest` holds the bytes that came after it in the same read.
pub open spec fn start_of(command: u16, payload_len: int, rest: Seq<u8>) -> BulkStart {
    if command == CMD_DATA {
        BulkStart::Complete
    } else if command == CMD_ACK_OK && payload_len < 5 && !announces(rest) {
        BulkStart::Drain
    } else {
        BulkStart::Proceed
    }
}

/// What a packet read while waiting leads to.
pub open spec fn drain_of(command: u16, payload_len: int) -> DrainStep {
    if command == CMD_DATA {
        DrainStep::Complete
    } else if command == CMD_PREPARE_DATA || (command == CMD_ACK_OK && payload_len >= 5) {
        DrainStep::Proceed
    } else {
        DrainStep::Continue
    }
}

/// A transfer size that is accepted.
pub open spec fn size_ok(size: int) -> bool {
    0 < size < MAX_TRANSFER
}

/// A streamed size: accepted below the limit, refused from it on.
pub open spec fn streamed(size: int) -> Result<Transfer, ZkError> {
    if size < MAX_TRANSFER { Ok(Transfer::Streamed(size as u32)) } else { Err(ZkError::TooLarge(size as u32)) }
}

/// A chunked size, with the reply id to take first: accepted below the
/// limit, refused from it on.
pub open spec fn chunked(size: int, reply_id: Option<u16>) -> Result<Transfer, ZkError> {
    if size < MAX_TRANSFER { Ok(Transfer::Chunked(size as u32, reply_id)) } else { Err(ZkError::TooLarge(size as u32)) }
}

/// The transfer announced by the answer `command` with payload `p`, where
/// `rest` holds any frame that arrived after it: `CMD_PREPARE_DATA` gives a
/// streamed size in its first four bytes; otherwise payload bytes 1..5 give a
/// chunked size; otherwise a second frame in `rest` gives the size in bytes
/// 1..5 of its own payload, and its reply id. A size of `MAX_TRANSFER` or
/// more is refused; a zero size announces nothing.
pub open spec fn transfer_of(command: u16, p: Seq<u8>, rest: Seq<u8>) -> Result<Transfer, ZkError> {
    if command == CMD_PREPARE_DATA {
        if p.len() >= 4 && le32(p, 0) > 0 { streamed(le32(p, 0)) } else { Ok(Transfer::Nothing(false)) }
    } else if p.len() >= 5 && le32(p, 1) > 0 {
        chunked(le32(p, 1), None)
    } else if announces(rest) {
        chunked(le32(rest, 17), Some(le16(rest, 14) as u16))
    } else {
        Ok(Transfer::Nothing(true))
    }
}

/// What the answer to a chunk request for `want` bytes leads to: data with
/// the count still missing, a following frame, a stream, or a failure.
pub open spec fn chunk_step_of(command: u16, p: Seq<u8>, want: u32) -> ChunkStep {
    if command == CMD_ACK_OK {
        ChunkStep::AwaitNext
    } else if command == CMD_DATA {
        ChunkStep::Data(if p.len() < want { (want - p.len()) as u32 } else { 0 })
    } else if command == CMD_PREPARE_DATA {
        if p.len() < 4 { ChunkStep::Fail(ZkError::MissingSize) } else { ChunkStep::Stream(le32(p, 0) as u32) }
    } else {
        ChunkStep::Fail(ZkError::UnexpectedCommand(command))
    }
}

/// What the frame after an acknowledged chunk request leads to.
pub open spec fn follow_step_of(command: u16, p: Seq<u8>, want: u32) -> FollowStep {
    if command == CMD_DATA && p.len() > 0 {
        FollowStep::Data(if p.len() < want { (want - p.len()) as u32 } else { 0 })
    } else if command == CMD_PREPARE_DATA {
        FollowStep::Stream(if p.len() >= 4 { le32(p, 0) as u32 } else { want })
    } else {
        FollowStep::Empty
    }
}

/// What the answer to a plain read command leads to; a streamed size of
/// `MAX_TRANSFER` or more is refused.
pub open spec fn simple_read_of(command: u16, p: Seq<u8>) -> Result<SimpleRead, ZkError> {
    if command == CMD_DATA {
        Ok(SimpleRead::Complete)
    } else if command == CMD_PREPARE_DATA {
        if p.len() >= 4 && le32(p, 0) > 0 {
            if le32(p, 0) < MAX_TRANSFER {
                Ok(SimpleRead::Streamed(le32(p, 0) as u32))
            } else {
                Err(ZkError::TooLarge(le32(p, 0) as u32))
            }
        } else {
            Ok(SimpleRead::Nothing)
        }
    } else if command == CMD_ACK_OK && p.len() > 0 {
        Ok(SimpleRead::Complete)
    } else {
        Ok(SimpleRead::Nothing)
    }
}

/// The chunks of a transfer of `size` bytes in pieces of at most `max`: full
/// chunks, then the remainder where there is one, as (start, length).
pub open spec fn chunk_spans(size: u32, max: u32) -> Seq<(u32, u32)> {
    let full = size / max;
    let rest = size % max;
    Seq::new(
        (full + if rest > 0 { 1int } else { 0int }) as nat,
        |k: int| if k < full { ((k * max) as u32, max) } else { ((full * max) as u32, rest as u32) },
    )
}

/// The bytes kept of each chunk's reply: at most its requested length.
pub open spec fn assembled(received: Seq<Seq<u8>>, spans: Seq<(u32, u32)>) -> Seq<u8>
    decreases received.len(),
{
    if received.len() == 0 || spans.len() < received.len() {
        Seq::empty()
    } else {
        let k = received.len() - 1;
        let want = spans[k].1 as int;
        let r = received[k];
        assembled(received.drop_last(), spans) + r.subrange(0, if r.len() < want { r.len() as int } else { want })
    }
}

/// The payload of the data request for `inner` with function selector `fct`.
pub fn data_request(inner: u16, fct: u32) -> (r: Vec<u8>)
    ensures
        r@ == data_request_bytes(inner, fct),
{
    let mut r: Vec<u8> = Vec::new();
    r.push(1u8);
    push_u16(&mut r, inner);
    push_u32(&mut r, fct);
    push_u32(&mut r, 0);
    assert(r@ =~= data_request_bytes(inner, fct));
    r
}

/// The payload of a chunk request.
pub fn chunk_request(start: u32, len: u32) -> (r: Vec<u8>)
    ensures
        r@ == chunk_request_bytes(start, len),
{
    let mut r: Vec<u8> = Vec::new();
    push_u32(&mut r, start);
    push_u32(&mut r, len);
    assert(r@ =~= chunk_request_bytes(start, len));
    r
}

/// Whether a frame in `rest` announces a chunked transfer.
pub fn announces_transfer(rest: &[u8]) -> (r: bool)
    ensures
        r == announces(rest@),
{
    rest.len() >= 21 && read_u16(rest, 0) == FRAME_MAGIC_1 && read_u16(rest, 2) == FRAME_MAGIC_2 && read_u32(rest, 17) > 0
}

/// The first step after the answer to the data request, given the bytes that
/// came after it in the same read.
pub fn bulk_start(command: u16, payload: &[u8], rest: &[u8]) -> (r: BulkStart)
    ensures
        r == start_of(command, payload@.len() as int, rest@),
{
    if command == CMD_DATA {
        BulkStart::Complete
    } else if command == CMD_ACK_OK && payload.len() < 5 && !announces_transfer(rest) {
        BulkStart::Drain
    } else {
        BulkStart::Proceed
    }
}

/// What a packet read while waiting for a delayed answer leads to.
pub fn drain_step(command: u16, payload: &[u8]) -> (r: DrainStep)
    ensures
        r == drain_of(command, payload@.len() as int),
{
    if command == CMD_DATA {
        DrainStep::Complete
    } else if command == CMD_PREPARE_DATA || (command == CMD_ACK_OK && payload.len() >= 5) {
        DrainStep::Proceed
    } else {
        DrainStep::Continue
    }
}

/// Whether the wait for a delayed answer goes on, after `seen` packets and
/// `elapsed_ms` milliseconds.
pub fn drain_continues(seen: u32, elapsed_ms: u64) -> (r: bool)
    ensures
        r == (seen < DRAIN_PACKETS && elapsed_ms < DRAIN_MILLIS),
{
    seen < DRAIN_PACKETS && elapsed_ms < DRAIN_MILLIS
}

/// The transfer announced by an answer, with the frames that came after it.
pub fn transfer_plan(command: u16, payload: &[u8], rest: &[u8]) -> (r: Result<Transfer, ZkError>)
    ensures
        r == transfer_of(command, payload@, rest@),
{
    if command == CMD_PREPARE_DATA {
        if payload.len() >= 4 {
            let size = read_u32(payload, 0);
            if size > 0 {
                return if size < MAX_TRANSFER { Ok(Transfer::Streamed(size)) } else { Err(ZkError::TooLarge(size)) };
            }
        }
        return Ok(Transfer::Nothing(false));
    }
    if payload.len() >= 5 {
        let size = read_u32(payload, 1);
        if size > 0 {
            return if size < MAX_TRANSFER { Ok(Transfer::Chunked(size, None)) } else { Err(ZkError::TooLarge(size)) };
        }
    }
    if announces_transfer(rest) {
        let size = read_u32(rest, 17);
        return if size < MAX_TRANSFER {
            Ok(Transfer::Chunked(size, Some(read_u16(rest, 14))))
        } else {
            Err(ZkError::TooLarge(size))
        };
    }
    Ok(Transfer::Nothing(true))
}

/// The chunks of a transfer of `size` bytes in pieces of at most `max`.
pub fn chunk_plan_with(size: u32, max: u32) -> (r: Vec<(u32, u32)>)
    requires
        max > 0,
    ensures
        r@ == chunk_spans(size, max),
{
    let full = size / max;
    let rest = size % max;
    let mut r: Vec<(u32, u32)> = Vec::new();
    let mut k: u32 = 0;
    while k < full
        invariant
            max > 0,
            k <= full,
            full == size / max,
            r@.len() == k,
            forall|j: int| 0 <= j < k ==> #[trigger] r@[j] == ((j * max) as u32, max),
        decreases full - k,
    {
        proof {
            assert(k * max <= size) by (nonlinear_arith)
                requires k < full, full == size / max, max > 0;
        }
        r.push((k * max, max));
        k = k + 1;
    }
    if rest > 0 {
        proof {
            assert(full * max <= size) by (nonlinear_arith)
                requires full == size / max, max > 0;
        }
        r.push((full * max, rest));
    }
    assert(r@ =~= chunk_spans(size, max));
    r
}

/// The chunks of a transfer of `size` bytes, in pieces of `MAX_CHUNK`.
pub fn chunk_plan(size: u32) -> (r: Vec<(u32, u32)>)
    ensures
        r@ == chunk_spans(size, MAX_CHUNK),
{
    chunk_plan_with(size, MAX_CHUNK)
}

/// What the answer to one chunk request for `want` bytes leads to.
pub fn chunk_step(command: u16, payload: &[u8], want: u32) -> (r: ChunkStep)
    ensures
        r == chunk_step_of(command, payload@, want),
{
    if command == CMD_ACK_OK {
        ChunkStep::AwaitNext
    } else if command == CMD_DATA {
        ChunkStep::Data(if payload.len() < want as usize { want - payload.len() as u32 } else { 0 })
    } else if command == CMD_PREPARE_DATA {
        if payload.len() < 4 {
            ChunkStep::Fail(ZkError::MissingSize)
        } else {
            ChunkStep::Stream(read_u32(payload, 0))
        }
    } else {
        ChunkStep::Fail(ZkError::UnexpectedCommand(command))
    }
}

/// What the frame after an acknowledged chunk request for `want` bytes leads to.
pub fn follow_step(command: u16, payload: &[u8], want: u32) -> (r: FollowStep)
    ensures
        r == follow_step_of(command, payload@, want),
{
    if command == CMD_DATA && payload.len() > 0 {
        FollowStep::Data(if payload.len() < want as usize { want - payload.len() as u32 } else { 0 })
    } else if command == CMD_PREPARE_DATA {
        FollowStep::Stream(if payload.len() >= 4 { read_u32(payload, 0) } else { want })
    } else {
        FollowStep::Empty
    }
}

/// What the answer to a plain read command leads to.
pub fn simple_read_step(command: u16, payload: &[u8]) -> (r: Result<SimpleRead, ZkError>)
    ensures
        r == simple_read_of(command, payload@),
{
    if command == CMD_DATA {
        Ok(SimpleRead::Complete)
    } else if command == CMD_PREPARE_DATA {
        if payload.len() >= 4 {
            let size = read_u32(payload, 0);
            if size > 0 {
                return if size < MAX_TRANSFER { Ok(SimpleRead::Streamed(size)) } else { Err(ZkError::TooLarge(size)) };
            }
        }
        Ok(SimpleRead::Nothing)
    } else if command == CMD_ACK_OK && payload.len() > 0 {
        Ok(SimpleRead::Complete)
    } else {
        Ok(SimpleRead::Nothing)
    }
}

/// Whether a frame after chunk data, of this inner length, is read as the
/// trailing acknowledgement.
pub fn trailing_ack_fits(len: u32) -> (r: bool)
    ensures
        r == (0 < len <= 64),
{
    0 < len && len <= 64
}

/// Whether the attendance log is to be asked for again in another way: the
/// last read gave fewer than 4 bytes while the device reports records.
pub fn needs_fallback(data_len: usize, expected_records: u32) -> (r: bool)
    ensures
        r == (data_len < 4 && expected_records > 0),
{
    data_len < 4 && expected_records > 0
}

/// The function selector of the `attempt`-th buffered read of the attendance
/// log: 0, then 1.
pub fn attendance_fct(attempt: u32) -> (r: Option<u32>)
    ensures
        attempt == 0 ==> r == Some(0u32),
        attempt == 1 ==> r == Some(1u32),
        attempt > 1 ==> r is None,
{
    if attempt == 0 {
        Some(0)
    } else if attempt == 1 {
        Some(1)
    } else {
        None
    }
}

/// The bytes of the answer to a chunk request that are kept: at most `want`.
pub fn keep_chunk(data: &[u8], want: u32) -> (r: Vec<u8>)
    ensures
        r@ == data@.subrange(0, if data@.len() < want { data@.len() as int } else { want as int }),
{
    let n: usize = if data.len() < want as usize { data.len() } else { want as usize };
    copy_range(data, 0, n)
}

/// Collects the `CMD_DATA` packets of a streamed transfer until `target`
/// bytes or another command arrived.
pub struct StreamCollector {
    pub data: Vec<u8>,
    pub target: u32,
    pub done: bool,
}

impl StreamCollector {
    /// A collector for a transfer of `target` bytes.
    pub fn new(target: u32) -> (c: StreamCollector)
        ensures
            c.data@.len() == 0,
            c.target == target,
            !c.done,
    {
        StreamCollector { data: Vec::new(), target, done: false }
    }

    /// Whether another packet is to be read: no other command has ended the
    /// transfer and fewer than `target` bytes have come.
    pub fn wants_more(&self) -> (r: bool)
        ensures
            r == (!self.done && self.data@.len() < self.target),
    {
        !self.done && self.data.len() < self.target as usize
    }

    /// Takes one received inner packet and gives back its reply id. A packet
    /// shorter than its header is refused and changes nothing; `CMD_DATA` adds
    /// its whole payload; any other command ends the transfer.
    pub fn feed(&mut self, frame: &[u8]) -> (r: Result<u16, ZkError>)
        ensures
            final(self).target == old(self).target,
            frame@.len() < 8 ==> r == Err::<u16, ZkError>(ZkError::ShortPacket)
                && final(self).data@ == old(self).data@ && final(self).done == old(self).done,
            frame@.len() >= 8 ==> r == Ok::<u16, ZkError>(le16(frame@, 6) as u16),
            frame@.len() >= 8 && le16(frame@, 0) == CMD_DATA ==>
                final(self).data@ == old(self).data@ + frame@.subrange(8, frame@.len() as int)
                && final(self).done == old(self).done,
            frame@.len() >= 8 && le16(frame@, 0) != CMD_DATA ==> final(self).data@ == old(self).data@ && final(self).done,
    {
        if frame.len() < 8 {
            return Err(ZkError::ShortPacket);
        }
        let command = read_u16(frame, 0);
        let reply_id = read_u16(frame, 6);
        if command == CMD_DATA {
            let payload = copy_range(frame, 8, frame.len());
            push_all(&mut self.data, payload.as_slice());
        } else {
            self.done = true;
        }
        Ok(reply_id)
    }
}

/// Appends the kept bytes of one chunk's reply, at most `want` of them, to the
/// bytes assembled so far.
pub fn append_chunk(all: &mut Vec<u8>, reply: &[u8], want: u32)
    ensures
        final(all)@ == old(all)@ + reply@.subrange(0, if reply@.len() < want { reply@.len() as int } else { want as int }),
{
    let kept = keep_chunk(reply, want);
    push_all(all, kept.as_slice());
}

/// Assembling chunk replies one by one with `append_chunk`, in plan order,
/// builds `assembled` of them.
pub proof fn lemma_append_chunk_assembles(received: Seq<Seq<u8>>, spans: Seq<(u32, u32)>, r: Seq<u8>)
    requires
        received.len() < spans.len(),
    ensures
        assembled(received.push(r), spans) == assembled(received, spans) + r.subrange(
            0,
            if r.len() < spans[received.len() as int].1 { r.len() as int } else { spans[received.len() as int].1 as int },
        ),
{
    assert(received.push(r).drop_last() =~= received);
}

/// Whether to ask the next fallback source after `answer`: where the answer is
/// empty and source `index` of `count` exists, ask it; a non-empty answer is
/// the one kept.
pub fn fallback_step(answer: &String, index: usize, count: usize) -> (r: Option<usize>)
    ensures
        answer@.len() > 0 ==> r is None,
        answer@.len() == 0 && index < count ==> r == Some(index),
        answer@.len() == 0 && index >= count ==> r is None,
{
    if answer.as_str().unicode_len() > 0 {
        None
    } else if index < count {
        Some(index)
    } else {
        None
    }
}

proof fn lemma_assembled_prefix(size: u32, max: u32, source: Seq<u8>, received: Seq<Seq<u8>>, k: int)
    requires
        max > 0,
        source.len() == size,
        received.len() == chunk_spans(size, max).len(),
        forall|j: int| 0 <= j < received.len() ==> #[trigger] received[j].len() >= chunk_spans(size, max)[j].1
            && received[j].subrange(0, chunk_spans(size, max)[j].1 as int)
                == source.subrange(chunk_spans(size, max)[j].0 as int, chunk_spans(size, max)[j].0 + chunk_spans(size, max)[j].1),
        0 <= k <= received.len(),
    ensures
        assembled(received.subrange(0, k), chunk_spans(size, max))
            == source.subrange(0, if k <= size / max { k * max } else { size as int }),
    decreases k,
{
    let s = chunk_spans(size, max);
    let full = size / max;
    assert(full * max <= size) by (nonlinear_arith)
        requires full == size / max, max > 0;
    if k == 0 {
        assert(source.subrange(0, 0) =~= Seq::<u8>::empty());
    } else {
        let j = k - 1;
        lemma_assembled_prefix(size, max, source, received, j);
        let pre = received.subrange(0, k);
        assert(pre.drop_last() =~= received.subrange(0, j));
        assert(pre[j] == received[j]);
        let r = received[j];
        let start = if j <= full { j * max } else { size as int };
        if j < full {
            assert(j * max + max <= full * max) by (nonlinear_arith)
                requires j < full, max > 0;
            assert(s[j] == ((j * max) as u32, max));
            assert((j + 1) * max == j * max + max) by (nonlinear_arith);
            assert(source.subrange(0, j * max) + source.subrange(j * max, j * max + max) =~= source.subrange(0, (j + 1) * max));
        } else {
            assert(j == full);
            vstd::arithmetic::div_mod::lemma_fundamental_div_mod(size as int, max as int);
            assert(full * max == max * full) by (nonlinear_arith);
            assert(size as int == full * max + size % max);
            assert(s[j] == ((full * max) as u32, (size % max) as u32));
            assert(source.subrange(0, full * max) + source.subrange(full * max, full * max + size % max) =~= source.subrange(0, size as int));
        }
    }
}

/// The chunks of a transfer, for any chunk size, start at 0, each starts where
/// the one before ended, and the last ends at the transfer size; where every
/// chunk request is answered with at least the requested bytes of the
/// device's blob, the assembled transfer is that blob, in order.
pub proof fn lemma_chunks_cover(size: u32, max: u32, source: Seq<u8>, received: Seq<Seq<u8>>)
    requires
        max > 0,
        source.len() == size,
        received.len() == chunk_spans(size, max).len(),
        forall|j: int| 0 <= j < received.len() ==> #[trigger] received[j].len() >= chunk_spans(size, max)[j].1
            && received[j].subrange(0, chunk_spans(size, max)[j].1 as int)
                == source.subrange(chunk_spans(size, max)[j].0 as int, chunk_spans(size, max)[j].0 + chunk_spans(size, max)[j].1),
    ensures
        chunk_spans(size, max).len() > 0 ==> chunk_spans(size, max)[0].0 == 0,
        forall|k: int| 0 <= k < chunk_spans(size, max).len() - 1 ==>
            #[trigger] chunk_spans(size, max)[k].0 + chunk_spans(size, max)[k].1 == chunk_spans(size, max)[k + 1].0,
        chunk_spans(size, max).len() > 0 ==> chunk_spans(size, max).last().0 + chunk_spans(size, max).last().1 == size,
        assembled(received, chunk_spans(size, max)) == source,
{
    let s = chunk_spans(size, max);
    let full = size / max;
    assert(full * max <= size) by (nonlinear_arith)
        requires full == size / max, max > 0;
    vstd::arithmetic::div_mod::lemma_fundamental_div_mod(size as int, max as int);
    assert(full * max == max * full) by (nonlinear_arith);
    assert(size as int == full * max + size % max);
    assert forall|k: int| 0 <= k < s.len() - 1 implies #[trigger] s[k].0 + s[k].1 == s[k + 1].0 by {
        assert(k < full);
        assert(k * max + max == (k + 1) * max) by (nonlinear_arith);
        assert((k + 1) * max <= full * max) by (nonlinear_arith)
            requires k + 1 <= full, max > 0;
    }
    if s.len() > 0 {
        let k = s.len() - 1;
        if k < full {
            assert(size % max == 0);
            assert(k == full - 1);
            assert(k * max + max == full * max) by (nonlinear_arith)
                requires k == full - 1;
        }
    }
    lemma_assembled_prefix(size, max, source, received, received.len() as int);
    assert(received.subrange(0, received.len() as int) =~= received);
    if (received.len() as int) <= full {
        assert(size % max == 0);
        assert(received.len() == full);
    }
    assert(source.subrange(0, size as int) =~= source);
}

} // verus!
