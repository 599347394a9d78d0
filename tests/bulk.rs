use zkattend::bulk::{
    attendance_fct, bulk_start, chunk_plan, chunk_request, chunk_step, data_request, drain_continues, drain_step, follow_step,
    keep_chunk, chunk_plan_with, append_chunk, fallback_step, needs_fallback, simple_read_step, trailing_ack_fits, transfer_plan, BulkStart, ChunkStep, DrainStep, FollowStep,
    SimpleRead, StreamCollector, Transfer, MAX_CHUNK,
};
use zkattend::codec::{encode_frame, encode_packet};
use zkattend::error::ZkError;

#[test]
fn chunk_plan_with_remainder() {
    let m = MAX_CHUNK;
    assert_eq!(chunk_plan(2 * m + 100), vec![(0, m), (m, m), (2 * m, 100)]);
}

#[test]
fn chunk_plan_exactly_divisible() {
    let m = MAX_CHUNK;
    assert_eq!(chunk_plan(3 * m), vec![(0, m), (m, m), (2 * m, m)]);
    assert_eq!(chunk_plan(0), vec![]);
    assert_eq!(chunk_plan(5), vec![(0, 5)]);
}

#[test]
fn chunks_reassemble_the_source() {
    let size = 2 * MAX_CHUNK + 100;
    let source: Vec<u8> = (0..size).map(|i| (i % 251) as u8).collect();
    let mut out = Vec::new();
    for (start, len) in chunk_plan(size) {
        let req = chunk_request(start, len);
        assert_eq!(req.len(), 8);
        let s = u32::from_le_bytes([req[0], req[1], req[2], req[3]]) as usize;
        let l = u32::from_le_bytes([req[4], req[5], req[6], req[7]]) as usize;
        let mut reply = source[s..s + l].to_vec();
        reply.extend_from_slice(&[0xEE; 3]);
        out.extend_from_slice(&keep_chunk(&reply, len));
    }
    assert_eq!(out, source);
}

#[test]
fn data_request_control_block() {
    assert_eq!(data_request(13, 1), vec![1, 13, 0, 1, 0, 0, 0, 0, 0, 0, 0]);
    assert_eq!(data_request(9, 5), vec![1, 9, 0, 5, 0, 0, 0, 0, 0, 0, 0]);
}

#[test]
fn start_of_transfer() {
    assert_eq!(bulk_start(1501, &[1, 2], &[]), BulkStart::Complete);
    assert_eq!(bulk_start(2000, &[1, 2, 3, 4], &[]), BulkStart::Drain);
    assert_eq!(bulk_start(2000, &[0, 5, 0, 0, 0], &[]), BulkStart::Proceed);
    assert_eq!(bulk_start(1500, &[], &[]), BulkStart::Proceed);
    let mut payload2 = vec![0u8];
    payload2.extend_from_slice(&300_000u32.to_le_bytes());
    let second = encode_frame(&encode_packet(2000, 1, 7, &payload2));
    assert_eq!(bulk_start(2000, &[], &second), BulkStart::Proceed);
    assert_eq!(bulk_start(2000, &[], &second[..20]), BulkStart::Drain);
}

#[test]
fn drain_decisions() {
    assert_eq!(drain_step(1501, &[]), DrainStep::Complete);
    assert_eq!(drain_step(1500, &[]), DrainStep::Proceed);
    assert_eq!(drain_step(2000, &[0, 1, 0, 0, 0]), DrainStep::Proceed);
    assert_eq!(drain_step(2000, &[0]), DrainStep::Continue);
    assert!(drain_continues(24, 34_999));
    assert!(!drain_continues(25, 0));
    assert!(!drain_continues(0, 35_000));
}

#[test]
fn transfer_plans() {
    assert_eq!(transfer_plan(1500, &[0x10, 0, 0, 0], &[]), Ok(Transfer::Streamed(16)));
    assert_eq!(transfer_plan(1500, &[0, 0, 0, 0], &[]), Ok(Transfer::Nothing(false)));
    assert_eq!(transfer_plan(1500, &[1, 2], &[]), Ok(Transfer::Nothing(false)));
    assert_eq!(transfer_plan(2000, &[0, 0x40, 0x0D, 0x03, 0], &[]), Ok(Transfer::Chunked(200_000, None)));
    assert_eq!(transfer_plan(2000, &[0, 0, 0, 0, 0], &[]), Ok(Transfer::Nothing(true)));
}

#[test]
fn transfer_size_limit() {
    let limit = 104_857_600u32.to_le_bytes();
    assert_eq!(
        transfer_plan(2000, &[0, limit[0], limit[1], limit[2], limit[3]], &[]),
        Err(ZkError::TooLarge(104_857_600))
    );
    assert_eq!(transfer_plan(1500, &limit, &[]), Err(ZkError::TooLarge(104_857_600)));
    assert_eq!(simple_read_step(1500, &limit), Err(ZkError::TooLarge(104_857_600)));
    let below = 104_857_599u32.to_le_bytes();
    assert_eq!(transfer_plan(2000, &[0, below[0], below[1], below[2], below[3]], &[]), Ok(Transfer::Chunked(104_857_599, None)));
    assert_eq!(transfer_plan(1500, &below, &[]), Ok(Transfer::Streamed(104_857_599)));
}

#[test]
fn transfer_announced_in_second_frame() {
    let mut payload2 = vec![0u8];
    payload2.extend_from_slice(&300_000u32.to_le_bytes());
    let second = encode_frame(&encode_packet(2000, 1, 0x0102, &payload2));
    assert_eq!(transfer_plan(2000, &[], &second), Ok(Transfer::Chunked(300_000, Some(0x0102))));
    assert_eq!(transfer_plan(2000, &[], &second[..20]), Ok(Transfer::Nothing(true)));
}

#[test]
fn chunk_replies() {
    assert_eq!(chunk_step(2000, &[], 10), ChunkStep::AwaitNext);
    assert_eq!(chunk_step(1501, &[0; 4], 10), ChunkStep::Data(6));
    assert_eq!(chunk_step(1501, &[0; 12], 10), ChunkStep::Data(0));
    assert_eq!(chunk_step(1500, &[0x20, 0, 0, 0], 10), ChunkStep::Stream(32));
    assert_eq!(chunk_step(1500, &[1], 10), ChunkStep::Fail(ZkError::MissingSize));
    assert_eq!(chunk_step(2001, &[], 10), ChunkStep::Fail(ZkError::UnexpectedCommand(2001)));
}

#[test]
fn frames_after_acknowledged_chunk() {
    assert_eq!(follow_step(1501, &[1, 2, 3], 5), FollowStep::Data(2));
    assert_eq!(follow_step(1501, &[], 5), FollowStep::Empty);
    assert_eq!(follow_step(1500, &[9, 0, 0, 0], 5), FollowStep::Stream(9));
    assert_eq!(follow_step(1500, &[], 5), FollowStep::Stream(5));
    assert_eq!(follow_step(2000, &[1], 5), FollowStep::Empty);
}

#[test]
fn plain_read_answers() {
    assert_eq!(simple_read_step(1501, &[]), Ok(SimpleRead::Complete));
    assert_eq!(simple_read_step(1500, &[4, 0, 0, 0]), Ok(SimpleRead::Streamed(4)));
    assert_eq!(simple_read_step(1500, &[0, 0, 0, 0]), Ok(SimpleRead::Nothing));
    assert_eq!(simple_read_step(2000, &[1]), Ok(SimpleRead::Complete));
    assert_eq!(simple_read_step(2000, &[]), Ok(SimpleRead::Nothing));
    assert_eq!(simple_read_step(2001, &[1]), Ok(SimpleRead::Nothing));
}

fn data_packet(payload: &[u8]) -> Vec<u8> {
    encode_packet(1501, 1, 9, payload)
}

#[test]
fn stream_collector_stops_on_ack() {
    let mut c = StreamCollector::new(10);
    assert!(c.wants_more());
    assert_eq!(c.feed(&data_packet(&[1, 2, 3])), Ok(9));
    assert!(c.wants_more());
    assert_eq!(c.feed(&encode_packet(2000, 1, 10, &[9])), Ok(10));
    assert!(!c.wants_more());
    assert_eq!(c.data, vec![1, 2, 3]);
}

#[test]
fn stream_collector_keeps_whole_payloads() {
    let mut c = StreamCollector::new(4);
    c.feed(&data_packet(&[1, 2])).unwrap();
    c.feed(&data_packet(&[3, 4, 5])).unwrap();
    assert!(!c.wants_more());
    assert_eq!(c.data, vec![1, 2, 3, 4, 5]);
    let mut one = StreamCollector::new(4);
    one.feed(&data_packet(&[1, 2, 3, 4, 5, 6])).unwrap();
    assert_eq!(one.data.len(), 6);
}

#[test]
fn chunks_appended_in_order() {
    let mut all = vec![1u8];
    append_chunk(&mut all, &[2, 3, 4], 2);
    append_chunk(&mut all, &[5], 3);
    assert_eq!(all, vec![1, 2, 3, 5]);
}

#[test]
fn fallback_sources_until_an_answer() {
    assert_eq!(fallback_step(&String::new(), 0, 3), Some(0));
    assert_eq!(fallback_step(&String::new(), 3, 3), None);
    assert_eq!(fallback_step(&"6.60".to_string(), 1, 3), None);
}

#[test]
fn stream_collector_refuses_short_frame() {
    let mut c = StreamCollector::new(4);
    assert_eq!(c.feed(&[1, 2, 3]), Err(ZkError::ShortPacket));
    assert!(c.wants_more());
    assert!(c.data.is_empty());
}

#[test]
fn chunk_plan_any_chunk_size() {
    assert_eq!(chunk_plan_with(10, 4), vec![(0, 4), (4, 4), (8, 2)]);
    assert_eq!(chunk_plan_with(8, 4), vec![(0, 4), (4, 4)]);
}

#[test]
fn trailing_ack_lengths() {
    assert!(!trailing_ack_fits(0));
    assert!(trailing_ack_fits(8));
    assert!(trailing_ack_fits(64));
    assert!(!trailing_ack_fits(65));
}

#[test]
fn attendance_fallback_ladder() {
    assert!(needs_fallback(0, 3));
    assert!(needs_fallback(3, 1));
    assert!(!needs_fallback(4, 1));
    assert!(!needs_fallback(0, 0));
    assert_eq!(attendance_fct(0), Some(0));
    assert_eq!(attendance_fct(1), Some(1));
    assert_eq!(attendance_fct(2), None);
}
