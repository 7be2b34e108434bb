use webrtc_server::blocks::{
    block_chunks, block_count, block_count_frame, block_exists, encode_block_number,
    request_is_servable, requested_block, serve_request, CHUNKS_PER_BLOCK,
};
use webrtc_server::frame::{RequestFrame, ResponseFrame};
use webrtc_server::{BLOCKSIZE, WEBRTC_MAX_LEN};

fn pattern(len: usize) -> Vec<u8> {
    (0..len).map(|i| (i % 251) as u8).collect()
}

#[test]
fn block_count_rounds_up() {
    assert_eq!(block_count(0), 0);
    assert_eq!(block_count(1), 1);
    assert_eq!(block_count(BLOCKSIZE), 1);
    assert_eq!(block_count(BLOCKSIZE + 1), 2);
    assert_eq!(block_count(5 * BLOCKSIZE - 3), 5);
}

#[test]
fn block_count_frame_is_big_endian_count() {
    let frame = block_count_frame(3 * BLOCKSIZE);
    assert_eq!(frame, ResponseFrame::ServicePayload { bytes: vec![0, 0, 0, 3] });
    let frame = block_count_frame(300 * BLOCKSIZE);
    assert_eq!(frame, ResponseFrame::ServicePayload { bytes: vec![0, 0, 1, 44] });
}

#[test]
fn block_numbers_are_big_endian() {
    assert_eq!(encode_block_number(0x0102_0304), vec![1, 2, 3, 4]);
    assert_eq!(requested_block(&[1, 2, 3, 4, 99]), 0x0102_0304);
    assert_eq!(requested_block(&[0xff, 0xff, 0xff, 0xff]), u32::MAX);
}

#[test]
fn block_number_roundtrip() {
    for c in [0u32, 1, 255, 256, 0x00ab_cdef, u32::MAX] {
        assert_eq!(requested_block(&encode_block_number(c)), c);
    }
}

#[test]
fn block_existence() {
    assert!(block_exists(0, 1));
    assert!(!block_exists(0, 0));
    assert!(block_exists(1, BLOCKSIZE + 1));
    assert!(!block_exists(1, BLOCKSIZE));
    assert!(!block_exists(u32::MAX, 1 << 40));
}

#[test]
fn block_chunks_tile_the_block() {
    let data = pattern(2 * BLOCKSIZE + 10);
    let chunks = block_chunks(&data, 1);
    assert_eq!(chunks.len(), CHUNKS_PER_BLOCK);
    for (i, c) in chunks.iter().enumerate() {
        let start = BLOCKSIZE + i * WEBRTC_MAX_LEN;
        assert_eq!(&c[..], &data[start..start + WEBRTC_MAX_LEN]);
    }
    let joined: Vec<u8> = chunks.concat();
    assert_eq!(&joined[..], &data[BLOCKSIZE..2 * BLOCKSIZE]);
}

#[test]
fn servable_requests() {
    let data = pattern(2 * BLOCKSIZE);
    let short = RequestFrame::ServicePayload { bytes: vec![0, 0, 1] };
    assert!(!request_is_servable(&data, &short));
    let past_end = RequestFrame::ServicePayload { bytes: vec![0, 0, 0, 2] };
    let data_partial = pattern(2 * BLOCKSIZE + 1);
    assert!(request_is_servable(&data_partial, &past_end));
    assert!(!request_is_servable(&data, &past_end));
    let last = RequestFrame::ServicePayload { bytes: vec![0, 0, 0, 1, 7] };
    assert!(request_is_servable(&data, &last));
}

#[test]
fn serve_request_sends_requested_block() {
    let data = pattern(3 * BLOCKSIZE);
    let req = RequestFrame::ServicePayload { bytes: vec![0, 0, 0, 2] };
    let frames = serve_request(&data, &req);
    assert_eq!(frames.len(), CHUNKS_PER_BLOCK);
    for (i, f) in frames.iter().enumerate() {
        let start = 2 * BLOCKSIZE + i * WEBRTC_MAX_LEN;
        let expected = data[start..start + WEBRTC_MAX_LEN].to_vec();
        assert_eq!(f, &ResponseFrame::ServicePayload { bytes: expected });
    }
}

#[test]
fn last_partial_block_is_served_to_file_end() {
    let len = 2 * BLOCKSIZE + 2 * WEBRTC_MAX_LEN + 7;
    let data = pattern(len);
    assert_eq!(block_count(len), 3);
    let req = RequestFrame::ServicePayload { bytes: vec![0, 0, 0, 2] };
    assert!(request_is_servable(&data, &req));
    let frames = serve_request(&data, &req);
    assert_eq!(frames.len(), 3);
    let mut joined = Vec::new();
    for f in &frames {
        let ResponseFrame::ServicePayload { bytes } = f;
        assert!(bytes.len() <= WEBRTC_MAX_LEN);
        joined.extend_from_slice(bytes);
    }
    assert_eq!(&joined[..], &data[2 * BLOCKSIZE..]);
}

#[test]
fn short_last_block_is_one_chunk() {
    let data = pattern(BLOCKSIZE + 5);
    let chunks = block_chunks(&data, 1);
    assert_eq!(chunks, vec![data[BLOCKSIZE..].to_vec()]);
}
