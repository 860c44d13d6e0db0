use llm_sdk::sse::SseDecoder;

fn feed_all(dec: &mut SseDecoder, bytes: &[u8]) -> Vec<Vec<u8>> {
    dec.feed(bytes)
}

#[test]
fn a_frame_split_across_two_chunks_decodes_like_one_chunk() {
    let whole: &[u8] = b"data: {\"choices\":[{\"delta\":{\"content\":\"hi\"}}]}\n\n";
    let mut one = SseDecoder::new();
    let events_one = feed_all(&mut one, whole);

    // the boundary falls inside the frame, after "data: {\"cho"
    let (a, b) = whole.split_at(11);
    let mut two = SseDecoder::new();
    let mut events_two = feed_all(&mut two, a);
    events_two.extend(feed_all(&mut two, b));

    assert_eq!(events_one, events_two);
    assert_eq!(events_one.len(), 1);
    assert_eq!(
        events_one[0],
        b"{\"choices\":[{\"delta\":{\"content\":\"hi\"}}]}".to_vec()
    );
    assert_eq!(one.buf, two.buf);
    assert_eq!(one.mode, two.mode);
}

#[test]
fn the_done_sentinel_yields_no_event_and_terminates_cleanly() {
    let mut dec = SseDecoder::new();
    let events = dec.feed(b"data: {\"a\":1}\n\ndata: [DONE]\n\n");
    assert_eq!(events.len(), 1);
    assert_eq!(events[0], b"{\"a\":1}".to_vec());
    assert!(dec.is_done());
    assert!(!dec.is_failed());
    // whatever follows the sentinel is ignored
    let after = dec.feed(b"data: {\"b\":2}\n\n");
    assert!(after.is_empty());
    assert!(dec.is_done());
}

#[test]
fn frames_without_the_data_prefix_are_dropped_silently() {
    let mut dec = SseDecoder::new();
    let events = dec.feed(b": keep-alive\n\n\n\ndata: \n\ndata: {\"ok\":true}\n\n");
    assert_eq!(events.len(), 1);
    assert_eq!(events[0], b"{\"ok\":true}".to_vec());
    assert!(!dec.is_done());
    assert!(!dec.is_failed());
}

#[test]
fn a_malformed_payload_poisons_the_stream() {
    let mut dec = SseDecoder::new();
    let events = dec.feed(b"data: {\"a\":1}\n\ndata: {not json}\n\ndata: {\"b\":2}\n\n");
    assert_eq!(events.len(), 1);
    assert_eq!(events[0], b"{\"a\":1}".to_vec());
    assert!(dec.is_failed());
    assert!(!dec.is_done());
}

#[test]
fn partial_bytes_are_retained_until_the_delimiter_arrives() {
    let mut dec = SseDecoder::new();
    let none = dec.feed(b"data: {\"wait\":");
    assert!(none.is_empty());
    let some = dec.feed(b"1}\n\n");
    assert_eq!(some.len(), 1);
    assert_eq!(some[0], b"{\"wait\":1}".to_vec());
}

#[test]
fn one_chunk_may_complete_several_frames() {
    let mut dec = SseDecoder::new();
    let events = dec.feed(b"data: {\"i\":0}\n\ndata: {\"i\":1}\n\ndata: {\"i\":2}\n\n");
    assert_eq!(events.len(), 3);
    assert_eq!(events[1], b"{\"i\":1}".to_vec());
}

#[test]
fn a_poisoned_stream_delivers_nothing_further() {
    let mut dec = SseDecoder::new();
    dec.feed(b"data: not-json\n\n");
    assert!(dec.is_failed());
    let after = dec.feed(b"data: {\"fine\":true}\n\n");
    assert!(after.is_empty());
    assert!(dec.is_failed());
}

#[test]
fn content_fragments_reassemble_across_awkward_chunk_boundaries() {
    let stream: &[u8] = b"data: {\"choices\":[{\"delta\":{\"content\":\"Hel\"},\"index\":0}]}\n\n\
data: {\"choices\":[{\"delta\":{\"content\":\"lo\"},\"index\":0}]}\n\n\
data: {\"choices\":[{\"delta\":{},\"finish_reason\":\"stop\",\"index\":0}]}\n\n\
data: [DONE]\n\n";
    let mut dec = SseDecoder::new();
    let mut payloads: Vec<Vec<u8>> = Vec::new();
    // deliver in 7-byte chunks so every frame is split several times
    for chunk in stream.chunks(7) {
        payloads.extend(dec.feed(chunk));
    }
    assert!(dec.is_done());
    assert_eq!(payloads.len(), 3);
    let mut content = String::new();
    for p in &payloads {
        let v: serde_json::Value = serde_json::from_slice(p).unwrap();
        if let Some(c) = v["choices"][0]["delta"]["content"].as_str() {
            content.push_str(c);
        }
    }
    assert_eq!(content, "Hello");
    let last: serde_json::Value = serde_json::from_slice(&payloads[2]).unwrap();
    assert_eq!(last["choices"][0]["finish_reason"].as_str(), Some("stop"));
}
