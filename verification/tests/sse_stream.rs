use ide_agent::sse::SseBuffer;

#[test]
fn two_back_to_back_events() {
    let mut b = SseBuffer::default();
    let out = b.push_str("data: {\"x\":1}\n\ndata: {\"y\":2}\n\n");
    assert_eq!(out.len(), 2);
    assert_eq!(out[0], "{\"x\":1}");
}

#[test]
fn event_split_across_chunks_is_delivered_once() {
    let mut b = SseBuffer::default();
    assert!(b.push_str("data: {\"a\"").is_empty());
    let out = b.push_str(":1}\n\n");
    assert_eq!(out, vec!["{\"a\":1}".to_string()]);
}

#[test]
fn crlf_blocks_and_multi_line_data() {
    let mut b = SseBuffer::default();
    let out = b.push_str("event: x\r\ndata: one\r\ndata: two\r\n\r\n");
    assert_eq!(out, vec!["one\ntwo".to_string()]);
}
