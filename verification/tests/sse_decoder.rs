use anthropic_sdk::SseDecoder;

#[test]
fn test_decode_simple_event() {
    let mut decoder = SseDecoder::new();
    let bytes = b"event: message_start\ndata: {\"type\":\"message_start\"}\n\n";

    let events = decoder.decode(bytes);
    assert_eq!(events.len(), 1);
    assert_eq!(events[0].event, b"message_start".to_vec());
    assert_eq!(events[0].data, b"{\"type\":\"message_start\"}".to_vec());
}

#[test]
fn test_decode_multiple_events() {
    let mut decoder = SseDecoder::new();
    let bytes =
        b"event: content_block_start\ndata: {}\n\nevent: content_block_delta\ndata: {\"text\":\"Hello\"}\n\n";

    let events = decoder.decode(bytes);
    assert_eq!(events.len(), 2);
    assert_eq!(events[0].event, b"content_block_start".to_vec());
    assert_eq!(events[1].event, b"content_block_delta".to_vec());
}

#[test]
fn test_decode_split_data() {
    let mut decoder = SseDecoder::new();

    // First chunk (incomplete)
    let events1 = decoder.decode(b"event: test\ndata: {\"par");
    assert!(events1.is_empty());

    // Second chunk (completes the event)
    let events2 = decoder.decode(b"tial\":true}\n\n");
    assert_eq!(events2.len(), 1);
    assert_eq!(events2[0].data, b"{\"partial\":true}".to_vec());
}

#[test]
fn test_ignore_comments() {
    let mut decoder = SseDecoder::new();
    let bytes = b": this is a comment\nevent: test\ndata: {}\n\n";

    let events = decoder.decode(bytes);
    assert_eq!(events.len(), 1);
    assert_eq!(events[0].event, b"test".to_vec());
}

#[test]
fn decode_split_at_every_boundary_matches_whole() {
    let stream: &[u8] =
        b": keep-alive\nevent: message_start\ndata: {\"a\":1}\n\ndata: line one\ndata: line two\n\nevent: done\ndata: x\r\n\r\n";

    let mut whole = SseDecoder::new();
    let expected = whole.decode(stream);
    assert_eq!(expected.len(), 3);

    for split in 0..stream.len() {
        let mut decoder = SseDecoder::new();
        let mut events = decoder.decode(&stream[..split]);
        events.extend(decoder.decode(&stream[split..]));
        assert_eq!(events, expected, "split at byte {}", split);
    }
}

#[test]
fn comment_only_input_yields_no_event() {
    let mut decoder = SseDecoder::new();
    let events = decoder.decode(b": just a comment\n\n");
    assert!(events.is_empty());
    assert!(!decoder.has_buffered_data());
}

#[test]
fn blank_line_without_data_yields_no_event() {
    let mut decoder = SseDecoder::new();
    // an event name alone, terminated, emits nothing and is discarded
    let events = decoder.decode(b"event: orphan\n\n\n");
    assert!(events.is_empty());
}

#[test]
fn multi_line_data_joins_with_newline_in_order() {
    let mut decoder = SseDecoder::new();
    let events = decoder.decode(b"data: first\ndata: second\ndata: third\n\n");
    assert_eq!(events.len(), 1);
    assert_eq!(events[0].event, b"message".to_vec());
    assert_eq!(events[0].data, b"first\nsecond\nthird".to_vec());
}

#[test]
fn default_event_name_is_message() {
    let mut decoder = SseDecoder::new();
    let events = decoder.decode(b"data: payload\n\n");
    assert_eq!(events.len(), 1);
    assert_eq!(events[0].event, b"message".to_vec());
}

#[test]
fn only_first_colon_delimits_field() {
    let mut decoder = SseDecoder::new();
    let events = decoder.decode(b"data: a:b:c\n\n");
    assert_eq!(events.len(), 1);
    assert_eq!(events[0].data, b"a:b:c".to_vec());
}

#[test]
fn at_most_one_leading_space_is_stripped() {
    let mut decoder = SseDecoder::new();
    let events = decoder.decode(b"data:  two spaces\n\n");
    assert_eq!(events.len(), 1);
    assert_eq!(events[0].data, b" two spaces".to_vec());
}

#[test]
fn carriage_returns_are_stripped_from_line_ends() {
    let mut decoder = SseDecoder::new();
    let events = decoder.decode(b"event: e\r\ndata: v\r\n\r\n");
    assert_eq!(events.len(), 1);
    assert_eq!(events[0].event, b"e".to_vec());
    assert_eq!(events[0].data, b"v".to_vec());
}

#[test]
fn id_and_retry_fields_have_no_effect() {
    let mut decoder = SseDecoder::new();
    let events = decoder.decode(b"id: 7\nretry: 1000\ndata: x\n\n");
    assert_eq!(events.len(), 1);
    assert_eq!(events[0].event, b"message".to_vec());
    assert_eq!(events[0].data, b"x".to_vec());
}

#[test]
fn field_without_colon_is_name_with_empty_value() {
    let mut decoder = SseDecoder::new();
    // "data" with no colon appends an empty data line
    let events = decoder.decode(b"data\ndata: x\n\n");
    assert_eq!(events.len(), 1);
    assert_eq!(events[0].data, b"\nx".to_vec());
}

#[test]
fn flush_emits_trailing_event_without_blank_line() {
    let mut decoder = SseDecoder::new();
    let events = decoder.decode(b"event: last\ndata: tail");
    assert!(events.is_empty());
    assert!(decoder.has_buffered_data());
    let flushed = decoder.flush().expect("a buffered event");
    assert_eq!(flushed.event, b"last".to_vec());
    assert_eq!(flushed.data, b"tail".to_vec());
    assert!(!decoder.has_buffered_data());
}

#[test]
fn flush_with_nothing_buffered_is_none() {
    let mut decoder = SseDecoder::new();
    assert!(decoder.flush().is_none());
}
