use anthropic_sdk::{AnthropicError, MessageStream, MessageStreamEvent, StopReason};

const START: &str = "event: message_start\ndata: {\"type\":\"message_start\",\"message\":\
    {\"id\":\"msg_1\",\"type\":\"message\",\"role\":\"assistant\",\"content\":[],\
    \"model\":\"m-1\",\"usage\":{\"input_tokens\":3,\"output_tokens\":1}}}\n\n";
const HELLO: &str = "event: content_block_delta\ndata: {\"type\":\"content_block_delta\",\
    \"index\":0,\"delta\":{\"type\":\"text_delta\",\"text\":\"Hello\"}}\n\n";
const WORLD: &str = "event: content_block_delta\ndata: {\"type\":\"content_block_delta\",\
    \"index\":0,\"delta\":{\"type\":\"text_delta\",\"text\":\" world\"}}\n\n";
const DELTA: &str = "event: message_delta\ndata: {\"type\":\"message_delta\",\
    \"delta\":{\"stop_reason\":\"end_turn\"},\"usage\":{\"output_tokens\":42}}\n\n";
const STOP: &str = "event: message_stop\ndata: {\"type\":\"message_stop\"}\n\n";

fn whole_stream() -> Vec<u8> {
    format!("{}{}{}{}{}", START, HELLO, WORLD, DELTA, STOP).into_bytes()
}

#[test]
fn a_whole_stream_accumulates_and_completes() {
    let mut stream = MessageStream::new();
    let items = stream.feed(&whole_stream());
    assert_eq!(items.len(), 5);
    assert!(items.iter().all(|i| i.is_ok()));
    assert_eq!(stream.text(), &b"Hello world".to_vec());
    assert!(stream.is_complete());
    assert!(stream.is_finished());

    let message = stream.into_message().expect("a final message");
    assert_eq!(message.usage.output_tokens, 42);
    assert_eq!(message.stop_reason, Some(StopReason::EndTurn));
}

#[test]
fn chunked_delivery_accumulates_the_same_text() {
    let bytes = whole_stream();
    let mut stream = MessageStream::new();
    let mut n_items = 0;
    for chunk in bytes.chunks(7) {
        n_items += stream.feed(chunk).len();
    }
    n_items += match stream.finish() {
        Some(_) => 1,
        None => 0,
    };
    assert_eq!(n_items, 5);
    assert_eq!(stream.text(), &b"Hello world".to_vec());
    assert!(stream.is_complete());
}

#[test]
fn a_finished_stream_produces_nothing_further() {
    let mut stream = MessageStream::new();
    stream.feed(&whole_stream());
    assert!(stream.is_finished());
    let more = stream.feed(START.as_bytes());
    assert!(more.is_empty());
    assert_eq!(stream.text(), &b"Hello world".to_vec());
}

#[test]
fn decode_failure_is_terminal() {
    let mut stream = MessageStream::new();
    let items = stream.feed(b"data: {not json\n\nevent: ping\ndata: {}\n\n");
    assert_eq!(items.len(), 1);
    assert!(matches!(items[0], Err(AnthropicError::Json { .. })));
    assert!(stream.is_finished());
    assert!(stream.feed(STOP.as_bytes()).is_empty());
}

#[test]
fn a_server_error_event_is_yielded_but_not_terminal() {
    let mut stream = MessageStream::new();
    let items = stream.feed(
        b"event: error\ndata: {\"type\":\"overloaded_error\",\"message\":\"busy\"}\n\n",
    );
    assert_eq!(items.len(), 1);
    assert!(matches!(
        items[0],
        Ok(MessageStreamEvent::Error { .. })
    ));
    assert!(!stream.is_finished());
}

#[test]
fn ping_events_keep_the_stream_alive() {
    let mut stream = MessageStream::new();
    let items = stream.feed(b"event: ping\ndata: {\"type\": \"ping\"}\n\n");
    assert_eq!(items.len(), 1);
    assert!(matches!(items[0], Ok(MessageStreamEvent::Ping)));
    assert!(!stream.is_finished());
}

#[test]
fn finish_flushes_a_trailing_event_without_blank_line() {
    // the transport closes right after the terminal event, with no
    // trailing blank line: flushing must not lose it
    let mut stream = MessageStream::new();
    let items = stream.feed(b"event: message_stop\ndata: {}");
    assert!(items.is_empty());
    let last = stream.finish().expect("a flushed item").expect("a decoded event");
    assert!(matches!(last, MessageStreamEvent::MessageStop));
    assert!(stream.is_complete());
    assert!(stream.is_finished());
}

#[test]
fn finish_without_buffered_data_is_none() {
    let mut stream = MessageStream::new();
    stream.feed(HELLO.as_bytes());
    assert!(stream.finish().is_none());
    assert!(stream.is_finished());
    // a connection close without message_stop leaves the stream incomplete
    assert!(!stream.is_complete());
}

#[test]
fn thinking_accumulates_on_its_own_channel() {
    let mut stream = MessageStream::new();
    stream.feed(
        b"event: content_block_delta\ndata: {\"type\":\"content_block_delta\",\"index\":0,\
          \"delta\":{\"type\":\"thinking_delta\",\"thinking\":\"mull\"}}\n\n",
    );
    assert_eq!(stream.thinking(), &b"mull".to_vec());
    assert_eq!(stream.text(), &b"".to_vec());
    assert_eq!(stream.state().thinking, b"mull".to_vec());
}
