use anthropic_sdk::{
    AnthropicError, ContentBlock, ContentBlockDelta, MessageStreamEvent, RawStreamEvent, Role,
    StopReason, StreamState,
};

fn raw(event: &str, data: &str) -> RawStreamEvent {
    RawStreamEvent { event: event.as_bytes().to_vec(), data: data.as_bytes().to_vec() }
}

#[test]
fn ping_event_maps_without_parsing() {
    let r = anthropic_sdk::parse_event(&raw("ping", "not json at all")).unwrap();
    assert!(matches!(r, MessageStreamEvent::Ping));
}

#[test]
fn error_event_parses_type_and_message() {
    let r = anthropic_sdk::parse_event(&raw(
        "error",
        "{\"type\":\"overloaded_error\",\"message\":\"busy\"}",
    ))
    .unwrap();
    match r {
        MessageStreamEvent::Error { error } => {
            assert_eq!(error.error_type, b"overloaded_error".to_vec());
            assert_eq!(error.message, b"busy".to_vec());
        }
        other => panic!("expected an error event, got {:?}", other),
    }
}

#[test]
fn invalid_json_is_a_decode_error() {
    let r = anthropic_sdk::parse_event(&raw("message_delta", "{not json"));
    assert!(matches!(r, Err(AnthropicError::Json { .. })));
}

#[test]
fn unknown_discriminator_is_a_decode_error() {
    let r = anthropic_sdk::parse_event(&raw("mystery_event", "{}"));
    assert!(matches!(r, Err(AnthropicError::Json { .. })));
}

#[test]
fn error_event_without_the_required_fields_fails() {
    let r = anthropic_sdk::parse_event(&raw("error", "{}"));
    assert!(matches!(r, Err(AnthropicError::Json { .. })));
}

#[test]
fn event_name_injected_when_payload_omits_type() {
    let r = anthropic_sdk::parse_event(&raw("message_stop", "{}")).unwrap();
    assert!(matches!(r, MessageStreamEvent::MessageStop));
}

#[test]
fn payload_type_overrides_event_name() {
    // the payload's own discriminator wins over the event name
    let r = anthropic_sdk::parse_event(&raw("message_stop", "{\"type\":\"ping\"}")).unwrap();
    assert!(matches!(r, MessageStreamEvent::Ping));
}

#[test]
fn message_start_decodes_the_base_message() {
    let data = "{\"type\":\"message_start\",\"message\":{\"id\":\"msg_1\",\"type\":\"message\",\
                \"role\":\"assistant\",\"content\":[{\"type\":\"text\",\"text\":\"hi\"}],\
                \"model\":\"m-1\",\"usage\":{\"input_tokens\":3,\"output_tokens\":1}}}";
    let r = anthropic_sdk::parse_event(&raw("message_start", data)).unwrap();
    match r {
        MessageStreamEvent::MessageStart { message } => {
            assert_eq!(message.id, b"msg_1".to_vec());
            assert_eq!(message.role, Role::Assistant);
            assert_eq!(message.model, b"m-1".to_vec());
            assert_eq!(message.usage.input_tokens, 3);
            assert_eq!(message.usage.output_tokens, 1);
            assert_eq!(message.content.len(), 1);
            assert_eq!(message.content[0], ContentBlock::Text { text: b"hi".to_vec() });
            assert_eq!(message.text(), b"hi".to_vec());
        }
        other => panic!("expected message start, got {:?}", other),
    }
}

#[test]
fn message_start_missing_message_is_a_decode_error() {
    let r = anthropic_sdk::parse_event(&raw("message_start", "{\"type\":\"message_start\"}"));
    assert!(matches!(r, Err(AnthropicError::Json { .. })));
}

#[test]
fn message_delta_carries_stop_reason_and_usage() {
    let data = "{\"type\":\"message_delta\",\"delta\":{\"stop_reason\":\"end_turn\"},\
                \"usage\":{\"output_tokens\":42}}";
    let r = anthropic_sdk::parse_event(&raw("message_delta", data)).unwrap();
    match r {
        MessageStreamEvent::MessageDelta { delta, usage } => {
            assert_eq!(delta.stop_reason, Some(StopReason::EndTurn));
            assert_eq!(usage.output_tokens, 42);
        }
        other => panic!("expected message delta, got {:?}", other),
    }
}

#[test]
fn unknown_stop_reason_is_a_decode_error() {
    let data = "{\"type\":\"message_delta\",\"delta\":{\"stop_reason\":\"whatever\"},\
                \"usage\":{\"output_tokens\":1}}";
    let r = anthropic_sdk::parse_event(&raw("message_delta", data));
    assert!(matches!(r, Err(AnthropicError::Json { .. })));
}

#[test]
fn content_block_delta_text() {
    let data = "{\"type\":\"content_block_delta\",\"index\":0,\
                \"delta\":{\"type\":\"text_delta\",\"text\":\"Hello\"}}";
    let r = anthropic_sdk::parse_event(&raw("content_block_delta", data)).unwrap();
    match r {
        MessageStreamEvent::ContentBlockDelta { index, delta } => {
            assert_eq!(index, 0);
            assert_eq!(delta.as_text(), Some(&b"Hello".to_vec()));
            assert_eq!(delta.as_thinking(), None);
        }
        other => panic!("expected content block delta, got {:?}", other),
    }
}

#[test]
fn content_block_delta_thinking_and_json() {
    let thinking = "{\"type\":\"content_block_delta\",\"index\":1,\
                    \"delta\":{\"type\":\"thinking_delta\",\"thinking\":\"hm\"}}";
    let r = anthropic_sdk::parse_event(&raw("content_block_delta", thinking)).unwrap();
    match r {
        MessageStreamEvent::ContentBlockDelta { delta, .. } => {
            assert_eq!(delta.as_thinking(), Some(&b"hm".to_vec()));
        }
        other => panic!("expected content block delta, got {:?}", other),
    }

    let partial = "{\"type\":\"content_block_delta\",\"index\":1,\
                   \"delta\":{\"type\":\"input_json_delta\",\"partial_json\":\"{\\\"a\\\"\"}}";
    let r = anthropic_sdk::parse_event(&raw("content_block_delta", partial)).unwrap();
    match r {
        MessageStreamEvent::ContentBlockDelta { delta, .. } => {
            assert_eq!(delta.as_input_json(), Some(&b"{\"a\"".to_vec()));
        }
        other => panic!("expected content block delta, got {:?}", other),
    }
}

#[test]
fn citations_delta_carries_the_citation_document() {
    let data = "{\"type\":\"content_block_delta\",\"index\":0,\
                \"delta\":{\"type\":\"citations_delta\",\"citation\":{\"url\":\"u\"}}}";
    let r = anthropic_sdk::parse_event(&raw("content_block_delta", data)).unwrap();
    match r {
        MessageStreamEvent::ContentBlockDelta { delta, .. } => {
            assert_eq!(
                delta,
                ContentBlockDelta::CitationsDelta {
                    citation: anthropic_sdk::Json::Object(vec![(
                        b"url".to_vec(),
                        anthropic_sdk::Json::Text(b"u".to_vec()),
                    )]),
                }
            );
        }
        other => panic!("expected content block delta, got {:?}", other),
    }
}

#[test]
fn content_block_start_and_stop_carry_the_index() {
    let start = "{\"type\":\"content_block_start\",\"index\":2,\
                 \"content_block\":{\"type\":\"text\",\"text\":\"\"}}";
    let r = anthropic_sdk::parse_event(&raw("content_block_start", start)).unwrap();
    assert!(matches!(r, MessageStreamEvent::ContentBlockStart { index: 2, .. }));

    let stop = "{\"type\":\"content_block_stop\",\"index\":2}";
    let r = anthropic_sdk::parse_event(&raw("content_block_stop", stop)).unwrap();
    assert!(matches!(r, MessageStreamEvent::ContentBlockStop { index: 2 }));
}

#[test]
fn tool_use_block_keeps_the_input_document() {
    let data = "{\"type\":\"content_block_start\",\"index\":0,\
                \"content_block\":{\"type\":\"tool_use\",\"id\":\"tu_1\",\"name\":\"calc\",\
                \"input\":{\"x\":1}}}";
    let r = anthropic_sdk::parse_event(&raw("content_block_start", data)).unwrap();
    match r {
        MessageStreamEvent::ContentBlockStart { content_block, .. } => {
            let (id, name, input) = content_block.as_tool_use().expect("a tool use block");
            assert_eq!(id, &b"tu_1".to_vec());
            assert_eq!(name, &b"calc".to_vec());
            assert_eq!(
                input,
                &anthropic_sdk::Json::Object(vec![(b"x".to_vec(), anthropic_sdk::Json::UInt(1))])
            );
            assert!(content_block.is_tool_use());
            assert!(!content_block.is_text());
        }
        other => panic!("expected content block start, got {:?}", other),
    }
}

#[test]
fn fold_text_deltas_then_stop() {
    let mut state = StreamState::new();
    state.update(&MessageStreamEvent::ContentBlockDelta {
        index: 0,
        delta: ContentBlockDelta::TextDelta { text: b"Hello".to_vec() },
    });
    state.update(&MessageStreamEvent::ContentBlockDelta {
        index: 0,
        delta: ContentBlockDelta::TextDelta { text: b" world".to_vec() },
    });
    state.update(&MessageStreamEvent::MessageStop);
    assert_eq!(state.text, b"Hello world".to_vec());
    assert!(state.is_complete);
}

#[test]
fn fold_ignores_structural_events() {
    let mut state = StreamState::new();
    state.update(&MessageStreamEvent::Ping);
    state.update(&MessageStreamEvent::ContentBlockStop { index: 0 });
    state.update(&MessageStreamEvent::ContentBlockDelta {
        index: 0,
        delta: ContentBlockDelta::SignatureDelta { signature: b"sig".to_vec() },
    });
    assert_eq!(state, StreamState::new());
}

#[test]
fn fold_thinking_accumulates_separately() {
    let mut state = StreamState::new();
    state.update(&MessageStreamEvent::ContentBlockDelta {
        index: 0,
        delta: ContentBlockDelta::ThinkingDelta { thinking: b"a".to_vec() },
    });
    state.update(&MessageStreamEvent::ContentBlockDelta {
        index: 0,
        delta: ContentBlockDelta::TextDelta { text: b"b".to_vec() },
    });
    assert_eq!(state.thinking, b"a".to_vec());
    assert_eq!(state.text, b"b".to_vec());
}

#[test]
fn delta_usage_overwrites_not_adds() {
    let mut state = StreamState::new();
    let delta = |tokens| MessageStreamEvent::MessageDelta {
        delta: anthropic_sdk::MessageDelta { stop_reason: None, stop_sequence: None },
        usage: anthropic_sdk::MessageDeltaUsage { output_tokens: tokens },
    };
    state.update(&delta(7));
    state.update(&delta(12));
    assert_eq!(state.output_tokens, 12);
    // a delta without a stop reason keeps the stored one
    assert_eq!(state.stop_reason, None);
}

#[test]
fn into_message_overlays_stop_reason_and_tokens() {
    let data = "{\"type\":\"message_start\",\"message\":{\"id\":\"msg_1\",\"type\":\"message\",\
                \"role\":\"assistant\",\"content\":[],\"model\":\"m-1\",\
                \"usage\":{\"input_tokens\":3,\"output_tokens\":1}}}";
    let start = anthropic_sdk::parse_event(&raw("message_start", data)).unwrap();
    let mut state = StreamState::new();
    state.update(&start);
    state.update(&MessageStreamEvent::MessageDelta {
        delta: anthropic_sdk::MessageDelta {
            stop_reason: Some(StopReason::EndTurn),
            stop_sequence: None,
        },
        usage: anthropic_sdk::MessageDeltaUsage { output_tokens: 42 },
    });
    let message = state.into_message().expect("a base message");
    assert_eq!(message.usage.output_tokens, 42);
    assert_eq!(message.usage.input_tokens, 3);
    assert_eq!(message.stop_reason, Some(StopReason::EndTurn));
}

#[test]
fn into_message_without_base_is_none() {
    assert!(StreamState::new().into_message().is_none());
}
