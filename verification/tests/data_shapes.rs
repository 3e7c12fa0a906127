use anthropic_sdk::{
    CacheControl, ContentBlock, Json, ListModelsParams, Message, Metadata, Role, StopReason,
    ToolChoice, ToolResultBlockParam, Usage,
};

#[test]
fn tool_choice_constructors() {
    assert_eq!(ToolChoice::auto(), ToolChoice::Auto { disable_parallel_tool_use: None });
    assert_eq!(ToolChoice::any(), ToolChoice::Any { disable_parallel_tool_use: None });
    assert_eq!(
        ToolChoice::tool("calc".to_string()),
        ToolChoice::Tool { name: "calc".to_string(), disable_parallel_tool_use: None }
    );
    assert_eq!(ToolChoice::none(), ToolChoice::Disabled);
}

#[test]
fn disable_parallel_sets_the_flag_where_it_exists() {
    assert_eq!(
        ToolChoice::auto().disable_parallel(),
        ToolChoice::Auto { disable_parallel_tool_use: Some(true) }
    );
    assert_eq!(
        ToolChoice::tool("calc".to_string()).disable_parallel(),
        ToolChoice::Tool { name: "calc".to_string(), disable_parallel_tool_use: Some(true) }
    );
    assert_eq!(ToolChoice::none().disable_parallel(), ToolChoice::Disabled);
}

#[test]
fn tool_results_and_metadata() {
    assert_eq!(
        ToolResultBlockParam::success("tu_1".to_string(), "ok".to_string()),
        ToolResultBlockParam {
            tool_use_id: "tu_1".to_string(),
            content: Some("ok".to_string()),
            is_error: None,
        }
    );
    assert_eq!(
        ToolResultBlockParam::error("tu_1".to_string(), "boom".to_string()),
        ToolResultBlockParam {
            tool_use_id: "tu_1".to_string(),
            content: Some("boom".to_string()),
            is_error: Some(true),
        }
    );
    assert_eq!(
        Metadata::with_user_id("u1".to_string()),
        Metadata { user_id: Some("u1".to_string()) }
    );
    assert_eq!(CacheControl::ephemeral(), CacheControl::Ephemeral);
    assert_eq!(
        ListModelsParams::default(),
        ListModelsParams { limit: None, before_id: None, after_id: None }
    );
}

fn sample_message() -> Message {
    Message {
        id: b"msg_1".to_vec(),
        object_type: b"message".to_vec(),
        role: Role::Assistant,
        content: vec![
            ContentBlock::Text { text: b"one ".to_vec() },
            ContentBlock::ToolUse {
                id: b"tu".to_vec(),
                name: b"calc".to_vec(),
                input: Json::Object(vec![]),
            },
            ContentBlock::Text { text: b"two".to_vec() },
        ],
        model: b"m-1".to_vec(),
        stop_reason: Some(StopReason::ToolUse),
        stop_sequence: None,
        usage: Usage {
            input_tokens: 1,
            output_tokens: 2,
            cache_creation_input_tokens: None,
            cache_read_input_tokens: None,
        },
    }
}

#[test]
fn message_text_joins_text_blocks_in_order() {
    assert_eq!(sample_message().text(), b"one two".to_vec());
}

#[test]
fn message_tool_use_helpers() {
    let m = sample_message();
    assert!(m.has_tool_use());
    assert!(m.stopped_for_tool_use());
    let mut no_tools = sample_message();
    no_tools.content.remove(1);
    no_tools.stop_reason = Some(StopReason::EndTurn);
    assert!(!no_tools.has_tool_use());
    assert!(!no_tools.stopped_for_tool_use());
}

#[test]
fn message_text_blocks_and_tool_uses() {
    let m = sample_message();
    let blocks = m.text_blocks();
    assert_eq!(blocks.len(), 2);
    assert_eq!(blocks[0], &b"one ".to_vec());
    assert_eq!(blocks[1], &b"two".to_vec());
    let uses = m.tool_uses();
    assert_eq!(uses.len(), 1);
    assert_eq!(uses[0].0, &b"tu".to_vec());
    assert_eq!(uses[0].1, &b"calc".to_vec());
    assert_eq!(uses[0].2, &Json::Object(vec![]));
}

#[test]
fn message_clone_preserves_contents() {
    let m = sample_message();
    let c = m.clone();
    assert_eq!(m, c);
}
