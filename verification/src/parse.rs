//! The typed event mapper and the response-body classifier.
//!
//! A raw event's payload is JSON.  The trusted boundary in [`crate::json`]
//! parses it into the crate's own document type; everything after that —
//! which discriminator applies, which fields each event kind requires,
//! when decoding fails — is verified code whose contracts are stated over
//! [`json_doc`] of the payload bytes, so the mapped event is a function of
//! the raw event alone.
//!
//! A `ping` event is mapped without parsing; an `error` event's payload is
//! the error structure itself; every other payload is decoded by its
//! `type` discriminator, with the event name injected when the payload
//! omits it.  An unknown discriminator or a missing required field is a
//! decode error, never silently dropped.

use vstd::prelude::*;

use vstd::slice::slice_to_vec;
use vstd::string::StringSliceAdditionalSpecFns;

use crate::error::{error_for_status, opt_view, AnthropicError, ErrorObject, ErrorResponse};
use crate::events::{
    clone_bytes, opt_bytes, ContentBlock, ContentBlockDelta, ContentBlockDeltaModel,
    ContentBlockModel, Message, MessageDelta, MessageDeltaUsage, MessageModel, MessageStreamEvent,
    Role, StopReason, StreamError, StreamEventModel, Usage, WebSearchResult, WebSearchResultModel,
};
use crate::json::{
    arr_field, get_field, get_str, get_u64, json_doc, json_error_message, json_wf, obj_field,
    parse_json_doc, str_field, u64_field, Json, JsonModel,
};
use crate::sse::RawStreamEvent;

verus! {

/// The bytes of a string slice.
pub(crate) fn str_bytes(s: &str) -> (r: Vec<u8>)
    ensures
        r@ == s.spec_bytes(),
{
    slice_to_vec(s.as_bytes())
}

/// Whether two byte vectors hold the same bytes.
pub(crate) fn bytes_eq(a: &Vec<u8>, b: &Vec<u8>) -> (r: bool)
    ensures
        r == (a@ == b@),
{
    if a.len() != b.len() {
        proof {
            assert(a@ != b@);
        }
        return false;
    }
    let mut i: usize = 0;
    while i < a.len()
        invariant
            i <= a@.len(),
            a@.len() == b@.len(),
            forall|k: int| 0 <= k < i ==> a@[k] == b@[k],
        decreases a@.len() - i,
    {
        if a[i] != b[i] {
            return false;
        }
        i += 1;
    }
    proof {
        assert(a@ =~= b@);
    }
    true
}

/// Whether a byte vector holds exactly the bytes of a string slice.
pub(crate) fn bytes_eq_str(b: &Vec<u8>, s: &str) -> (r: bool)
    ensures
        r == (b@ == s.spec_bytes()),
{
    let sb = str_bytes(s);
    bytes_eq(b, &sb)
}

/// The stop reason a payload string denotes, if it is a known one.
pub open spec fn stop_reason_of(b: Seq<u8>) -> Option<StopReason> {
    if b == "end_turn".spec_bytes() {
        Option::Some(StopReason::EndTurn)
    } else if b == "max_tokens".spec_bytes() {
        Option::Some(StopReason::MaxTokens)
    } else if b == "stop_sequence".spec_bytes() {
        Option::Some(StopReason::StopSequence)
    } else if b == "tool_use".spec_bytes() {
        Option::Some(StopReason::ToolUse)
    } else if b == "pause_turn".spec_bytes() {
        Option::Some(StopReason::PauseTurn)
    } else if b == "refusal".spec_bytes() {
        Option::Some(StopReason::Refusal)
    } else {
        Option::None
    }
}

/// Parse a payload stop reason, exactly as [`stop_reason_of`] says.
pub fn parse_stop_reason(b: &Vec<u8>) -> (r: Option<StopReason>)
    ensures
        r == stop_reason_of(b@),
{
    if bytes_eq_str(b, "end_turn") {
        Some(StopReason::EndTurn)
    } else if bytes_eq_str(b, "max_tokens") {
        Some(StopReason::MaxTokens)
    } else if bytes_eq_str(b, "stop_sequence") {
        Some(StopReason::StopSequence)
    } else if bytes_eq_str(b, "tool_use") {
        Some(StopReason::ToolUse)
    } else if bytes_eq_str(b, "pause_turn") {
        Some(StopReason::PauseTurn)
    } else if bytes_eq_str(b, "refusal") {
        Some(StopReason::Refusal)
    } else {
        None
    }
}

/// The role a payload string denotes, if it is a known one.
pub open spec fn role_of(b: Seq<u8>) -> Option<Role> {
    if b == "user".spec_bytes() {
        Option::Some(Role::User)
    } else if b == "assistant".spec_bytes() {
        Option::Some(Role::Assistant)
    } else {
        Option::None
    }
}

/// Parse a payload role, exactly as [`role_of`] says.
pub fn parse_role(b: &Vec<u8>) -> (r: Option<Role>)
    ensures
        r == role_of(b@),
{
    if bytes_eq_str(b, "user") {
        Some(Role::User)
    } else if bytes_eq_str(b, "assistant") {
        Some(Role::Assistant)
    } else {
        None
    }
}

/// The value of an object's field as a `u32`, when it is an unsigned
/// integer in range.
pub open spec fn u32_field(m: JsonModel, key: Seq<u8>) -> Option<u32> {
    match u64_field(m, key) {
        Option::Some(t) => if t <= u32::MAX as u64 {
            Option::Some(t as u32)
        } else {
            Option::None
        },
        Option::None => Option::None,
    }
}

/// Read a `u32` field of an object, exactly as [`u32_field`] says.
fn extract_u32(doc: &Json, key: &str) -> (r: Option<u32>)
    ensures
        r == u32_field(doc.model(), key.spec_bytes()),
{
    match get_u64(doc, key) {
        Some(t) => {
            if t <= u32::MAX as u64 {
                Some(t as u32)
            } else {
                None
            }
        },
        None => None,
    }
}

/// The usage a document denotes: both token counts are required, the
/// cache counts optional.
pub open spec fn usage_of_doc(m: JsonModel) -> Option<Usage> {
    match (u32_field(m, "input_tokens".spec_bytes()), u32_field(m, "output_tokens".spec_bytes())) {
        (Option::Some(input_tokens), Option::Some(output_tokens)) => Option::Some(
            Usage {
                input_tokens,
                output_tokens,
                cache_creation_input_tokens: u32_field(m, "cache_creation_input_tokens".spec_bytes()),
                cache_read_input_tokens: u32_field(m, "cache_read_input_tokens".spec_bytes()),
            },
        ),
        _ => Option::None,
    }
}

/// Decode a usage object, exactly as [`usage_of_doc`] says.
fn extract_usage(doc: &Json) -> (r: Option<Usage>)
    ensures
        r == usage_of_doc(doc.model()),
{
    match (extract_u32(doc, "input_tokens"), extract_u32(doc, "output_tokens")) {
        (Some(input_tokens), Some(output_tokens)) => Some(
            Usage {
                input_tokens,
                output_tokens,
                cache_creation_input_tokens: extract_u32(doc, "cache_creation_input_tokens"),
                cache_read_input_tokens: extract_u32(doc, "cache_read_input_tokens"),
            },
        ),
        _ => None,
    }
}

/// The web search result a document denotes: url and title are required.
pub open spec fn web_result_of_doc(m: JsonModel) -> Option<WebSearchResultModel> {
    match (str_field(m, "url".spec_bytes()), str_field(m, "title".spec_bytes())) {
        (Option::Some(url), Option::Some(title)) => Option::Some(
            WebSearchResultModel { url, title, snippet: str_field(m, "snippet".spec_bytes()) },
        ),
        _ => Option::None,
    }
}

/// Decode one web search result, exactly as [`web_result_of_doc`] says.
fn extract_web_result(doc: &Json) -> (r: Option<WebSearchResult>)
    ensures
        ({
            match r {
                Option::Some(w) => web_result_of_doc(doc.model()) == Option::Some(w.model()),
                Option::None => (web_result_of_doc(doc.model()) is None),
            }
        }),
{
    match (get_str(doc, "url"), get_str(doc, "title")) {
        (Some(url), Some(title)) => Some(
            WebSearchResult { url, title, snippet: get_str(doc, "snippet") },
        ),
        _ => None,
    }
}

/// The web search results an array denotes: every element must denote one.
pub open spec fn web_results_of(items: Seq<JsonModel>) -> Option<Seq<WebSearchResultModel>>
    decreases items.len(),
{
    if items.len() == 0 {
        Option::Some(Seq::empty())
    } else {
        match web_result_of_doc(items.first()) {
            Option::Some(w) => match web_results_of(items.drop_first()) {
                Option::Some(rest) => Option::Some(seq![w] + rest),
                Option::None => Option::None,
            },
            Option::None => Option::None,
        }
    }
}

/// When every element denotes a result, the array denotes them in order.
proof fn lemma_web_results_all(items: Seq<JsonModel>, ws: Seq<WebSearchResultModel>)
    requires
        items.len() == ws.len(),
        forall|k: int| 0 <= k < items.len() ==> web_result_of_doc(#[trigger] items[k])
            == Option::Some(ws[k]),
    ensures
        web_results_of(items) == Option::Some(ws),
    decreases items.len(),
{
    if items.len() == 0 {
        assert(ws =~= Seq::<WebSearchResultModel>::empty());
    } else {
        lemma_web_results_all(items.drop_first(), ws.drop_first());
        assert(seq![ws.first()] + ws.drop_first() =~= ws);
    }
}

/// When some element denotes no result, the array denotes nothing.
proof fn lemma_web_results_fail(items: Seq<JsonModel>, k: int)
    requires
        0 <= k < items.len(),
        (web_result_of_doc(items[k]) is None),
    ensures
        (web_results_of(items) is None),
    decreases items.len(),
{
    if k > 0 && !(web_result_of_doc(items.first()) is None) {
        lemma_web_results_fail(items.drop_first(), k - 1);
    }
}

/// The content block a document denotes, by its `type` discriminator; an
/// unknown discriminator or a missing required field denotes nothing.
pub open spec fn block_of_doc(m: JsonModel) -> Option<ContentBlockModel> {
    match str_field(m, "type".spec_bytes()) {
        Option::Some(t) => {
            if t == "text".spec_bytes() {
                match str_field(m, "text".spec_bytes()) {
                    Option::Some(text) => Option::Some(ContentBlockModel::Text { text }),
                    Option::None => Option::None,
                }
            } else if t == "thinking".spec_bytes() {
                match (str_field(m, "thinking".spec_bytes()), str_field(m, "signature".spec_bytes())) {
                    (Option::Some(thinking), Option::Some(signature)) => Option::Some(
                        ContentBlockModel::Thinking { thinking, signature },
                    ),
                    _ => Option::None,
                }
            } else if t == "redacted_thinking".spec_bytes() {
                match str_field(m, "data".spec_bytes()) {
                    Option::Some(data) => Option::Some(
                        ContentBlockModel::RedactedThinking { data },
                    ),
                    Option::None => Option::None,
                }
            } else if t == "tool_use".spec_bytes() || t == "server_tool_use".spec_bytes() {
                match (
                    str_field(m, "id".spec_bytes()),
                    str_field(m, "name".spec_bytes()),
                    obj_field(m, "input".spec_bytes()),
                ) {
                    (Option::Some(id), Option::Some(name), Option::Some(input)) => {
                        if t == "tool_use".spec_bytes() {
                            Option::Some(ContentBlockModel::ToolUse { id, name, input })
                        } else {
                            Option::Some(ContentBlockModel::ServerToolUse { id, name, input })
                        }
                    },
                    _ => Option::None,
                }
            } else if t == "web_search_tool_result".spec_bytes() {
                match (
                    str_field(m, "tool_use_id".spec_bytes()),
                    arr_field(m, "content".spec_bytes()),
                ) {
                    (Option::Some(tool_use_id), Option::Some(items)) => {
                        match web_results_of(items) {
                            Option::Some(content) => Option::Some(
                                ContentBlockModel::WebSearchToolResult { tool_use_id, content },
                            ),
                            Option::None => Option::None,
                        }
                    },
                    _ => Option::None,
                }
            } else {
                Option::None
            }
        },
        Option::None => Option::None,
    }
}

/// Decode one content block, exactly as [`block_of_doc`] says.
fn extract_content_block(doc: &Json) -> (r: Option<ContentBlock>)
    ensures
        ({
            match r {
                Option::Some(b) => block_of_doc(doc.model()) == Option::Some(b.model()),
                Option::None => (block_of_doc(doc.model()) is None),
            }
        }),
{
    let t = match get_str(doc, "type") {
        Some(t) => t,
        None => {
            return None;
        },
    };
    if bytes_eq_str(&t, "text") {
        match get_str(doc, "text") {
            Some(text) => Some(ContentBlock::Text { text }),
            None => None,
        }
    } else if bytes_eq_str(&t, "thinking") {
        match (get_str(doc, "thinking"), get_str(doc, "signature")) {
            (Some(thinking), Some(signature)) => Some(
                ContentBlock::Thinking { thinking, signature },
            ),
            _ => None,
        }
    } else if bytes_eq_str(&t, "redacted_thinking") {
        match get_str(doc, "data") {
            Some(data) => Some(ContentBlock::RedactedThinking { data }),
            None => None,
        }
    } else if bytes_eq_str(&t, "tool_use") || bytes_eq_str(&t, "server_tool_use") {
        let id = match get_str(doc, "id") {
            Some(x) => x,
            None => {
                return None;
            },
        };
        let name = match get_str(doc, "name") {
            Some(x) => x,
            None => {
                return None;
            },
        };
        let input = match get_field(doc, "input") {
            Some(inp) => inp.clone(),
            None => {
                return None;
            },
        };
        if bytes_eq_str(&t, "tool_use") {
            Some(ContentBlock::ToolUse { id, name, input })
        } else {
            Some(ContentBlock::ServerToolUse { id, name, input })
        }
    } else if bytes_eq_str(&t, "web_search_tool_result") {
        let tool_use_id = match get_str(doc, "tool_use_id") {
            Some(x) => x,
            None => {
                return None;
            },
        };
        let items: &Vec<Json> = match get_field(doc, "content") {
            Some(Json::Array(items)) => items,
            _ => {
                return None;
            },
        };
        let ghost item_models = arr_field(doc.model(), "content".spec_bytes()).unwrap();
        proof {
            crate::json::lemma_models_of_seq(items@);
            assert(item_models == crate::json::models_of_seq(items@));
        }
        let mut content: Vec<WebSearchResult> = Vec::new();
        let mut i: usize = 0;
        #[verifier::loop_isolation(false)]
        while i < items.len()
            invariant
                i <= items@.len(),
                content@.len() == i,
                item_models.len() == items@.len(),
                forall|k: int| 0 <= k < items@.len() ==> #[trigger] item_models[k]
                    == items@[k].model(),
                forall|k: int| 0 <= k < i ==> web_result_of_doc(#[trigger] item_models[k])
                    == Option::Some(content@[k].model()),
            decreases items@.len() - i,
        {
            match extract_web_result(&items[i]) {
                Some(w) => content.push(w),
                None => {
                    proof {
                        lemma_web_results_fail(item_models, i as int);
                    }
                    return None;
                },
            }
            i += 1;
        }
        proof {
            lemma_web_results_all(
                item_models,
                content@.map_values(|w: WebSearchResult| w.model()),
            );
        }
        Some(ContentBlock::WebSearchToolResult { tool_use_id, content })
    } else {
        None
    }
}

/// The content blocks an array denotes: every element must denote one.
pub open spec fn blocks_of(items: Seq<JsonModel>) -> Option<Seq<ContentBlockModel>>
    decreases items.len(),
{
    if items.len() == 0 {
        Option::Some(Seq::empty())
    } else {
        match block_of_doc(items.first()) {
            Option::Some(b) => match blocks_of(items.drop_first()) {
                Option::Some(rest) => Option::Some(seq![b] + rest),
                Option::None => Option::None,
            },
            Option::None => Option::None,
        }
    }
}

/// When every element denotes a block, the array denotes them in order.
proof fn lemma_blocks_all(items: Seq<JsonModel>, bs: Seq<ContentBlockModel>)
    requires
        items.len() == bs.len(),
        forall|k: int| 0 <= k < items.len() ==> block_of_doc(#[trigger] items[k]) == Option::Some(
            bs[k],
        ),
    ensures
        blocks_of(items) == Option::Some(bs),
    decreases items.len(),
{
    if items.len() == 0 {
        assert(bs =~= Seq::<ContentBlockModel>::empty());
    } else {
        lemma_blocks_all(items.drop_first(), bs.drop_first());
        assert(seq![bs.first()] + bs.drop_first() =~= bs);
    }
}

/// When some element denotes no block, the array denotes nothing.
proof fn lemma_blocks_fail(items: Seq<JsonModel>, k: int)
    requires
        0 <= k < items.len(),
        (block_of_doc(items[k]) is None),
    ensures
        (blocks_of(items) is None),
    decreases items.len(),
{
    if k > 0 && !(block_of_doc(items.first()) is None) {
        lemma_blocks_fail(items.drop_first(), k - 1);
    }
}

/// The message a document denotes: everything but the stop fields is
/// required; a present but unknown stop reason or role denotes nothing.
pub open spec fn message_of_doc(m: JsonModel) -> Option<MessageModel> {
    match (
        str_field(m, "id".spec_bytes()),
        str_field(m, "type".spec_bytes()),
        str_field(m, "role".spec_bytes()),
        str_field(m, "model".spec_bytes()),
    ) {
        (Option::Some(id), Option::Some(object_type), Option::Some(role_name), Option::Some(model)) => {
            match role_of(role_name) {
                Option::Some(role) => {
                    match arr_field(m, "content".spec_bytes()) {
                        Option::Some(items) => {
                            match blocks_of(items) {
                                Option::Some(content) => {
                                    let stop_name = str_field(m, "stop_reason".spec_bytes());
                                    if stop_name is Some && (stop_reason_of(stop_name.unwrap())
                                        is None) {
                                        Option::None
                                    } else {
                                        match obj_field(m, "usage".spec_bytes()) {
                                            Option::Some(u) => match usage_of_doc(u) {
                                                Option::Some(usage) => Option::Some(
                                                    MessageModel {
                                                        id,
                                                        object_type,
                                                        role,
                                                        content,
                                                        model,
                                                        stop_reason: match stop_name {
                                                            Option::Some(s) => stop_reason_of(s),
                                                            Option::None => Option::None,
                                                        },
                                                        stop_sequence: str_field(
                                                            m,
                                                            "stop_sequence".spec_bytes(),
                                                        ),
                                                        usage,
                                                    },
                                                ),
                                                Option::None => Option::None,
                                            },
                                            Option::None => Option::None,
                                        }
                                    }
                                },
                                Option::None => Option::None,
                            }
                        },
                        Option::None => Option::None,
                    }
                },
                Option::None => Option::None,
            }
        },
        _ => Option::None,
    }
}

/// Decode a message, exactly as [`message_of_doc`] says.
fn extract_message(doc: &Json) -> (r: Option<Message>)
    ensures
        ({
            match r {
                Option::Some(msg) => message_of_doc(doc.model()) == Option::Some(msg.spec_model()),
                Option::None => (message_of_doc(doc.model()) is None),
            }
        }),
{
    let id = match get_str(doc, "id") {
        Some(x) => x,
        None => {
            return None;
        },
    };
    let object_type = match get_str(doc, "type") {
        Some(x) => x,
        None => {
            return None;
        },
    };
    let role = match get_str(doc, "role") {
        Some(x) => match parse_role(&x) {
            Some(r) => r,
            None => {
                return None;
            },
        },
        None => {
            return None;
        },
    };
    let model = match get_str(doc, "model") {
        Some(x) => x,
        None => {
            return None;
        },
    };
    let items: &Vec<Json> = match get_field(doc, "content") {
        Some(Json::Array(items)) => items,
        _ => {
            return None;
        },
    };
    let ghost item_models = arr_field(doc.model(), "content".spec_bytes()).unwrap();
    proof {
        crate::json::lemma_models_of_seq(items@);
        assert(item_models == crate::json::models_of_seq(items@));
    }
    let mut content: Vec<ContentBlock> = Vec::new();
    let mut i: usize = 0;
    #[verifier::loop_isolation(false)]
    while i < items.len()
        invariant
            i <= items@.len(),
            content@.len() == i,
            item_models.len() == items@.len(),
            forall|k: int| 0 <= k < items@.len() ==> #[trigger] item_models[k]
                == items@[k].model(),
            forall|k: int| 0 <= k < i ==> block_of_doc(#[trigger] item_models[k]) == Option::Some(
                content@[k].model(),
            ),
        decreases items@.len() - i,
    {
        match extract_content_block(&items[i]) {
            Some(b) => content.push(b),
            None => {
                proof {
                    lemma_blocks_fail(item_models, i as int);
                }
                return None;
            },
        }
        i += 1;
    }
    proof {
        lemma_blocks_all(item_models, content@.map_values(|b: ContentBlock| b.model()));
    }
    let stop_reason = match get_str(doc, "stop_reason") {
        Some(x) => match parse_stop_reason(&x) {
            Some(r) => Some(r),
            None => {
                return None;
            },
        },
        None => None,
    };
    let usage = match get_field(doc, "usage") {
        Some(u) => match extract_usage(u) {
            Some(u) => u,
            None => {
                return None;
            },
        },
        None => {
            return None;
        },
    };
    let msg = Message {
        id,
        object_type,
        role,
        content,
        model,
        stop_reason,
        stop_sequence: get_str(doc, "stop_sequence"),
        usage,
    };
    proof {
        assert(message_of_doc(doc.model()) == Option::Some(msg.spec_model())) by {
            assert(msg.spec_model() =~= message_of_doc(doc.model()).unwrap());
        }
    }
    Some(msg)
}

/// Everything the mapper may read from an event's JSON payload, as plain
/// values.  Absent or differently-typed fields read as `None`.
pub struct EventFields {
    /// The `type` discriminator, when it is a string.
    pub payload_type: Option<Vec<u8>>,
    /// The `message` object, decoded, for a message start.
    pub message: Option<Message>,
    /// The `message` field, when it is a string (an error payload).
    pub top_message: Option<Vec<u8>>,
    /// `error.type`, for the error variant.
    pub error_obj_type: Option<Vec<u8>>,
    /// `error.message`, for the error variant.
    pub error_obj_message: Option<Vec<u8>>,
    /// `delta.stop_reason`, as its payload string.
    pub stop_reason: Option<Vec<u8>>,
    /// `delta.stop_sequence`.
    pub stop_sequence: Option<Vec<u8>>,
    /// `usage.output_tokens`.
    pub usage_output_tokens: Option<u64>,
    /// The content block `index`.
    pub index: Option<u64>,
    /// The `content_block` object, decoded, for a content block start.
    pub content_block: Option<ContentBlock>,
    /// `delta.type`, the nested discriminator.
    pub delta_type: Option<Vec<u8>>,
    /// `delta.text`.
    pub delta_text: Option<Vec<u8>>,
    /// `delta.partial_json`.
    pub delta_partial_json: Option<Vec<u8>>,
    /// `delta.thinking`.
    pub delta_thinking: Option<Vec<u8>>,
    /// `delta.signature`.
    pub delta_signature: Option<Vec<u8>>,
    /// `delta.citation`, as its JSON document.
    pub delta_citation: Option<Json>,
}

/// Mathematical image of the extracted payload fields.
#[verifier::ext_equal]
pub ghost struct EventFieldsModel {
    pub payload_type: Option<Seq<u8>>,
    pub message: Option<MessageModel>,
    pub top_message: Option<Seq<u8>>,
    pub error_obj_type: Option<Seq<u8>>,
    pub error_obj_message: Option<Seq<u8>>,
    pub stop_reason: Option<Seq<u8>>,
    pub stop_sequence: Option<Seq<u8>>,
    pub usage_output_tokens: Option<u64>,
    pub index: Option<u64>,
    pub content_block: Option<ContentBlockModel>,
    pub delta_type: Option<Seq<u8>>,
    pub delta_text: Option<Seq<u8>>,
    pub delta_partial_json: Option<Seq<u8>>,
    pub delta_thinking: Option<Seq<u8>>,
    pub delta_signature: Option<Seq<u8>>,
    pub delta_citation: Option<JsonModel>,
}

impl EventFields {
    /// The mathematical image of these fields.
    pub open spec fn model(&self) -> EventFieldsModel {
        EventFieldsModel {
            payload_type: opt_bytes(self.payload_type),
            message: match self.message {
                Option::Some(m) => Option::Some(m.spec_model()),
                Option::None => Option::None,
            },
            top_message: opt_bytes(self.top_message),
            error_obj_type: opt_bytes(self.error_obj_type),
            error_obj_message: opt_bytes(self.error_obj_message),
            stop_reason: opt_bytes(self.stop_reason),
            stop_sequence: opt_bytes(self.stop_sequence),
            usage_output_tokens: self.usage_output_tokens,
            index: self.index,
            content_block: match self.content_block {
                Option::Some(c) => Option::Some(c.model()),
                Option::None => Option::None,
            },
            delta_type: opt_bytes(self.delta_type),
            delta_text: opt_bytes(self.delta_text),
            delta_partial_json: opt_bytes(self.delta_partial_json),
            delta_thinking: opt_bytes(self.delta_thinking),
            delta_signature: opt_bytes(self.delta_signature),
            delta_citation: match self.delta_citation {
                Option::Some(j) => Option::Some(j.model()),
                Option::None => Option::None,
            },
        }
    }
}

/// The payload fields a document denotes.
pub open spec fn fields_of_doc(m: JsonModel) -> EventFieldsModel {
    let delta = obj_field(m, "delta".spec_bytes());
    EventFieldsModel {
        payload_type: str_field(m, "type".spec_bytes()),
        message: match obj_field(m, "message".spec_bytes()) {
            Option::Some(mm) => message_of_doc(mm),
            Option::None => Option::None,
        },
        top_message: str_field(m, "message".spec_bytes()),
        error_obj_type: match obj_field(m, "error".spec_bytes()) {
            Option::Some(e) => str_field(e, "type".spec_bytes()),
            Option::None => Option::None,
        },
        error_obj_message: match obj_field(m, "error".spec_bytes()) {
            Option::Some(e) => str_field(e, "message".spec_bytes()),
            Option::None => Option::None,
        },
        stop_reason: match delta {
            Option::Some(d) => str_field(d, "stop_reason".spec_bytes()),
            Option::None => Option::None,
        },
        stop_sequence: match delta {
            Option::Some(d) => str_field(d, "stop_sequence".spec_bytes()),
            Option::None => Option::None,
        },
        usage_output_tokens: match obj_field(m, "usage".spec_bytes()) {
            Option::Some(u) => u64_field(u, "output_tokens".spec_bytes()),
            Option::None => Option::None,
        },
        index: u64_field(m, "index".spec_bytes()),
        content_block: match obj_field(m, "content_block".spec_bytes()) {
            Option::Some(c) => block_of_doc(c),
            Option::None => Option::None,
        },
        delta_type: match delta {
            Option::Some(d) => str_field(d, "type".spec_bytes()),
            Option::None => Option::None,
        },
        delta_text: match delta {
            Option::Some(d) => str_field(d, "text".spec_bytes()),
            Option::None => Option::None,
        },
        delta_partial_json: match delta {
            Option::Some(d) => str_field(d, "partial_json".spec_bytes()),
            Option::None => Option::None,
        },
        delta_thinking: match delta {
            Option::Some(d) => str_field(d, "thinking".spec_bytes()),
            Option::None => Option::None,
        },
        delta_signature: match delta {
            Option::Some(d) => str_field(d, "signature".spec_bytes()),
            Option::None => Option::None,
        },
        delta_citation: match delta {
            Option::Some(d) => obj_field(d, "citation".spec_bytes()),
            Option::None => Option::None,
        },
    }
}

/// Read every field the mapper may need out of a parsed payload, exactly
/// as [`fields_of_doc`] says.
fn extract_fields(doc: &Json) -> (fields: EventFields)
    ensures
        fields.model() == fields_of_doc(doc.model()),
{
    let delta = get_field(doc, "delta");
    let (error_obj_type, error_obj_message) = match get_field(doc, "error") {
        Some(e) => (get_str(e, "type"), get_str(e, "message")),
        None => (None, None),
    };
    let fields = EventFields {
        payload_type: get_str(doc, "type"),
        message: match get_field(doc, "message") {
            Some(mm) => extract_message(mm),
            None => None,
        },
        top_message: get_str(doc, "message"),
        error_obj_type,
        error_obj_message,
        stop_reason: match delta {
            Some(d) => get_str(d, "stop_reason"),
            None => None,
        },
        stop_sequence: match delta {
            Some(d) => get_str(d, "stop_sequence"),
            None => None,
        },
        usage_output_tokens: match get_field(doc, "usage") {
            Some(u) => get_u64(u, "output_tokens"),
            None => None,
        },
        index: get_u64(doc, "index"),
        content_block: match get_field(doc, "content_block") {
            Some(c) => extract_content_block(c),
            None => None,
        },
        delta_type: match delta {
            Some(d) => get_str(d, "type"),
            None => None,
        },
        delta_text: match delta {
            Some(d) => get_str(d, "text"),
            None => None,
        },
        delta_partial_json: match delta {
            Some(d) => get_str(d, "partial_json"),
            None => None,
        },
        delta_thinking: match delta {
            Some(d) => get_str(d, "thinking"),
            None => None,
        },
        delta_signature: match delta {
            Some(d) => get_str(d, "signature"),
            None => None,
        },
        delta_citation: match delta {
            Some(d) => match get_field(d, "citation") {
                Some(c) => Some(c.clone()),
                None => None,
            },
            None => None,
        },
    };
    proof {
        assert(fields.model() =~= fields_of_doc(doc.model()));
    }
    fields
}

/// The discriminator that applies: the payload's own `type` when present,
/// else the event name.
pub open spec fn effective_name(event_name: Seq<u8>, f: EventFieldsModel) -> Seq<u8> {
    match f.payload_type {
        Option::Some(t) => t,
        Option::None => event_name,
    }
}

/// The nested content-block-delta the fields denote, if its discriminator
/// is known and its required field is present.
pub open spec fn delta_of_fields(f: EventFieldsModel) -> Option<ContentBlockDeltaModel> {
    match f.delta_type {
        Option::Some(t) => {
            if t == "text_delta".spec_bytes() {
                match f.delta_text {
                    Option::Some(x) => Option::Some(ContentBlockDeltaModel::TextDelta { text: x }),
                    Option::None => Option::None,
                }
            } else if t == "input_json_delta".spec_bytes() {
                match f.delta_partial_json {
                    Option::Some(x) => Option::Some(
                        ContentBlockDeltaModel::InputJsonDelta { partial_json: x },
                    ),
                    Option::None => Option::None,
                }
            } else if t == "thinking_delta".spec_bytes() {
                match f.delta_thinking {
                    Option::Some(x) => Option::Some(
                        ContentBlockDeltaModel::ThinkingDelta { thinking: x },
                    ),
                    Option::None => Option::None,
                }
            } else if t == "signature_delta".spec_bytes() {
                match f.delta_signature {
                    Option::Some(x) => Option::Some(
                        ContentBlockDeltaModel::SignatureDelta { signature: x },
                    ),
                    Option::None => Option::None,
                }
            } else if t == "citations_delta".spec_bytes() {
                match f.delta_citation {
                    Option::Some(x) => Option::Some(
                        ContentBlockDeltaModel::CitationsDelta { citation: x },
                    ),
                    Option::None => Option::None,
                }
            } else {
                Option::None
            }
        },
        Option::None => Option::None,
    }
}

/// The typed event an event name and its payload fields denote, or nothing
/// when decoding must fail: an unknown discriminator, a missing required
/// field, or an out-of-range integer.
pub open spec fn event_from_fields_spec(event_name: Seq<u8>, f: EventFieldsModel) -> Option<
    StreamEventModel,
> {
    if event_name == "ping".spec_bytes() {
        Option::Some(StreamEventModel::Ping)
    } else if event_name == "error".spec_bytes() {
        match (f.payload_type, f.top_message) {
            (Option::Some(t), Option::Some(m)) => Option::Some(
                StreamEventModel::Error { error_type: t, message: m },
            ),
            _ => Option::None,
        }
    } else {
        let name = effective_name(event_name, f);
        if name == "message_start".spec_bytes() {
            match f.message {
                Option::Some(m) => Option::Some(StreamEventModel::MessageStart { message: m }),
                Option::None => Option::None,
            }
        } else if name == "message_delta".spec_bytes() {
            match f.usage_output_tokens {
                Option::Some(t) => {
                    if t <= u32::MAX as u64 {
                        match f.stop_reason {
                            Option::Some(sr) => match stop_reason_of(sr) {
                                Option::Some(reason) => Option::Some(
                                    StreamEventModel::MessageDelta {
                                        stop_reason: Option::Some(reason),
                                        stop_sequence: f.stop_sequence,
                                        output_tokens: t as u32,
                                    },
                                ),
                                Option::None => Option::None,
                            },
                            Option::None => Option::Some(
                                StreamEventModel::MessageDelta {
                                    stop_reason: Option::None,
                                    stop_sequence: f.stop_sequence,
                                    output_tokens: t as u32,
                                },
                            ),
                        }
                    } else {
                        Option::None
                    }
                },
                Option::None => Option::None,
            }
        } else if name == "message_stop".spec_bytes() {
            Option::Some(StreamEventModel::MessageStop)
        } else if name == "content_block_start".spec_bytes() {
            match (f.index, f.content_block) {
                (Option::Some(i), Option::Some(cb)) => {
                    if i <= usize::MAX as u64 {
                        Option::Some(
                            StreamEventModel::ContentBlockStart {
                                index: i as usize,
                                content_block: cb,
                            },
                        )
                    } else {
                        Option::None
                    }
                },
                _ => Option::None,
            }
        } else if name == "content_block_delta".spec_bytes() {
            match (f.index, delta_of_fields(f)) {
                (Option::Some(i), Option::Some(d)) => {
                    if i <= usize::MAX as u64 {
                        Option::Some(
                            StreamEventModel::ContentBlockDelta { index: i as usize, delta: d },
                        )
                    } else {
                        Option::None
                    }
                },
                _ => Option::None,
            }
        } else if name == "content_block_stop".spec_bytes() {
            match f.index {
                Option::Some(i) => {
                    if i <= usize::MAX as u64 {
                        Option::Some(StreamEventModel::ContentBlockStop { index: i as usize })
                    } else {
                        Option::None
                    }
                },
                Option::None => Option::None,
            }
        } else if name == "ping".spec_bytes() {
            Option::Some(StreamEventModel::Ping)
        } else if name == "error".spec_bytes() {
            match (f.error_obj_type, f.error_obj_message) {
                (Option::Some(t), Option::Some(m)) => Option::Some(
                    StreamEventModel::Error { error_type: t, message: m },
                ),
                _ => Option::None,
            }
        } else {
            Option::None
        }
    }
}

/// The typed event a raw event's name and payload bytes denote, when the
/// payload is well-formed JSON.
pub open spec fn event_for_data(event_name: Seq<u8>, data: Seq<u8>) -> Option<StreamEventModel> {
    event_from_fields_spec(event_name, fields_of_doc(json_doc(data)))
}

/// Map an event name and its extracted payload fields to the typed event,
/// exactly as [`event_from_fields_spec`] says; a denoted event comes back
/// `Ok`, anything else is a decode error.
pub fn event_from_fields(event_name: &Vec<u8>, fields: EventFields) -> (r: Result<
    MessageStreamEvent,
    AnthropicError,
>)
    ensures
        ({
            match event_from_fields_spec(event_name@, fields.model()) {
                Option::Some(m) => r matches Ok(ev) && ev.model() == m,
                Option::None => r matches Err(e) && e is Json,
            }
        }),
{
    if bytes_eq_str(event_name, "ping") {
        return Ok(MessageStreamEvent::Ping);
    }
    if bytes_eq_str(event_name, "error") {
        return match (fields.payload_type, fields.top_message) {
            (Some(t), Some(m)) => Ok(
                MessageStreamEvent::Error { error: StreamError { error_type: t, message: m } },
            ),
            _ => Err(decode_error()),
        };
    }
    let name: Vec<u8> = match fields.payload_type {
        Some(ref t) => clone_bytes(t),
        None => clone_bytes(event_name),
    };
    proof {
        assert(name@ == effective_name(event_name@, fields.model()));
    }
    if bytes_eq_str(&name, "message_start") {
        match fields.message {
            Some(m) => Ok(MessageStreamEvent::MessageStart { message: m }),
            None => Err(decode_error()),
        }
    } else if bytes_eq_str(&name, "message_delta") {
        match fields.usage_output_tokens {
            Some(t) => {
                if t <= u32::MAX as u64 {
                    let reason: Option<StopReason> = match fields.stop_reason {
                        Some(sr) => {
                            match parse_stop_reason(&sr) {
                                Some(reason) => Some(reason),
                                None => {
                                    return Err(decode_error());
                                },
                            }
                        },
                        None => None,
                    };
                    Ok(
                        MessageStreamEvent::MessageDelta {
                            delta: MessageDelta {
                                stop_reason: reason,
                                stop_sequence: fields.stop_sequence,
                            },
                            usage: MessageDeltaUsage { output_tokens: t as u32 },
                        },
                    )
                } else {
                    Err(decode_error())
                }
            },
            None => Err(decode_error()),
        }
    } else if bytes_eq_str(&name, "message_stop") {
        Ok(MessageStreamEvent::MessageStop)
    } else if bytes_eq_str(&name, "content_block_start") {
        match (fields.index, fields.content_block) {
            (Some(i), Some(cb)) => {
                if i <= usize::MAX as u64 {
                    Ok(
                        MessageStreamEvent::ContentBlockStart {
                            index: i as usize,
                            content_block: cb,
                        },
                    )
                } else {
                    Err(decode_error())
                }
            },
            _ => Err(decode_error()),
        }
    } else if bytes_eq_str(&name, "content_block_delta") {
        let index: u64 = match fields.index {
            Some(i) => i,
            None => {
                return Err(decode_error());
            },
        };
        if index > usize::MAX as u64 {
            return Err(decode_error());
        }
        let delta: ContentBlockDelta = match build_delta(fields) {
            Some(d) => d,
            None => {
                return Err(decode_error());
            },
        };
        Ok(MessageStreamEvent::ContentBlockDelta { index: index as usize, delta })
    } else if bytes_eq_str(&name, "content_block_stop") {
        match fields.index {
            Some(i) => {
                if i <= usize::MAX as u64 {
                    Ok(MessageStreamEvent::ContentBlockStop { index: i as usize })
                } else {
                    Err(decode_error())
                }
            },
            None => Err(decode_error()),
        }
    } else if bytes_eq_str(&name, "ping") {
        Ok(MessageStreamEvent::Ping)
    } else if bytes_eq_str(&name, "error") {
        match (fields.error_obj_type, fields.error_obj_message) {
            (Some(t), Some(m)) => Ok(
                MessageStreamEvent::Error { error: StreamError { error_type: t, message: m } },
            ),
            _ => Err(decode_error()),
        }
    } else {
        Err(decode_error())
    }
}

/// Build the nested delta from the fields, exactly as [`delta_of_fields`]
/// says.
fn build_delta(fields: EventFields) -> (r: Option<ContentBlockDelta>)
    ensures
        ({
            match delta_of_fields(fields.model()) {
                Option::Some(d) => r matches Some(x) && x.model() == d,
                Option::None => r is None,
            }
        }),
{
    match fields.delta_type {
        Some(t) => {
            if bytes_eq_str(&t, "text_delta") {
                match fields.delta_text {
                    Some(x) => Some(ContentBlockDelta::TextDelta { text: x }),
                    None => None,
                }
            } else if bytes_eq_str(&t, "input_json_delta") {
                match fields.delta_partial_json {
                    Some(x) => Some(ContentBlockDelta::InputJsonDelta { partial_json: x }),
                    None => None,
                }
            } else if bytes_eq_str(&t, "thinking_delta") {
                match fields.delta_thinking {
                    Some(x) => Some(ContentBlockDelta::ThinkingDelta { thinking: x }),
                    None => None,
                }
            } else if bytes_eq_str(&t, "signature_delta") {
                match fields.delta_signature {
                    Some(x) => Some(ContentBlockDelta::SignatureDelta { signature: x }),
                    None => None,
                }
            } else if bytes_eq_str(&t, "citations_delta") {
                match fields.delta_citation {
                    Some(x) => Some(ContentBlockDelta::CitationsDelta { citation: x }),
                    None => None,
                }
            } else {
                None
            }
        },
        None => None,
    }
}

/// A decode failure surfaced to the stream.
fn decode_error() -> (r: AnthropicError)
    ensures
        (r is Json),
{
    AnthropicError::Json { message: str_bytes("invalid event payload") }
}

/// Map one raw event to its typed event.
///
/// A `ping` event maps to `Ping` without parsing.  Otherwise the payload
/// must be well-formed JSON, or the result is a decode error; the decoded
/// document then determines the result exactly: the event denoted by
/// [`event_for_data`] comes back `Ok`, and anything else is a decode
/// error.
pub fn parse_event(raw: &RawStreamEvent) -> (r: Result<MessageStreamEvent, AnthropicError>)
    ensures
        raw.event@ == "ping".spec_bytes() ==> (r matches Ok(ev) && ev.model()
            == StreamEventModel::Ping),
        raw.event@ != "ping".spec_bytes() && !json_wf(raw.data@) ==> (r matches Err(e) && e
            is Json),
        raw.event@ != "ping".spec_bytes() && json_wf(raw.data@) ==> ({
            match event_for_data(raw.event@, raw.data@) {
                Option::Some(m) => r matches Ok(ev) && ev.model() == m,
                Option::None => r matches Err(e) && e is Json,
            }
        }),
{
    if bytes_eq_str(&raw.event, "ping") {
        return Ok(MessageStreamEvent::Ping);
    }
    match parse_json_doc(&raw.data) {
        Err(e) => Err(AnthropicError::Json { message: json_error_message(&e) }),
        Ok(doc) => {
            let fields = extract_fields(&doc);
            event_from_fields(&raw.event, fields)
        },
    }
}

/// The message of a well-formed API error envelope
/// `{type, error: {type, message}}`, when the document is one.
pub open spec fn envelope_message_of(m: JsonModel) -> Option<Seq<u8>> {
    if str_field(m, "type".spec_bytes()) is Some {
        match obj_field(m, "error".spec_bytes()) {
            Option::Some(e) => if str_field(e, "type".spec_bytes()) is Some {
                str_field(e, "message".spec_bytes())
            } else {
                Option::None
            },
            Option::None => Option::None,
        }
    } else {
        Option::None
    }
}

/// The message a response body yields: the envelope's `error.message` when
/// the body is a well-formed JSON error envelope, else the raw body.
pub open spec fn response_message(body: Seq<u8>) -> Seq<u8> {
    if !json_wf(body) {
        body
    } else {
        match envelope_message_of(json_doc(body)) {
            Option::Some(msg) => msg,
            Option::None => body,
        }
    }
}

/// Decode a well-formed API error envelope, when the document is one.
fn parse_error_response(doc: &Json) -> (r: Option<ErrorResponse>)
    ensures
        ({
            match r {
                Option::Some(env) => envelope_message_of(doc.model()) == Option::Some(
                    env.error.message@,
                ),
                Option::None => (envelope_message_of(doc.model()) is None),
            }
        }),
{
    let envelope_type = match get_str(doc, "type") {
        Some(t) => t,
        None => {
            return None;
        },
    };
    match get_field(doc, "error") {
        Some(e) => {
            let inner_type = match get_str(e, "type") {
                Some(t) => t,
                None => {
                    return None;
                },
            };
            match get_str(e, "message") {
                Some(message) => Some(
                    ErrorResponse {
                        error_type: envelope_type,
                        error: ErrorObject { error_type: inner_type, message },
                    },
                ),
                None => None,
            }
        },
        None => None,
    }
}

/// Classify a non-success HTTP response into an error.
///
/// The message is the envelope's `error.message` when the body parses as
/// the API error envelope, else the raw body, exactly as
/// [`response_message`] says; the status, request id and retry hint then
/// map exactly as `error_for_status` says.
pub fn classify_response(
    status: u16,
    body: Vec<u8>,
    request_id: Option<Vec<u8>>,
    retry_after_ms: Option<u64>,
) -> (r: AnthropicError)
    ensures
        r.model() == error_for_status(
            status,
            response_message(body@),
            opt_view(request_id),
            retry_after_ms,
        ),
{
    let ghost body_view = body@;
    let message: Vec<u8> = match parse_json_doc(&body) {
        Ok(doc) => {
            match parse_error_response(&doc) {
                Some(envelope) => envelope.error.message,
                None => body,
            }
        },
        Err(_) => body,
    };
    proof {
        assert(message@ == response_message(body_view));
    }
    AnthropicError::from_status(status, message, request_id, retry_after_ms)
}

} // verus!
