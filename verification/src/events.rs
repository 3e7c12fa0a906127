//! Typed stream events and the stream-state accumulator.
//!
//! A raw server-sent event decodes into one [`MessageStreamEvent`]; folding
//! the events of a stream into a [`StreamState`] accumulates the text, the
//! reasoning text, the token count, the stop reason and the completion
//! flag.  The fold is specified by [`update_spec`] and is monotone:
//! accumulated text only grows and completion never reverts
//! ([`lemma_update_monotonic`]).
//!
//! Text is carried as UTF-8 bytes; JSON payloads passed through whole
//! (tool input, citations) are carried as [`Json`] documents.

use vstd::prelude::*;

use crate::json::{Json, JsonModel};

verus! {

/// The role of a message participant.
#[derive(Debug, Clone, Copy, PartialEq, Eq, Structural)]
pub enum Role {
    /// A user message.
    User,
    /// An assistant message.
    Assistant,
}

/// The reason the model stopped generating.
#[derive(Debug, Clone, Copy, PartialEq, Eq, Structural)]
pub enum StopReason {
    /// A natural stopping point.
    EndTurn,
    /// The maximum number of tokens was reached.
    MaxTokens,
    /// A stop sequence was generated.
    StopSequence,
    /// A tool use was requested.
    ToolUse,
    /// The turn was paused.
    PauseTurn,
    /// The model refused to generate content.
    Refusal,
}

/// Token usage for a request.
#[derive(Debug, Clone, Copy, PartialEq, Eq)]
pub struct Usage {
    /// Input tokens consumed.
    pub input_tokens: u32,
    /// Output tokens generated.
    pub output_tokens: u32,
    /// Tokens spent creating a cache entry, when reported.
    pub cache_creation_input_tokens: Option<u32>,
    /// Tokens read from the cache, when reported.
    pub cache_read_input_tokens: Option<u32>,
}

/// One web search result inside a tool result block.
#[derive(Debug, PartialEq, Eq)]
pub struct WebSearchResult {
    /// The URL of the result.
    pub url: Vec<u8>,
    /// The title of the result.
    pub title: Vec<u8>,
    /// A snippet of the result content, when present.
    pub snippet: Option<Vec<u8>>,
}

/// Mathematical image of a web search result.
#[verifier::ext_equal]
pub ghost struct WebSearchResultModel {
    pub url: Seq<u8>,
    pub title: Seq<u8>,
    pub snippet: Option<Seq<u8>>,
}

/// The view of an optional byte vector.
pub open spec fn opt_bytes(o: Option<Vec<u8>>) -> Option<Seq<u8>> {
    match o {
        Option::Some(v) => Option::Some(v@),
        Option::None => Option::None,
    }
}

impl WebSearchResult {
    /// The mathematical image of this result.
    pub open spec fn model(&self) -> WebSearchResultModel {
        WebSearchResultModel { url: self.url@, title: self.title@, snippet: opt_bytes(self.snippet) }
    }
}

/// A content block of a message, as announced by the server.
#[derive(Debug, PartialEq, Eq)]
pub enum ContentBlock {
    /// Plain text.
    Text { text: Vec<u8> },
    /// Extended reasoning text with its signature.
    Thinking { thinking: Vec<u8>, signature: Vec<u8> },
    /// Redacted reasoning data.
    RedactedThinking { data: Vec<u8> },
    /// A tool use request; the input is the JSON document as announced.
    ToolUse { id: Vec<u8>, name: Vec<u8>, input: Json },
    /// A server-side tool use; the input is the JSON document as announced.
    ServerToolUse { id: Vec<u8>, name: Vec<u8>, input: Json },
    /// A web search tool result.
    WebSearchToolResult { tool_use_id: Vec<u8>, content: Vec<WebSearchResult> },
}

/// Mathematical image of a content block.
#[verifier::ext_equal]
pub ghost enum ContentBlockModel {
    Text { text: Seq<u8> },
    Thinking { thinking: Seq<u8>, signature: Seq<u8> },
    RedactedThinking { data: Seq<u8> },
    ToolUse { id: Seq<u8>, name: Seq<u8>, input: JsonModel },
    ServerToolUse { id: Seq<u8>, name: Seq<u8>, input: JsonModel },
    WebSearchToolResult { tool_use_id: Seq<u8>, content: Seq<WebSearchResultModel> },
}

impl ContentBlock {
    /// The mathematical image of this block.
    pub open spec fn model(&self) -> ContentBlockModel {
        match self {
            ContentBlock::Text { text } => ContentBlockModel::Text { text: text@ },
            ContentBlock::Thinking { thinking, signature } => ContentBlockModel::Thinking {
                thinking: thinking@,
                signature: signature@,
            },
            ContentBlock::RedactedThinking { data } => ContentBlockModel::RedactedThinking {
                data: data@,
            },
            ContentBlock::ToolUse { id, name, input } => ContentBlockModel::ToolUse {
                id: id@,
                name: name@,
                input: input.model(),
            },
            ContentBlock::ServerToolUse { id, name, input } => ContentBlockModel::ServerToolUse {
                id: id@,
                name: name@,
                input: input.model(),
            },
            ContentBlock::WebSearchToolResult { tool_use_id, content } => ContentBlockModel::WebSearchToolResult {
                tool_use_id: tool_use_id@,
                content: content@.map_values(|r: WebSearchResult| r.model()),
            },
        }
    }

    /// The text, if this is a text block.
    pub fn as_text(&self) -> (r: Option<&Vec<u8>>)
        ensures
            ({
                match self {
                    ContentBlock::Text { text } => r == Option::Some(text),
                    _ => r is None,
                }
            }),
    {
        match self {
            ContentBlock::Text { text } => Some(text),
            _ => None,
        }
    }

    /// The id, name and JSON input, if this is a tool use block.
    pub fn as_tool_use(&self) -> (r: Option<(&Vec<u8>, &Vec<u8>, &Json)>)
        ensures
            ({
                match self {
                    ContentBlock::ToolUse { id, name, input } => r == Option::Some(
                        (id, name, input),
                    ),
                    _ => r is None,
                }
            }),
    {
        match self {
            ContentBlock::ToolUse { id, name, input } => Some((id, name, input)),
            _ => None,
        }
    }

    /// Whether this is a text block.
    pub fn is_text(&self) -> (r: bool)
        ensures
            r == (self.model() is Text),
    {
        match self {
            ContentBlock::Text { .. } => true,
            _ => false,
        }
    }

    /// Whether this is a tool use block.
    pub fn is_tool_use(&self) -> (r: bool)
        ensures
            r == (self.model() is ToolUse),
    {
        match self {
            ContentBlock::ToolUse { .. } => true,
            _ => false,
        }
    }
}

/// Copy a byte vector; the copy has the same bytes.
pub(crate) fn clone_bytes(v: &Vec<u8>) -> (r: Vec<u8>)
    ensures
        r@ == v@,
{
    let r = v.clone();
    proof {
        assert forall|i: int| 0 <= i < v@.len() implies r@[i] == v@[i] by {
            assert(cloned::<u8>(v@[i], r@[i]));
        }
        assert(r@ =~= v@);
    }
    r
}

/// Copy an optional byte vector.
fn clone_opt_bytes(v: &Option<Vec<u8>>) -> (r: Option<Vec<u8>>)
    ensures
        opt_bytes(r) == opt_bytes(*v),
{
    match v {
        Some(b) => Some(clone_bytes(b)),
        None => None,
    }
}

impl Clone for WebSearchResult {
    /// The copy has the same image.
    fn clone(&self) -> (r: Self)
        ensures
            r.model() == self.model(),
    {
        WebSearchResult {
            url: clone_bytes(&self.url),
            title: clone_bytes(&self.title),
            snippet: clone_opt_bytes(&self.snippet),
        }
    }
}

impl Clone for ContentBlock {
    /// The copy has the same image.
    fn clone(&self) -> (r: Self)
        ensures
            r.model() == self.model(),
    {
        match self {
            ContentBlock::Text { text } => ContentBlock::Text { text: clone_bytes(text) },
            ContentBlock::Thinking { thinking, signature } => ContentBlock::Thinking {
                thinking: clone_bytes(thinking),
                signature: clone_bytes(signature),
            },
            ContentBlock::RedactedThinking { data } => ContentBlock::RedactedThinking {
                data: clone_bytes(data),
            },
            ContentBlock::ToolUse { id, name, input } => ContentBlock::ToolUse {
                id: clone_bytes(id),
                name: clone_bytes(name),
                input: input.clone(),
            },
            ContentBlock::ServerToolUse { id, name, input } => ContentBlock::ServerToolUse {
                id: clone_bytes(id),
                name: clone_bytes(name),
                input: input.clone(),
            },
            ContentBlock::WebSearchToolResult { tool_use_id, content } => {
                let cloned_content = content.clone();
                proof {
                    assert forall|i: int|
                        0 <= i < content@.len() implies cloned_content@[i].model()
                        == content@[i].model() by {
                        assert(cloned::<WebSearchResult>(content@[i], cloned_content@[i]));
                    }
                    assert(cloned_content@.map_values(|r: WebSearchResult| r.model())
                        =~= content@.map_values(|r: WebSearchResult| r.model()));
                }
                ContentBlock::WebSearchToolResult {
                    tool_use_id: clone_bytes(tool_use_id),
                    content: cloned_content,
                }
            },
        }
    }
}

/// A message response, as announced at stream start or returned whole.
#[derive(Debug, PartialEq, Eq)]
pub struct Message {
    /// Unique object identifier.
    pub id: Vec<u8>,
    /// Object type, `message`.
    pub object_type: Vec<u8>,
    /// The role, `assistant` for responses.
    pub role: Role,
    /// The content blocks.
    pub content: Vec<ContentBlock>,
    /// The model that generated the message.
    pub model: Vec<u8>,
    /// The reason generation stopped, once known.
    pub stop_reason: Option<StopReason>,
    /// The stop sequence that ended generation, if any.
    pub stop_sequence: Option<Vec<u8>>,
    /// Token usage.
    pub usage: Usage,
}

/// Mathematical image of a message.
#[verifier::ext_equal]
pub ghost struct MessageModel {
    pub id: Seq<u8>,
    pub object_type: Seq<u8>,
    pub role: Role,
    pub content: Seq<ContentBlockModel>,
    pub model: Seq<u8>,
    pub stop_reason: Option<StopReason>,
    pub stop_sequence: Option<Seq<u8>>,
    pub usage: Usage,
}

/// The text of a message: its text blocks concatenated in order.
pub open spec fn text_of_content(content: Seq<ContentBlockModel>) -> Seq<u8>
    decreases content.len(),
{
    if content.len() == 0 {
        Seq::empty()
    } else {
        (match content.first() {
            ContentBlockModel::Text { text } => text,
            _ => Seq::empty(),
        }) + text_of_content(content.drop_first())
    }
}

/// Appending one more block appends its text (and nothing for a non-text
/// block).
proof fn lemma_text_of_content_snoc(content: Seq<ContentBlockModel>, b: ContentBlockModel)
    ensures
        text_of_content(content.push(b)) == text_of_content(content) + (match b {
            ContentBlockModel::Text { text } => text,
            _ => Seq::<u8>::empty(),
        }),
    decreases content.len(),
{
    let tail = match b {
        ContentBlockModel::Text { text } => text,
        _ => Seq::<u8>::empty(),
    };
    if content.len() == 0 {
        assert(content.push(b).first() == b);
        assert(content.push(b).drop_first() =~= Seq::<ContentBlockModel>::empty());
        assert(text_of_content(content.push(b).drop_first()) == Seq::<u8>::empty());
        assert(text_of_content(content.push(b)) == tail + Seq::<u8>::empty());
        assert(tail + Seq::<u8>::empty() =~= tail);
        assert(text_of_content(content) + tail =~= tail);
        assert(text_of_content(content.push(b)) =~= text_of_content(content) + tail);
    } else {
        assert(content.push(b).first() == content.first());
        assert(content.push(b).drop_first() =~= content.drop_first().push(b));
        lemma_text_of_content_snoc(content.drop_first(), b);
        assert(text_of_content(content.push(b)) =~= text_of_content(content) + tail);
    }
}

/// The text blocks of a message, in order.
pub open spec fn text_blocks_of(content: Seq<ContentBlockModel>) -> Seq<Seq<u8>>
    decreases content.len(),
{
    if content.len() == 0 {
        Seq::empty()
    } else {
        (match content.first() {
            ContentBlockModel::Text { text } => seq![text],
            _ => Seq::<Seq<u8>>::empty(),
        }) + text_blocks_of(content.drop_first())
    }
}

/// The tool use requests of a message, in order, as (id, name, input).
pub open spec fn tool_uses_of(content: Seq<ContentBlockModel>) -> Seq<(Seq<u8>, Seq<u8>, JsonModel)>
    decreases content.len(),
{
    if content.len() == 0 {
        Seq::empty()
    } else {
        (match content.first() {
            ContentBlockModel::ToolUse { id, name, input } => seq![(id, name, input)],
            _ => Seq::<(Seq<u8>, Seq<u8>, JsonModel)>::empty(),
        }) + tool_uses_of(content.drop_first())
    }
}

/// Appending one more block appends its text block, if it is one.
proof fn lemma_text_blocks_snoc(content: Seq<ContentBlockModel>, b: ContentBlockModel)
    ensures
        text_blocks_of(content.push(b)) == text_blocks_of(content) + (match b {
            ContentBlockModel::Text { text } => seq![text],
            _ => Seq::<Seq<u8>>::empty(),
        }),
    decreases content.len(),
{
    let tail = match b {
        ContentBlockModel::Text { text } => seq![text],
        _ => Seq::<Seq<u8>>::empty(),
    };
    if content.len() == 0 {
        assert(content.push(b).first() == b);
        assert(content.push(b).drop_first() =~= Seq::<ContentBlockModel>::empty());
        assert(text_blocks_of(content.push(b).drop_first()) == Seq::<Seq<u8>>::empty());
        assert(text_blocks_of(content.push(b)) == tail + Seq::<Seq<u8>>::empty());
        assert(text_blocks_of(content) == Seq::<Seq<u8>>::empty());
        assert(tail + Seq::<Seq<u8>>::empty() =~= text_blocks_of(content) + tail);
        assert(text_blocks_of(content.push(b)) =~= text_blocks_of(content) + tail);
    } else {
        assert(content.push(b).first() == content.first());
        assert(content.push(b).drop_first() =~= content.drop_first().push(b));
        lemma_text_blocks_snoc(content.drop_first(), b);
        assert(text_blocks_of(content.push(b)) =~= text_blocks_of(content) + tail);
    }
}

/// Appending one more block appends its tool use, if it is one.
proof fn lemma_tool_uses_snoc(content: Seq<ContentBlockModel>, b: ContentBlockModel)
    ensures
        tool_uses_of(content.push(b)) == tool_uses_of(content) + (match b {
            ContentBlockModel::ToolUse { id, name, input } => seq![(id, name, input)],
            _ => Seq::<(Seq<u8>, Seq<u8>, JsonModel)>::empty(),
        }),
    decreases content.len(),
{
    let tail = match b {
        ContentBlockModel::ToolUse { id, name, input } => seq![(id, name, input)],
        _ => Seq::<(Seq<u8>, Seq<u8>, JsonModel)>::empty(),
    };
    if content.len() == 0 {
        assert(content.push(b).first() == b);
        assert(content.push(b).drop_first() =~= Seq::<ContentBlockModel>::empty());
        assert(tool_uses_of(content.push(b).drop_first()) == Seq::<
            (Seq<u8>, Seq<u8>, JsonModel),
        >::empty());
        assert(tool_uses_of(content.push(b)) == tail + Seq::<
            (Seq<u8>, Seq<u8>, JsonModel),
        >::empty());
        assert(tool_uses_of(content) == Seq::<(Seq<u8>, Seq<u8>, JsonModel)>::empty());
        assert(tail + Seq::<(Seq<u8>, Seq<u8>, JsonModel)>::empty() =~= tool_uses_of(content)
            + tail);
        assert(tool_uses_of(content.push(b)) =~= tool_uses_of(content) + tail);
    } else {
        assert(content.push(b).first() == content.first());
        assert(content.push(b).drop_first() =~= content.drop_first().push(b));
        lemma_tool_uses_snoc(content.drop_first(), b);
        assert(tool_uses_of(content.push(b)) =~= tool_uses_of(content) + tail);
    }
}

impl Message {
    /// The mathematical image of this message.
    pub open spec fn spec_model(&self) -> MessageModel {
        MessageModel {
            id: self.id@,
            object_type: self.object_type@,
            role: self.role,
            content: self.content@.map_values(|b: ContentBlock| b.model()),
            model: self.model@,
            stop_reason: self.stop_reason,
            stop_sequence: opt_bytes(self.stop_sequence),
            usage: self.usage,
        }
    }

    /// The message text: all text blocks concatenated, in order.
    pub fn text(&self) -> (r: Vec<u8>)
        ensures
            r@ == text_of_content(self.spec_model().content),
    {
        let ghost models = self.content@.map_values(|b: ContentBlock| b.model());
        let mut r: Vec<u8> = Vec::new();
        let mut i: usize = 0;
        proof {
            assert(models.take(0int) =~= Seq::<ContentBlockModel>::empty());
        }
        while i < self.content.len()
            invariant
                i <= self.content@.len(),
                models == self.content@.map_values(|b: ContentBlock| b.model()),
                r@ == text_of_content(models.take(i as int)),
            decreases self.content@.len() - i,
        {
            let ghost r_pre = r@;
            match &self.content[i] {
                ContentBlock::Text { text } => {
                    r.extend_from_slice(text.as_slice());
                },
                _ => {},
            }
            proof {
                lemma_text_of_content_snoc(models.take(i as int), models[i as int]);
                assert(models.take((i + 1) as int) =~= models.take(i as int).push(
                    models[i as int],
                ));
                assert(r@ =~= text_of_content(models.take((i + 1) as int)));
            }
            i += 1;
        }
        proof {
            assert(models.take(self.content@.len() as int) =~= models);
        }
        r
    }

    /// The text blocks of the message, in order.
    pub fn text_blocks(&self) -> (r: Vec<&Vec<u8>>)
        ensures
            r@.map_values(|t: &Vec<u8>| t@) == text_blocks_of(self.spec_model().content),
    {
        let ghost models = self.content@.map_values(|b: ContentBlock| b.model());
        let mut r: Vec<&Vec<u8>> = Vec::new();
        let mut i: usize = 0;
        proof {
            assert(models.take(0int) =~= Seq::<ContentBlockModel>::empty());
            assert(r@.map_values(|t: &Vec<u8>| t@) =~= Seq::<Seq<u8>>::empty());
        }
        while i < self.content.len()
            invariant
                i <= self.content@.len(),
                models == self.content@.map_values(|b: ContentBlock| b.model()),
                r@.map_values(|t: &Vec<u8>| t@) == text_blocks_of(models.take(i as int)),
            decreases self.content@.len() - i,
        {
            let ghost r_pre = r@.map_values(|t: &Vec<u8>| t@);
            match &self.content[i] {
                ContentBlock::Text { text } => {
                    r.push(text);
                    proof {
                        assert(r@.map_values(|t: &Vec<u8>| t@) =~= r_pre.push(text@));
                    }
                },
                _ => {},
            }
            proof {
                lemma_text_blocks_snoc(models.take(i as int), models[i as int]);
                assert(models.take((i + 1) as int) =~= models.take(i as int).push(
                    models[i as int],
                ));
                assert(r@.map_values(|t: &Vec<u8>| t@) =~= text_blocks_of(
                    models.take((i + 1) as int),
                ));
            }
            i += 1;
        }
        proof {
            assert(models.take(self.content@.len() as int) =~= models);
        }
        r
    }

    /// The tool use requests of the message, in order, as
    /// (id, name, JSON input).
    pub fn tool_uses(&self) -> (r: Vec<(&Vec<u8>, &Vec<u8>, &Json)>)
        ensures
            r@.map_values(|t: (&Vec<u8>, &Vec<u8>, &Json)| (t.0@, t.1@, t.2.model()))
                == tool_uses_of(self.spec_model().content),
    {
        let ghost models = self.content@.map_values(|b: ContentBlock| b.model());
        let mut r: Vec<(&Vec<u8>, &Vec<u8>, &Json)> = Vec::new();
        let mut i: usize = 0;
        proof {
            assert(models.take(0int) =~= Seq::<ContentBlockModel>::empty());
            assert(r@.map_values(|t: (&Vec<u8>, &Vec<u8>, &Json)| (t.0@, t.1@, t.2.model()))
                =~= Seq::<(Seq<u8>, Seq<u8>, JsonModel)>::empty());
        }
        while i < self.content.len()
            invariant
                i <= self.content@.len(),
                models == self.content@.map_values(|b: ContentBlock| b.model()),
                r@.map_values(|t: (&Vec<u8>, &Vec<u8>, &Json)| (t.0@, t.1@, t.2.model()))
                    == tool_uses_of(models.take(i as int)),
            decreases self.content@.len() - i,
        {
            let ghost r_pre = r@.map_values(
                |t: (&Vec<u8>, &Vec<u8>, &Json)| (t.0@, t.1@, t.2.model()),
            );
            match &self.content[i] {
                ContentBlock::ToolUse { id, name, input } => {
                    r.push((id, name, input));
                    proof {
                        assert(r@.map_values(
                            |t: (&Vec<u8>, &Vec<u8>, &Json)| (t.0@, t.1@, t.2.model()),
                        ) =~= r_pre.push((id@, name@, input.model())));
                    }
                },
                _ => {},
            }
            proof {
                lemma_tool_uses_snoc(models.take(i as int), models[i as int]);
                assert(models.take((i + 1) as int) =~= models.take(i as int).push(
                    models[i as int],
                ));
                assert(r@.map_values(|t: (&Vec<u8>, &Vec<u8>, &Json)| (t.0@, t.1@, t.2.model()))
                    =~= tool_uses_of(models.take((i + 1) as int)));
            }
            i += 1;
        }
        proof {
            assert(models.take(self.content@.len() as int) =~= models);
        }
        r
    }

    /// Whether any content block is a tool use request.
    pub fn has_tool_use(&self) -> (r: bool)
        ensures
            r == (exists|i: int|
                0 <= i < self.spec_model().content.len() && self.spec_model().content[i] is ToolUse),
    {
        let ghost models = self.content@.map_values(|b: ContentBlock| b.model());
        let mut i: usize = 0;
        while i < self.content.len()
            invariant
                i <= self.content@.len(),
                models == self.content@.map_values(|b: ContentBlock| b.model()),
                forall|k: int| 0 <= k < i ==> !(models[k] is ToolUse),
            decreases self.content@.len() - i,
        {
            if self.content[i].is_tool_use() {
                proof {
                    assert(self.spec_model().content[i as int] is ToolUse);
                }
                return true;
            }
            i += 1;
        }
        false
    }

    /// Whether generation stopped for a tool use.
    pub fn stopped_for_tool_use(&self) -> (r: bool)
        ensures
            r == (self.stop_reason == Option::<StopReason>::Some(StopReason::ToolUse)),
    {
        match self.stop_reason {
            Some(StopReason::ToolUse) => true,
            _ => false,
        }
    }
}

impl Clone for Message {
    /// The copy has the same image.
    fn clone(&self) -> (r: Self)
        ensures
            r.spec_model() == self.spec_model(),
    {
        let cloned_content = self.content.clone();
        proof {
            assert forall|i: int|
                0 <= i < self.content@.len() implies cloned_content@[i].model()
                == self.content@[i].model() by {
                assert(cloned::<ContentBlock>(self.content@[i], cloned_content@[i]));
            }
            assert(cloned_content@.map_values(|b: ContentBlock| b.model())
                =~= self.content@.map_values(|b: ContentBlock| b.model()));
        }
        let r = Message {
            id: clone_bytes(&self.id),
            object_type: clone_bytes(&self.object_type),
            role: self.role,
            content: cloned_content,
            model: clone_bytes(&self.model),
            stop_reason: self.stop_reason,
            stop_sequence: clone_opt_bytes(&self.stop_sequence),
            usage: self.usage,
        };
        proof {
            assert(r.spec_model() =~= self.spec_model());
        }
        r
    }
}

/// Updates to the message carried by a message delta event.
#[derive(Debug, PartialEq, Eq)]
pub struct MessageDelta {
    /// The stop reason, once known.
    pub stop_reason: Option<StopReason>,
    /// The stop sequence that ended generation, if any.
    pub stop_sequence: Option<Vec<u8>>,
}

/// Usage carried by a message delta event: the running total of output
/// tokens, as supplied by the server.
#[derive(Debug, Clone, Copy, PartialEq, Eq)]
pub struct MessageDeltaUsage {
    /// Output tokens generated so far.
    pub output_tokens: u32,
}

/// An error reported inside the stream.
#[derive(Debug, PartialEq, Eq)]
pub struct StreamError {
    /// The error type.
    pub error_type: Vec<u8>,
    /// The error message.
    pub message: Vec<u8>,
}

/// An incremental update to one content block.
#[derive(Debug, PartialEq, Eq)]
pub enum ContentBlockDelta {
    /// More text.
    TextDelta { text: Vec<u8> },
    /// More of the tool input, as a raw JSON fragment.
    InputJsonDelta { partial_json: Vec<u8> },
    /// More reasoning text.
    ThinkingDelta { thinking: Vec<u8> },
    /// The reasoning signature.
    SignatureDelta { signature: Vec<u8> },
    /// A citation, as its JSON document.
    CitationsDelta { citation: Json },
}

impl ContentBlockDelta {
    /// The text, if this is a text delta.
    pub fn as_text(&self) -> (r: Option<&Vec<u8>>)
        ensures
            ({
                match self {
                    ContentBlockDelta::TextDelta { text } => r == Option::Some(text),
                    _ => r is None,
                }
            }),
    {
        match self {
            ContentBlockDelta::TextDelta { text } => Some(text),
            _ => None,
        }
    }

    /// The reasoning text, if this is a thinking delta.
    pub fn as_thinking(&self) -> (r: Option<&Vec<u8>>)
        ensures
            ({
                match self {
                    ContentBlockDelta::ThinkingDelta { thinking } => r == Option::Some(thinking),
                    _ => r is None,
                }
            }),
    {
        match self {
            ContentBlockDelta::ThinkingDelta { thinking } => Some(thinking),
            _ => None,
        }
    }

    /// The JSON fragment, if this is an input JSON delta.
    pub fn as_input_json(&self) -> (r: Option<&Vec<u8>>)
        ensures
            ({
                match self {
                    ContentBlockDelta::InputJsonDelta { partial_json } => r == Option::Some(
                        partial_json,
                    ),
                    _ => r is None,
                }
            }),
    {
        match self {
            ContentBlockDelta::InputJsonDelta { partial_json } => Some(partial_json),
            _ => None,
        }
    }
}

/// A typed streaming event.
#[derive(Debug, PartialEq, Eq)]
pub enum MessageStreamEvent {
    /// The stream's base message.
    MessageStart { message: Message },
    /// Updates to the message, with the running output-token total.
    MessageDelta { delta: MessageDelta, usage: MessageDeltaUsage },
    /// The terminal event of a well-formed stream.
    MessageStop,
    /// A content block was announced.
    ContentBlockStart { index: usize, content_block: ContentBlock },
    /// An incremental update to a content block.
    ContentBlockDelta { index: usize, delta: ContentBlockDelta },
    /// A content block is complete.
    ContentBlockStop { index: usize },
    /// A keep-alive.
    Ping,
    /// An error reported by the server inside the stream.
    Error { error: StreamError },
}

/// Mathematical image of a typed streaming event.
#[verifier::ext_equal]
pub ghost enum StreamEventModel {
    MessageStart { message: MessageModel },
    MessageDelta { stop_reason: Option<StopReason>, stop_sequence: Option<Seq<u8>>, output_tokens: u32 },
    MessageStop,
    ContentBlockStart { index: usize, content_block: ContentBlockModel },
    ContentBlockDelta { index: usize, delta: ContentBlockDeltaModel },
    ContentBlockStop { index: usize },
    Ping,
    Error { error_type: Seq<u8>, message: Seq<u8> },
}

/// Mathematical image of a content block delta.
#[verifier::ext_equal]
pub ghost enum ContentBlockDeltaModel {
    TextDelta { text: Seq<u8> },
    InputJsonDelta { partial_json: Seq<u8> },
    ThinkingDelta { thinking: Seq<u8> },
    SignatureDelta { signature: Seq<u8> },
    CitationsDelta { citation: JsonModel },
}

impl ContentBlockDelta {
    /// The mathematical image of this delta.
    pub open spec fn model(&self) -> ContentBlockDeltaModel {
        match self {
            ContentBlockDelta::TextDelta { text } => ContentBlockDeltaModel::TextDelta {
                text: text@,
            },
            ContentBlockDelta::InputJsonDelta { partial_json } => ContentBlockDeltaModel::InputJsonDelta {
                partial_json: partial_json@,
            },
            ContentBlockDelta::ThinkingDelta { thinking } => ContentBlockDeltaModel::ThinkingDelta {
                thinking: thinking@,
            },
            ContentBlockDelta::SignatureDelta { signature } => ContentBlockDeltaModel::SignatureDelta {
                signature: signature@,
            },
            ContentBlockDelta::CitationsDelta { citation } => ContentBlockDeltaModel::CitationsDelta {
                citation: citation.model(),
            },
        }
    }
}

impl MessageStreamEvent {
    /// The mathematical image of this event.
    pub open spec fn model(&self) -> StreamEventModel {
        match self {
            MessageStreamEvent::MessageStart { message } => StreamEventModel::MessageStart {
                message: message.spec_model(),
            },
            MessageStreamEvent::MessageDelta { delta, usage } => StreamEventModel::MessageDelta {
                stop_reason: delta.stop_reason,
                stop_sequence: opt_bytes(delta.stop_sequence),
                output_tokens: usage.output_tokens,
            },
            MessageStreamEvent::MessageStop => StreamEventModel::MessageStop,
            MessageStreamEvent::ContentBlockStart { index, content_block } => StreamEventModel::ContentBlockStart {
                index: *index,
                content_block: content_block.model(),
            },
            MessageStreamEvent::ContentBlockDelta { index, delta } => StreamEventModel::ContentBlockDelta {
                index: *index,
                delta: delta.model(),
            },
            MessageStreamEvent::ContentBlockStop { index } => StreamEventModel::ContentBlockStop {
                index: *index,
            },
            MessageStreamEvent::Ping => StreamEventModel::Ping,
            MessageStreamEvent::Error { error } => StreamEventModel::Error {
                error_type: error.error_type@,
                message: error.message@,
            },
        }
    }
}

/// The accumulated state of one stream.
#[derive(Debug, PartialEq, Eq)]
pub struct StreamState {
    /// The base message, once announced.
    pub message: Option<Message>,
    /// Accumulated text.
    pub text: Vec<u8>,
    /// Accumulated reasoning text.
    pub thinking: Vec<u8>,
    /// Whether the terminal event has been seen.
    pub is_complete: bool,
    /// The last stop reason seen.
    pub stop_reason: Option<StopReason>,
    /// The last running output-token total seen.
    pub output_tokens: u32,
}

/// Mathematical image of a stream state.
#[verifier::ext_equal]
pub ghost struct StreamStateModel {
    pub message: Option<MessageModel>,
    pub text: Seq<u8>,
    pub thinking: Seq<u8>,
    pub is_complete: bool,
    pub stop_reason: Option<StopReason>,
    pub output_tokens: u32,
}

/// The fold step: how one event changes the accumulated state.
///
/// A message start replaces the base message wholesale; a message delta
/// overwrites the stop reason when it carries one and always overwrites the
/// output-token total; a text or thinking delta appends to the respective
/// accumulated text; a message stop sets the completion flag; every other
/// event leaves the state unchanged.
pub open spec fn update_spec(st: StreamStateModel, ev: StreamEventModel) -> StreamStateModel {
    match ev {
        StreamEventModel::MessageStart { message } => StreamStateModel {
            message: Option::Some(message),
            text: st.text,
            thinking: st.thinking,
            is_complete: st.is_complete,
            stop_reason: st.stop_reason,
            output_tokens: st.output_tokens,
        },
        StreamEventModel::MessageDelta { stop_reason, stop_sequence, output_tokens } => StreamStateModel {
            message: st.message,
            text: st.text,
            thinking: st.thinking,
            is_complete: st.is_complete,
            stop_reason: if stop_reason is Some {
                stop_reason
            } else {
                st.stop_reason
            },
            output_tokens,
        },
        StreamEventModel::MessageStop => StreamStateModel {
            message: st.message,
            text: st.text,
            thinking: st.thinking,
            is_complete: true,
            stop_reason: st.stop_reason,
            output_tokens: st.output_tokens,
        },
        StreamEventModel::ContentBlockDelta { index, delta } => match delta {
            ContentBlockDeltaModel::TextDelta { text } => StreamStateModel {
                message: st.message,
                text: st.text + text,
                thinking: st.thinking,
                is_complete: st.is_complete,
                stop_reason: st.stop_reason,
                output_tokens: st.output_tokens,
            },
            ContentBlockDeltaModel::ThinkingDelta { thinking } => StreamStateModel {
                message: st.message,
                text: st.text,
                thinking: st.thinking + thinking,
                is_complete: st.is_complete,
                stop_reason: st.stop_reason,
                output_tokens: st.output_tokens,
            },
            _ => st,
        },
        _ => st,
    }
}

/// The empty accumulator.
pub open spec fn initial_state() -> StreamStateModel {
    StreamStateModel {
        message: Option::None,
        text: Seq::empty(),
        thinking: Seq::empty(),
        is_complete: false,
        stop_reason: Option::None,
        output_tokens: 0,
    }
}

/// Finalization: overlay the accumulated stop reason and output-token total
/// onto the base message, leaving its content as announced; with no base
/// message there is nothing to finalize.
pub open spec fn finalize_spec(st: StreamStateModel) -> Option<MessageModel> {
    match st.message {
        Option::Some(m) => Option::Some(
            MessageModel {
                id: m.id,
                object_type: m.object_type,
                role: m.role,
                content: m.content,
                model: m.model,
                stop_reason: st.stop_reason,
                stop_sequence: m.stop_sequence,
                usage: Usage {
                    input_tokens: m.usage.input_tokens,
                    output_tokens: st.output_tokens,
                    cache_creation_input_tokens: m.usage.cache_creation_input_tokens,
                    cache_read_input_tokens: m.usage.cache_read_input_tokens,
                },
            },
        ),
        Option::None => Option::None,
    }
}

/// The fold is monotone: text and reasoning text only grow, and the
/// completion flag never reverts to false.
pub proof fn lemma_update_monotonic(st: StreamStateModel, ev: StreamEventModel)
    ensures
        st.text.is_prefix_of(update_spec(st, ev).text),
        st.thinking.is_prefix_of(update_spec(st, ev).thinking),
        st.is_complete ==> update_spec(st, ev).is_complete,
{
    assert(st.text.is_prefix_of(update_spec(st, ev).text));
    assert(st.thinking.is_prefix_of(update_spec(st, ev).thinking));
}

impl StreamState {
    /// The mathematical image of this state.
    pub open spec fn model(&self) -> StreamStateModel {
        StreamStateModel {
            message: match self.message {
                Option::Some(m) => Option::Some(m.spec_model()),
                Option::None => Option::None,
            },
            text: self.text@,
            thinking: self.thinking@,
            is_complete: self.is_complete,
            stop_reason: self.stop_reason,
            output_tokens: self.output_tokens,
        }
    }

    /// A fresh, empty accumulator.
    pub fn new() -> (r: Self)
        ensures
            r.model() == initial_state(),
    {
        let r = StreamState {
            message: None,
            text: Vec::new(),
            thinking: Vec::new(),
            is_complete: false,
            stop_reason: None,
            output_tokens: 0,
        };
        proof {
            assert(r.model() =~= initial_state());
        }
        r
    }

    /// Fold one event into the state, exactly as [`update_spec`] says.
    pub fn update(&mut self, event: &MessageStreamEvent)
        ensures
            final(self).model() == update_spec(old(self).model(), event.model()),
    {
        match event {
            MessageStreamEvent::MessageStart { message } => {
                self.message = Some(message.clone());
            },
            MessageStreamEvent::MessageDelta { delta, usage } => {
                if delta.stop_reason.is_some() {
                    self.stop_reason = delta.stop_reason;
                }
                self.output_tokens = usage.output_tokens;
            },
            MessageStreamEvent::MessageStop => {
                self.is_complete = true;
            },
            MessageStreamEvent::ContentBlockDelta { delta, .. } => {
                match delta {
                    ContentBlockDelta::TextDelta { text } => {
                        self.text.extend_from_slice(text.as_slice());
                    },
                    ContentBlockDelta::ThinkingDelta { thinking } => {
                        self.thinking.extend_from_slice(thinking.as_slice());
                    },
                    _ => {},
                }
            },
            _ => {},
        }
        proof {
            assert(final(self).model() =~= update_spec(old(self).model(), event.model()));
        }
    }

    /// Finalize the stream into its message, exactly as [`finalize_spec`]
    /// says.
    pub fn into_message(self) -> (r: Option<Message>)
        ensures
            ({
                match r {
                    Option::Some(m) => finalize_spec(self.model()) == Option::Some(m.spec_model()),
                    Option::None => finalize_spec(self.model()) is None,
                }
            }),
    {
        let ghost st = self.model();
        match self.message {
            Some(mut msg) => {
                msg.usage.output_tokens = self.output_tokens;
                msg.stop_reason = self.stop_reason;
                proof {
                    match finalize_spec(st) {
                        Option::Some(fm) => {
                            assert(msg.spec_model() =~= fm);
                        },
                        Option::None => {},
                    }
                }
                Some(msg)
            },
            None => None,
        }
    }
}

impl Default for StreamState {
    /// Same as [`StreamState::new`].
    fn default() -> (r: Self)
        ensures
            r.model() == initial_state(),
    {
        Self::new()
    }
}

} // verus!
