//! Client-side core for a streaming generative-inference HTTP API.
//!
//! The crate verifies the pieces of such a client that carry real logic:
//! an incremental Server-Sent-Events decoder, the typed-event layer and
//! stream-state accumulator built on top of it, the retry/backoff policy
//! that wraps every request, and the error classifier.  Transport plumbing
//! (HTTP, async scheduling) stays outside; it hands this crate byte chunks,
//! status codes and header values, and takes back events and decisions.

pub mod error;
pub mod events;
pub mod json;
pub mod parse;
pub mod retry;
pub mod sse;
pub mod stream;
pub mod types;

pub use error::{AnthropicError, ErrorObject, ErrorResponse};
pub use json::{parse_json_doc, Json, JsonModel};
pub use events::{
    ContentBlock, ContentBlockDelta, Message, MessageDelta, MessageDeltaUsage, MessageStreamEvent,
    Role, StopReason, StreamError, StreamState, Usage, WebSearchResult,
};
pub use parse::{
    classify_response, event_from_fields, parse_event, parse_role, parse_stop_reason, EventFields,
};
pub use retry::{
    backoff_delay_ms, parse_retry_after, parse_u64_ascii, retry_delay_ms, retry_step, run_retry,
    should_retry, AttemptOutcome, RetryDecision,
};
pub use sse::{RawStreamEvent, SseDecoder};
pub use stream::MessageStream;
pub use types::{
    CacheControl, CacheCreation, Citation, Completion, DocumentSource, ImageSource,
    ListModelsParams, Metadata, Model, ModelList, ServerToolUsage, ThinkingConfig, TokenCount,
    ToolChoice, ToolResultBlockParam,
};
