//! Request and response data shapes.
//!
//! These are static shapes passed through to the API unchanged: the crate
//! states their construction exactly but applies no logic to them.  The
//! transport layer serializes them.

use vstd::prelude::*;

verus! {

/// Cache control for a request block.
#[derive(Debug, Clone, Copy, PartialEq, Eq)]
pub enum CacheControl {
    /// Ephemeral caching.
    Ephemeral,
}

impl CacheControl {
    /// Ephemeral cache control.
    pub fn ephemeral() -> (r: Self)
        ensures
            r == CacheControl::Ephemeral,
    {
        CacheControl::Ephemeral
    }
}

/// A citation attached to response text.
#[derive(Debug, Clone, PartialEq, Eq)]
pub enum Citation {
    /// A character range of a document.
    CharLocation {
        cited_text: String,
        document_index: u32,
        document_title: Option<String>,
        start_char_index: u32,
        end_char_index: u32,
    },
    /// A page of a document.
    PageLocation {
        cited_text: String,
        document_index: u32,
        document_title: Option<String>,
        page_number: u32,
    },
    /// A block range of a document.
    ContentBlockLocation {
        cited_text: String,
        document_index: u32,
        document_title: Option<String>,
        start_block_index: u32,
        end_block_index: u32,
    },
    /// A web search result.
    WebSearchResultLocation { cited_text: String, url: String, title: Option<String> },
}

/// The source of an image block.
#[derive(Debug, Clone, PartialEq, Eq)]
pub enum ImageSource {
    /// Base64-encoded image data.
    Base64 { media_type: String, data: String },
    /// A URL to an image.
    Url { url: String },
}

/// The source of a document block.
#[derive(Debug, Clone, PartialEq, Eq)]
pub enum DocumentSource {
    /// Base64-encoded document data.
    Base64 { media_type: String, data: String },
    /// A URL to a document.
    Url { url: String },
}

/// Custom request metadata.
#[derive(Debug, Clone, PartialEq, Eq)]
pub struct Metadata {
    /// A user id, for tracking.
    pub user_id: Option<String>,
}

impl Metadata {
    /// Metadata carrying a user id.
    pub fn with_user_id(user_id: String) -> (r: Self)
        ensures
            r == (Metadata { user_id: Option::Some(user_id) }),
    {
        Metadata { user_id: Some(user_id) }
    }
}

/// Extended-thinking configuration.
#[derive(Debug, Clone, Copy, PartialEq, Eq)]
pub enum ThinkingConfig {
    /// Thinking enabled, with a token budget.
    Enabled { budget_tokens: u32 },
    /// Thinking disabled.
    Disabled,
}

/// How the model may use tools.
#[derive(Debug, Clone, PartialEq, Eq)]
pub enum ToolChoice {
    /// The model decides.
    Auto { disable_parallel_tool_use: Option<bool> },
    /// The model must use some tool.
    Any { disable_parallel_tool_use: Option<bool> },
    /// The model must use the named tool.
    Tool { name: String, disable_parallel_tool_use: Option<bool> },
    /// No tool use.
    Disabled,
}

impl ToolChoice {
    /// Let the model decide.
    pub fn auto() -> (r: Self)
        ensures
            r == (ToolChoice::Auto { disable_parallel_tool_use: Option::None }),
    {
        ToolChoice::Auto { disable_parallel_tool_use: None }
    }

    /// Force some tool.
    pub fn any() -> (r: Self)
        ensures
            r == (ToolChoice::Any { disable_parallel_tool_use: Option::None }),
    {
        ToolChoice::Any { disable_parallel_tool_use: None }
    }

    /// Force the named tool.
    pub fn tool(name: String) -> (r: Self)
        ensures
            r == (ToolChoice::Tool { name, disable_parallel_tool_use: Option::None }),
    {
        ToolChoice::Tool { name, disable_parallel_tool_use: None }
    }

    /// Disable tool use.
    pub fn none() -> (r: Self)
        ensures
            r == ToolChoice::Disabled,
    {
        ToolChoice::Disabled
    }

    /// Disable parallel tool use, on the variants that can carry it.
    pub fn disable_parallel(self) -> (r: Self)
        ensures
            ({
                match self {
                    ToolChoice::Auto { .. } => r == (ToolChoice::Auto {
                        disable_parallel_tool_use: Option::Some(true),
                    }),
                    ToolChoice::Any { .. } => r == (ToolChoice::Any {
                        disable_parallel_tool_use: Option::Some(true),
                    }),
                    ToolChoice::Tool { name, .. } => r == (ToolChoice::Tool {
                        name,
                        disable_parallel_tool_use: Option::Some(true),
                    }),
                    ToolChoice::Disabled => r == ToolChoice::Disabled,
                }
            }),
    {
        match self {
            ToolChoice::Auto { .. } => ToolChoice::Auto {
                disable_parallel_tool_use: Some(true),
            },
            ToolChoice::Any { .. } => ToolChoice::Any { disable_parallel_tool_use: Some(true) },
            ToolChoice::Tool { name, .. } => ToolChoice::Tool {
                name,
                disable_parallel_tool_use: Some(true),
            },
            ToolChoice::Disabled => ToolChoice::Disabled,
        }
    }
}

/// A tool execution result sent back to the model.
#[derive(Debug, Clone, PartialEq, Eq)]
pub struct ToolResultBlockParam {
    /// The tool use this result answers.
    pub tool_use_id: String,
    /// The result content.
    pub content: Option<String>,
    /// Whether the result is an error.
    pub is_error: Option<bool>,
}

impl ToolResultBlockParam {
    /// A successful tool result.
    pub fn success(tool_use_id: String, content: String) -> (r: Self)
        ensures
            r == (ToolResultBlockParam {
                tool_use_id,
                content: Option::Some(content),
                is_error: Option::None,
            }),
    {
        ToolResultBlockParam { tool_use_id, content: Some(content), is_error: None }
    }

    /// A failed tool result.
    pub fn error(tool_use_id: String, error: String) -> (r: Self)
        ensures
            r == (ToolResultBlockParam {
                tool_use_id,
                content: Option::Some(error),
                is_error: Option::Some(true),
            }),
    {
        ToolResultBlockParam { tool_use_id, content: Some(error), is_error: Some(true) }
    }
}

/// An available model.
#[derive(Debug, Clone, PartialEq, Eq)]
pub struct Model {
    /// Unique model identifier.
    pub id: String,
    /// Object type, `model`.
    pub object_type: String,
    /// Human-readable name.
    pub display_name: Option<String>,
    /// Creation time, ISO 8601.
    pub created_at: Option<String>,
}

/// A page of the model list.
#[derive(Debug, Clone, PartialEq, Eq)]
pub struct ModelList {
    /// The models of this page.
    pub data: Vec<Model>,
    /// Whether more pages follow.
    pub has_more: bool,
    /// Cursor of the first item.
    pub first_id: Option<String>,
    /// Cursor of the last item.
    pub last_id: Option<String>,
}

/// A token count response.
#[derive(Debug, Clone, Copy, PartialEq, Eq)]
pub struct TokenCount {
    /// The number of input tokens.
    pub input_tokens: u32,
}

/// Parameters for listing models.
#[derive(Debug, Clone, PartialEq, Eq)]
pub struct ListModelsParams {
    /// How many results to return.
    pub limit: Option<u32>,
    /// Page before this id.
    pub before_id: Option<String>,
    /// Page after this id.
    pub after_id: Option<String>,
}

impl Default for ListModelsParams {
    /// No limit and no cursors.
    fn default() -> (r: Self)
        ensures
            r == (ListModelsParams {
                limit: Option::None,
                before_id: Option::None,
                after_id: Option::None,
            }),
    {
        ListModelsParams { limit: None, before_id: None, after_id: None }
    }
}

/// A text completion response.
#[derive(Debug, Clone, PartialEq, Eq)]
pub struct Completion {
    /// Unique object identifier.
    pub id: String,
    /// Object type, `completion`.
    pub object_type: String,
    /// The generated completion text.
    pub completion: String,
    /// Why generation stopped.
    pub stop_reason: String,
    /// The model that generated the completion.
    pub model: String,
}

/// Cache creation information.
#[derive(Debug, Clone, PartialEq, Eq)]
pub struct CacheCreation {
    /// Type identifier.
    pub cache_type: String,
}

/// Server-side tool usage counts.
#[derive(Debug, Clone, Copy, PartialEq, Eq)]
pub struct ServerToolUsage {
    /// Web search requests made, when reported.
    pub web_search_requests: Option<u32>,
}

} // verus!
