//! Items that a turn produces, and what their completion means.

use vstd::prelude::*;

use crate::controller::CompletionSignal;
use crate::text;

verus! {

/// An item of a thread.
#[derive(Clone, Debug, PartialEq, Eq)]
pub enum ThreadItem {
    UserMessage { id: String },
    HookPrompt { id: String },
    AgentMessage { id: String, text: String },
    Plan { id: String },
    Reasoning { id: String },
    CommandExecution { id: String },
    FileChange { id: String },
    McpToolCall { id: String },
    DynamicToolCall { id: String },
    CollabAgentToolCall { id: String },
    WebSearch { id: String },
    ImageView { id: String },
    ImageGeneration { id: String },
    EnteredReviewMode { id: String },
    ExitedReviewMode { id: String },
    ContextCompaction { id: String },
}

/// What the completion of a thread item means: what the user or a hook said is
/// no work of the agent.
pub open spec fn item_signal(item: ThreadItem) -> CompletionSignal {
    if item is UserMessage || item is HookPrompt {
        CompletionSignal::Ignore
    } else {
        CompletionSignal::ReleasesAfterAnyItem
    }
}

/// Classifies a completed thread item.
pub fn classify_item_completed(item: &ThreadItem) -> (signal: CompletionSignal)
    ensures
        signal == item_signal(*item),
{
    match item {
        ThreadItem::UserMessage { .. } | ThreadItem::HookPrompt { .. } => CompletionSignal::Ignore,
        ThreadItem::AgentMessage { .. }
        | ThreadItem::Plan { .. }
        | ThreadItem::Reasoning { .. }
        | ThreadItem::CommandExecution { .. }
        | ThreadItem::FileChange { .. }
        | ThreadItem::McpToolCall { .. }
        | ThreadItem::DynamicToolCall { .. }
        | ThreadItem::CollabAgentToolCall { .. }
        | ThreadItem::WebSearch { .. }
        | ThreadItem::ImageView { .. }
        | ThreadItem::ImageGeneration { .. }
        | ThreadItem::EnteredReviewMode { .. }
        | ThreadItem::ExitedReviewMode { .. }
        | ThreadItem::ContextCompaction { .. } => CompletionSignal::ReleasesAfterAnyItem,
    }
}

/// A piece of a message.
#[derive(Clone, Debug, PartialEq, Eq)]
pub enum ContentItem {
    InputText { text: String },
    InputImage { image_url: String },
    OutputText { text: String },
}

/// A piece of a reasoning summary.
#[derive(Clone, Debug, PartialEq, Eq)]
pub enum ReasoningItemReasoningSummary {
    SummaryText { text: String },
}

/// A piece of reasoning.
#[derive(Clone, Debug, PartialEq, Eq)]
pub enum ReasoningItemContent {
    ReasoningText { text: String },
    Text { text: String },
}

/// A raw item of a model response.
#[derive(Clone, Debug, PartialEq, Eq)]
pub enum ResponseItem {
    Message { id: Option<String>, role: String, content: Vec<ContentItem> },
    Reasoning {
        id: String,
        summary: Vec<ReasoningItemReasoningSummary>,
        content: Option<Vec<ReasoningItemContent>>,
    },
    LocalShellCall { id: Option<String>, call_id: Option<String> },
    FunctionCall { call_id: String },
    ToolSearchCall { call_id: Option<String> },
    CustomToolCall { call_id: String },
    WebSearchCall { id: Option<String> },
    ImageGenerationCall { id: String },
    GhostSnapshot,
    Compaction,
    FunctionCallOutput { call_id: String },
    CustomToolCallOutput { call_id: String },
    ToolSearchOutput { call_id: Option<String> },
    Other,
}

/// Whether a piece of a message is text of the model.
pub open spec fn content_has_text(item: ContentItem) -> bool {
    item matches ContentItem::OutputText { text } && text@.len() > 0
}

/// Whether a piece of a reasoning summary says something.
pub open spec fn summary_has_text(item: ReasoningItemReasoningSummary) -> bool {
    match item {
        ReasoningItemReasoningSummary::SummaryText { text } => text@.len() > 0,
    }
}

/// Whether a piece of reasoning says something.
pub open spec fn reasoning_has_text(item: ReasoningItemContent) -> bool {
    match item {
        ReasoningItemContent::ReasoningText { text } => text@.len() > 0,
        ReasoningItemContent::Text { text } => text@.len() > 0,
    }
}

fn content_item_has_text(item: &ContentItem) -> (has: bool)
    ensures
        has == content_has_text(*item),
{
    match item {
        ContentItem::OutputText { text } => !text.as_str().is_empty(),
        ContentItem::InputText { .. } | ContentItem::InputImage { .. } => false,
    }
}

fn reasoning_summary_has_text(item: &ReasoningItemReasoningSummary) -> (has: bool)
    ensures
        has == summary_has_text(*item),
{
    match item {
        ReasoningItemReasoningSummary::SummaryText { text } => !text.as_str().is_empty(),
    }
}

fn reasoning_content_has_text(item: &ReasoningItemContent) -> (has: bool)
    ensures
        has == reasoning_has_text(*item),
{
    match item {
        ReasoningItemContent::ReasoningText { text } => !text.as_str().is_empty(),
        ReasoningItemContent::Text { text } => !text.as_str().is_empty(),
    }
}

/// Whether a raw item shows that the agent has done something: an assistant
/// message or reasoning with text, or a call; outputs of calls do not count.
pub open spec fn raw_item_releases(item: ResponseItem) -> bool {
    match item {
        ResponseItem::Message { id, role, content } => role@ == "assistant"@ && exists|i: int|
            0 <= i < content@.len() && content_has_text(#[trigger] content@[i]),
        ResponseItem::Reasoning { id, summary, content } => {
            ||| exists|i: int| 0 <= i < summary@.len() && summary_has_text(#[trigger] summary@[i])
            ||| content matches Some(content) && exists|i: int|
                0 <= i < content@.len() && reasoning_has_text(#[trigger] content@[i])
        },
        ResponseItem::LocalShellCall { .. }
        | ResponseItem::FunctionCall { .. }
        | ResponseItem::ToolSearchCall { .. }
        | ResponseItem::CustomToolCall { .. }
        | ResponseItem::WebSearchCall { .. }
        | ResponseItem::ImageGenerationCall { .. }
        | ResponseItem::GhostSnapshot
        | ResponseItem::Compaction => true,
        ResponseItem::FunctionCallOutput { .. }
        | ResponseItem::CustomToolCallOutput { .. }
        | ResponseItem::ToolSearchOutput { .. }
        | ResponseItem::Other => false,
    }
}

fn any_content_text(content: &Vec<ContentItem>) -> (any: bool)
    ensures
        any == exists|i: int| 0 <= i < content@.len() && content_has_text(#[trigger] content@[i]),
{
    let mut i: usize = 0;
    while i < content.len()
        invariant
            i <= content@.len(),
            forall|j: int| 0 <= j < i ==> !content_has_text(#[trigger] content@[j]),
        decreases content@.len() - i,
    {
        if content_item_has_text(&content[i]) {
            return true;
        }
        i += 1;
    }
    false
}

fn any_summary_text(summary: &Vec<ReasoningItemReasoningSummary>) -> (any: bool)
    ensures
        any == exists|i: int| 0 <= i < summary@.len() && summary_has_text(#[trigger] summary@[i]),
{
    let mut i: usize = 0;
    while i < summary.len()
        invariant
            i <= summary@.len(),
            forall|j: int| 0 <= j < i ==> !summary_has_text(#[trigger] summary@[j]),
        decreases summary@.len() - i,
    {
        if reasoning_summary_has_text(&summary[i]) {
            return true;
        }
        i += 1;
    }
    false
}

fn any_reasoning_text(content: &Vec<ReasoningItemContent>) -> (any: bool)
    ensures
        any == exists|i: int| 0 <= i < content@.len() && reasoning_has_text(#[trigger] content@[i]),
{
    let mut i: usize = 0;
    while i < content.len()
        invariant
            i <= content@.len(),
            forall|j: int| 0 <= j < i ==> !reasoning_has_text(#[trigger] content@[j]),
        decreases content@.len() - i,
    {
        if reasoning_content_has_text(&content[i]) {
            return true;
        }
        i += 1;
    }
    false
}

fn raw_response_item_releases_after_any_item(item: &ResponseItem) -> (releases: bool)
    ensures
        releases == raw_item_releases(*item),
{
    match item {
        ResponseItem::Message { id: _, role, content } => text::text_eq(role.as_str(), "assistant")
            && any_content_text(content),
        ResponseItem::Reasoning { id: _, summary, content } => {
            if any_summary_text(summary) {
                return true;
            }
            match content {
                Some(content) => any_reasoning_text(content),
                None => false,
            }
        },
        ResponseItem::LocalShellCall { .. }
        | ResponseItem::FunctionCall { .. }
        | ResponseItem::ToolSearchCall { .. }
        | ResponseItem::CustomToolCall { .. }
        | ResponseItem::WebSearchCall { .. }
        | ResponseItem::ImageGenerationCall { .. }
        | ResponseItem::GhostSnapshot
        | ResponseItem::Compaction => true,
        ResponseItem::FunctionCallOutput { .. }
        | ResponseItem::CustomToolCallOutput { .. }
        | ResponseItem::ToolSearchOutput { .. }
        | ResponseItem::Other => false,
    }
}

/// The identifier that a raw item shares with the thread item that shows it.
pub open spec fn raw_item_key(item: ResponseItem) -> Option<Seq<char>> {
    match item {
        ResponseItem::Message { id, .. } => text::opt_text(id),
        ResponseItem::Reasoning { id, .. } => if id@.len() > 0 {
            Some(id@)
        } else {
            None
        },
        ResponseItem::LocalShellCall { id, call_id } => if call_id is Some {
            text::opt_text(call_id)
        } else {
            text::opt_text(id)
        },
        ResponseItem::FunctionCall { call_id } => Some(call_id@),
        ResponseItem::CustomToolCall { call_id } => Some(call_id@),
        ResponseItem::ToolSearchCall { call_id } => text::opt_text(call_id),
        ResponseItem::WebSearchCall { id } => text::opt_text(id),
        ResponseItem::ImageGenerationCall { id } => Some(id@),
        ResponseItem::FunctionCallOutput { call_id } => Some(call_id@),
        ResponseItem::CustomToolCallOutput { call_id } => Some(call_id@),
        ResponseItem::ToolSearchOutput { call_id } => text::opt_text(call_id),
        ResponseItem::GhostSnapshot | ResponseItem::Compaction | ResponseItem::Other => None,
    }
}

fn raw_response_item_key(item: &ResponseItem) -> (key: Option<String>)
    ensures
        text::opt_text(key) == raw_item_key(*item),
{
    match item {
        ResponseItem::Message { id, .. } => text::opt_clone(id),
        ResponseItem::Reasoning { id, .. } => if id.as_str().is_empty() {
            None
        } else {
            Some(id.clone())
        },
        ResponseItem::LocalShellCall { id, call_id } => if call_id.is_some() {
            text::opt_clone(call_id)
        } else {
            text::opt_clone(id)
        },
        ResponseItem::FunctionCall { call_id } => Some(call_id.clone()),
        ResponseItem::CustomToolCall { call_id } => Some(call_id.clone()),
        ResponseItem::ToolSearchCall { call_id } => text::opt_clone(call_id),
        ResponseItem::WebSearchCall { id } => text::opt_clone(id),
        ResponseItem::ImageGenerationCall { id } => Some(id.clone()),
        ResponseItem::FunctionCallOutput { call_id } => Some(call_id.clone()),
        ResponseItem::CustomToolCallOutput { call_id } => Some(call_id.clone()),
        ResponseItem::ToolSearchOutput { call_id } => text::opt_clone(call_id),
        ResponseItem::GhostSnapshot | ResponseItem::Compaction | ResponseItem::Other => None,
    }
}

/// Classifies a completed raw item, and names it where it has an identifier.
pub fn classify_raw_response_item_completed(item: &ResponseItem) -> (classified: (
    CompletionSignal,
    Option<String>,
))
    ensures
        classified.0 == if raw_item_releases(*item) {
            CompletionSignal::ReleasesAfterAnyItem
        } else {
            CompletionSignal::Ignore
        },
        text::opt_text(classified.1) == raw_item_key(*item),
{
    let signal = if raw_response_item_releases_after_any_item(item) {
        CompletionSignal::ReleasesAfterAnyItem
    } else {
        CompletionSignal::Ignore
    };
    (signal, raw_response_item_key(item))
}

/// A notification of the server.
#[derive(Clone, Debug, PartialEq, Eq)]
pub enum ServerNotification {
    TurnStarted { thread_id: String, turn_id: String },
    TurnCompleted { thread_id: String, turn_id: String },
    TerminalInteraction { thread_id: String, turn_id: String },
    ItemCompleted { thread_id: String, turn_id: String, item: ThreadItem },
    RawResponseItemCompleted { thread_id: String, turn_id: String, item: ResponseItem },
    ThreadClosed { thread_id: String },
    /// Any other notification, with its method.
    Other { method: String },
}

} // verus!
