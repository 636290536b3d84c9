//! The protocol-neutral form of requests and responses. Each protocol is read into it and
//! written out of it.
use crate::json::{Json, JsonView};
use crate::number::Double;
use crate::text::{opt_text, texts};
use vstd::prelude::*;

verus! {

/// Who a message is from.
#[derive(Debug, Clone, Copy, PartialEq, Eq, Structural)]
pub enum CanonicalRole {
    System,
    User,
    Assistant,
}

/// A piece of content.
#[derive(Debug, PartialEq)]
pub enum CanonicalContentBlock {
    Text { text: String },
    Reasoning { text: String },
    Image { source: CanonicalImageSource },
    ToolUse { id: String, name: String, input: Json },
    ToolResult { tool_use_id: String, content: Vec<CanonicalContentBlock> },
}

/// Where an image comes from.
#[derive(Debug, PartialEq)]
pub enum CanonicalImageSource {
    Url { url: String },
    Base64 { media_type: String, data: String },
}

/// A message.
#[derive(Debug, PartialEq)]
pub struct CanonicalMessage {
    pub role: CanonicalRole,
    pub content: Vec<CanonicalContentBlock>,
}

/// A tool that the model may call.
#[derive(Debug, PartialEq)]
pub struct CanonicalTool {
    pub name: String,
    pub description: Option<String>,
    pub input_schema: Json,
}

/// A request.
#[derive(Debug, PartialEq)]
pub struct CanonicalRequest {
    pub model: String,
    pub messages: Vec<CanonicalMessage>,
    pub system: Option<Vec<CanonicalContentBlock>>,
    pub temperature: Option<Double>,
    pub top_p: Option<Double>,
    pub max_tokens: Option<u64>,
    pub stop_sequences: Option<Vec<String>>,
    pub stream: bool,
    pub tools: Option<Vec<CanonicalTool>>,
    pub tool_choice: Option<Json>,
    pub reasoning_effort: Option<String>,
    /// The names of fields that no other protocol can express.
    pub unmapped: Vec<String>,
}

/// Why the model stopped.
#[derive(Debug, Clone, Copy, PartialEq, Eq, Structural)]
pub enum CanonicalStopReason {
    EndTurn,
    StopSequence,
    MaxTokens,
    ToolUse,
}

/// How many tokens a call took.
#[derive(Debug, Clone, Copy, PartialEq, Eq, Structural)]
pub struct CanonicalUsage {
    pub input_tokens: u64,
    pub output_tokens: u64,
    pub total_tokens: Option<u64>,
}

/// A response.
#[derive(Debug, PartialEq)]
pub struct CanonicalResponse {
    pub id: String,
    pub model: String,
    pub content: Vec<CanonicalContentBlock>,
    pub stop_reason: Option<CanonicalStopReason>,
    pub usage: Option<CanonicalUsage>,
}

/// Why a body is no request.
#[derive(Debug, Clone, Copy, PartialEq, Eq, Structural)]
pub enum ConvertError {
    /// There is no `model`.
    MissingModel,
    /// A Responses request has no `model`, or an empty one.
    EmptyModel,
}

impl ConvertError {
    /// What the error says.
    pub open spec fn text(self) -> Seq<char> {
        match self {
            ConvertError::MissingModel => "missing 'model' in request body"@,
            ConvertError::EmptyModel => "Responses request must include 'model'"@,
        }
    }

    /// What the error says.
    pub fn message(&self) -> (r: &'static str)
        ensures
            r@ == self.text(),
    {
        match self {
            ConvertError::MissingModel => "missing 'model' in request body",
            ConvertError::EmptyModel => "Responses request must include 'model'",
        }
    }
}

/// A piece of content as a mathematical value.
pub enum BlockView {
    Text { text: Seq<char> },
    Reasoning { text: Seq<char> },
    Image { source: ImageView },
    ToolUse { id: Seq<char>, name: Seq<char>, input: JsonView },
    ToolResult { tool_use_id: Seq<char>, content: Seq<BlockView> },
}

/// Where an image comes from, as a mathematical value.
pub enum ImageView {
    Url { url: Seq<char> },
    Base64 { media_type: Seq<char>, data: Seq<char> },
}

/// A message as a mathematical value.
pub struct MessageView {
    pub role: CanonicalRole,
    pub content: Seq<BlockView>,
}

/// A tool as a mathematical value.
pub struct ToolView {
    pub name: Seq<char>,
    pub description: Option<Seq<char>>,
    pub input_schema: JsonView,
}

/// A request as a mathematical value.
pub struct RequestView {
    pub model: Seq<char>,
    pub messages: Seq<MessageView>,
    pub system: Option<Seq<BlockView>>,
    pub temperature: Option<Seq<char>>,
    pub top_p: Option<Seq<char>>,
    pub max_tokens: Option<u64>,
    pub stop_sequences: Option<Seq<Seq<char>>>,
    pub stream: bool,
    pub tools: Option<Seq<ToolView>>,
    pub tool_choice: Option<JsonView>,
    pub reasoning_effort: Option<Seq<char>>,
    pub unmapped: Seq<Seq<char>>,
}

/// A response as a mathematical value.
pub struct ResponseView {
    pub id: Seq<char>,
    pub model: Seq<char>,
    pub content: Seq<BlockView>,
    pub stop_reason: Option<CanonicalStopReason>,
    pub usage: Option<CanonicalUsage>,
}

/// The views of a sequence of blocks.
pub open spec fn blocks(s: Seq<CanonicalContentBlock>) -> Seq<BlockView>
    decreases s,
{
    Seq::new(
        s.len(),
        |i: int|
            if 0 <= i < s.len() {
                s[i].view()
            } else {
                BlockView::Text { text: Seq::empty() }
            },
    )
}

/// The views of a sequence of blocks, item by item and as it grows.
pub broadcast proof fn blocks_are(s: Seq<CanonicalContentBlock>)
    ensures
        (#[trigger] blocks(s)).len() == s.len(),
        forall|i: int| 0 <= i < s.len() ==> #[trigger] blocks(s)[i] == s[i].view(),
{
}

/// The views of a sequence with one more block.
pub broadcast proof fn blocks_push(s: Seq<CanonicalContentBlock>, b: CanonicalContentBlock)
    ensures
        #[trigger] blocks(s.push(b)) == blocks(s).push(b@),
{
    broadcast use blocks_are;

    assert(blocks(s.push(b)) =~= blocks(s).push(b@));
}

/// The views of two sequences, one after the other.
pub broadcast proof fn blocks_append(s: Seq<CanonicalContentBlock>, t: Seq<CanonicalContentBlock>)
    ensures
        #[trigger] blocks(s + t) == blocks(s) + blocks(t),
{
    broadcast use blocks_are;

    assert(blocks(s + t) =~= blocks(s) + blocks(t));
}

/// The views of no blocks.
pub proof fn blocks_empty()
    ensures
        blocks(Seq::empty()) == Seq::<BlockView>::empty(),
{
    assert(blocks(Seq::empty()) =~= Seq::<BlockView>::empty());
}

impl CanonicalImageSource {
    pub open spec fn view(self) -> ImageView {
        match self {
            CanonicalImageSource::Url { url } => ImageView::Url { url: url@ },
            CanonicalImageSource::Base64 { media_type, data } => ImageView::Base64 {
                media_type: media_type@,
                data: data@,
            },
        }
    }

    /// An equal source.
    pub fn copy(&self) -> (r: CanonicalImageSource)
        ensures
            r@ == self@,
    {
        match self {
            CanonicalImageSource::Url { url } => CanonicalImageSource::Url { url: url.clone() },
            CanonicalImageSource::Base64 { media_type, data } => CanonicalImageSource::Base64 {
                media_type: media_type.clone(),
                data: data.clone(),
            },
        }
    }
}

impl CanonicalContentBlock {
    pub open spec fn view(self) -> BlockView
        decreases self,
    {
        match self {
            CanonicalContentBlock::Text { text } => BlockView::Text { text: text@ },
            CanonicalContentBlock::Reasoning { text } => BlockView::Reasoning { text: text@ },
            CanonicalContentBlock::Image { source } => BlockView::Image { source: source@ },
            CanonicalContentBlock::ToolUse { id, name, input } => BlockView::ToolUse {
                id: id@,
                name: name@,
                input: input@,
            },
            CanonicalContentBlock::ToolResult { tool_use_id, content } => BlockView::ToolResult {
                tool_use_id: tool_use_id@,
                content: blocks(content@),
            },
        }
    }
}

impl CanonicalMessage {
    pub open spec fn view(self) -> MessageView {
        MessageView { role: self.role, content: blocks(self.content@) }
    }
}

impl CanonicalTool {
    pub open spec fn view(self) -> ToolView {
        ToolView {
            name: self.name@,
            description: opt_text(self.description),
            input_schema: self.input_schema@,
        }
    }
}

/// The views of a sequence of messages.
pub open spec fn messages(s: Seq<CanonicalMessage>) -> Seq<MessageView> {
    s.map_values(|m: CanonicalMessage| m@)
}

/// The views of a sequence of tools.
pub open spec fn tool_views(s: Seq<CanonicalTool>) -> Seq<ToolView> {
    s.map_values(|t: CanonicalTool| t@)
}

/// The views of an optional list of tools.
pub open spec fn opt_tools(t: Option<Vec<CanonicalTool>>) -> Option<Seq<ToolView>> {
    match t {
        Some(v) => Some(tool_views(v@)),
        None => None,
    }
}

/// The views of an optional list of blocks.
pub open spec fn opt_blocks(t: Option<Vec<CanonicalContentBlock>>) -> Option<Seq<BlockView>> {
    match t {
        Some(v) => Some(blocks(v@)),
        None => None,
    }
}

/// The texts of an optional list of strings.
pub open spec fn opt_texts(t: Option<Vec<String>>) -> Option<Seq<Seq<char>>> {
    match t {
        Some(v) => Some(texts(v@)),
        None => None,
    }
}

/// The text of an optional double.
pub open spec fn opt_double(d: Option<Double>) -> Option<Seq<char>> {
    match d {
        Some(x) => Some(x@),
        None => None,
    }
}

impl CanonicalRequest {
    pub open spec fn view(self) -> RequestView {
        RequestView {
            model: self.model@,
            messages: messages(self.messages@),
            system: opt_blocks(self.system),
            temperature: opt_double(self.temperature),
            top_p: opt_double(self.top_p),
            max_tokens: self.max_tokens,
            stop_sequences: opt_texts(self.stop_sequences),
            stream: self.stream,
            tools: opt_tools(self.tools),
            tool_choice: crate::json::opt_json(self.tool_choice),
            reasoning_effort: opt_text(self.reasoning_effort),
            unmapped: texts(self.unmapped@),
        }
    }
}

impl CanonicalResponse {
    pub open spec fn view(self) -> ResponseView {
        ResponseView {
            id: self.id@,
            model: self.model@,
            content: blocks(self.content@),
            stop_reason: self.stop_reason,
            usage: self.usage,
        }
    }
}

} // verus!
