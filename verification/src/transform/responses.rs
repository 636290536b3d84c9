//! OpenAI Responses requests and responses to and from the canonical form.
use crate::codec::{json_parse, json_text};
use crate::json::{opt_json, views, views_append, views_are, views_empty, views_push, Json, JsonView};
use crate::seqs::{take_ends, take_step};
use crate::text::{cat, copy, is_text, join, joined, same, texts, trim, trimmed};
use crate::transform::canonical::{
    blocks, blocks_append, blocks_are, blocks_push, messages, tool_views, BlockView,
    CanonicalContentBlock, CanonicalImageSource, CanonicalMessage, CanonicalRequest,
    CanonicalResponse, CanonicalRole, CanonicalStopReason, CanonicalTool, CanonicalUsage,
    ConvertError, ImageView, MessageView, RequestView, ResponseView, ToolView,
};
use crate::transform::chat_completions::{
    any_results, collect_texts, count_at, double_at, double_json, double_to_json, effort_of, has_results, items_at, make_text_or_null,
    no_blocks, one_block, parse_count, parse_double, parse_reasoning_effort, parse_strings, plain_texts,
    strings_among, text_blocks, text_content, text_or_null, unless_empty,
};
use vstd::prelude::*;

verus! {

/// The choice of one function by its name.
pub open spec fn named_choice(name: Seq<char>) -> JsonView {
    JsonView::object().with("type"@, JsonView::Str("function"@)).with("name"@, JsonView::Str(name))
}

/// The choice of a tool in the form that the Responses protocol takes.
pub open spec fn responses_choice(choice: JsonView) -> Option<JsonView> {
    match choice {
        JsonView::Str(s) => if s == "auto"@ || s == "none"@ || s == "required"@ {
            Some(JsonView::Str(s))
        } else {
            None
        },
        JsonView::Object(_) => {
            let kind = choice.text_at("type"@);
            if kind == "auto"@ {
                Some(JsonView::Str("auto"@))
            } else if kind == "none"@ {
                Some(JsonView::Str("none"@))
            } else if kind == "any"@ {
                Some(JsonView::Str("required"@))
            } else if kind == "tool"@ {
                match choice.str_at("name"@) {
                    Some(name) => Some(named_choice(name)),
                    None => None,
                }
            } else if kind == "function"@ {
                if choice.str_at("name"@) is Some {
                    Some(choice)
                } else {
                    match choice.at("function"@).str_at("name"@) {
                        Some(name) => Some(named_choice(name)),
                        None => None,
                    }
                }
            } else {
                None
            }
        },
        _ => None,
    }
}

/// The block that an item of a `content` or `summary` list holds.
pub open spec fn part_of(block: JsonView) -> Option<BlockView> {
    let kind = block.text_at("type"@);
    let text = block.text_at("text"@);
    if kind == "text"@ || kind == "input_text"@ || kind == "output_text"@ {
        if text.len() == 0 {
            None
        } else {
            Some(BlockView::Text { text })
        }
    } else if kind == "reasoning_text"@ || kind == "summary_text"@ {
        if text.len() == 0 {
            None
        } else {
            Some(BlockView::Reasoning { text })
        }
    } else if kind == "image_url"@ {
        match block.at("image_url"@).str_at("url"@) {
            Some(url) => Some(BlockView::Image { source: ImageView::Url { url } }),
            None => None,
        }
    } else if kind == "input_image"@ {
        match (block.str_at("image_url"@), block.str_at("data"@)) {
            (Some(url), _) => Some(BlockView::Image { source: ImageView::Url { url } }),
            (None, Some(data)) => Some(
                BlockView::Image {
                    source: ImageView::Base64 {
                        media_type: "image/"@ + match block.str_at("format"@) {
                            Some(f) => f,
                            None => "png"@,
                        },
                        data,
                    },
                },
            ),
            (None, None) => None,
        }
    } else {
        None
    }
}

/// The blocks that a `content` or `summary` list holds.
pub open spec fn parts_of(s: Seq<JsonView>) -> Seq<BlockView>
    decreases s.len(),
{
    if s.len() == 0 {
        Seq::empty()
    } else {
        match part_of(s.last()) {
            Some(b) => parts_of(s.drop_last()).push(b),
            None => parts_of(s.drop_last()),
        }
    }
}

/// The content of a message item: a text or a list.
pub open spec fn input_content(content: JsonView) -> Seq<BlockView> {
    match content {
        JsonView::Str(text) => text_content(text),
        JsonView::Array(a) => parts_of(a),
        _ => Seq::empty(),
    }
}

/// The role of a message item; the user's where it is not named.
pub open spec fn input_role(item: JsonView) -> CanonicalRole {
    if item.str_at("role"@) == Some("system"@) {
        CanonicalRole::System
    } else if item.str_at("role"@) == Some("assistant"@) {
        CanonicalRole::Assistant
    } else {
        CanonicalRole::User
    }
}

/// The message that an item of `input` holds, if any.
pub open spec fn input_message(item: JsonView) -> Option<MessageView> {
    if item.text_at("type"@) == "message"@ {
        Some(
            MessageView {
                role: input_role(item),
                content: input_content(item.at("content"@)),
            },
        )
    } else if item.text_at("type"@) == "function_call_output"@ {
        let id = item.text_at("call_id"@);
        if id.len() == 0 {
            None
        } else {
            Some(
                MessageView {
                    role: CanonicalRole::User,
                    content: seq![
                        BlockView::ToolResult {
                            tool_use_id: id,
                            content: text_content(item.text_at("output"@)),
                        },
                    ],
                },
            )
        }
    } else {
        None
    }
}

/// The messages that a list of input items holds.
pub open spec fn input_messages(s: Seq<JsonView>) -> Seq<MessageView>
    decreases s.len(),
{
    if s.len() == 0 {
        Seq::empty()
    } else {
        match input_message(s.last()) {
            Some(m) => input_messages(s.drop_last()).push(m),
            None => input_messages(s.drop_last()),
        }
    }
}

/// The messages that an `input` field holds: a text of the user or a list of items.
pub open spec fn input_of(input: JsonView) -> Seq<MessageView> {
    match input {
        JsonView::Str(text) => if text.len() == 0 {
            Seq::empty()
        } else {
            seq![
                MessageView {
                    role: CanonicalRole::User,
                    content: seq![BlockView::Text { text }],
                },
            ]
        },
        JsonView::Array(a) => input_messages(a),
        _ => Seq::empty(),
    }
}

/// The tool that an entry of `tools` describes.
pub open spec fn flat_tool(tool: JsonView) -> ToolView {
    ToolView {
        name: tool.text_at("name"@),
        description: tool.str_at("description"@),
        input_schema: match tool.get("parameters"@) {
            Some(p) => p,
            None => JsonView::object(),
        },
    }
}

/// The functions among the entries of `tools`.
pub open spec fn flat_tools(s: Seq<JsonView>) -> Seq<ToolView>
    decreases s.len(),
{
    if s.len() == 0 {
        Seq::empty()
    } else if s.last().text_at("type"@) == "function"@ {
        flat_tools(s.drop_last()).push(flat_tool(s.last()))
    } else {
        flat_tools(s.drop_last())
    }
}

/// The request that a body holds.
pub open spec fn request_of(body: JsonView) -> Result<RequestView, ConvertError> {
    if body.text_at("model"@).len() == 0 {
        Err(ConvertError::EmptyModel)
    } else {
        Ok(
            RequestView {
                model: body.text_at("model"@),
                messages: input_of(body.at("input"@)),
                system: unless_empty(text_content(body.text_at("instructions"@))),
                temperature: double_at(body, "temperature"@),
                top_p: double_at(body, "top_p"@),
                max_tokens: body.u64_at("max_output_tokens"@),
                stop_sequences: match body.array_at("stop_sequences"@) {
                    Some(a) => Some(strings_among(a)),
                    None => None,
                },
                stream: body.bool_at("stream"@) == Some(true),
                tools: unless_empty(flat_tools(items_at(body, "tools"@))),
                tool_choice: body.get("tool_choice"@),
                reasoning_effort: effort_of(body),
                unmapped: Seq::empty(),
            },
        )
    }
}

/// The choice of one function by its name.
fn make_named_choice(name: &str) -> (r: Json)
    ensures
        r@ == named_choice(name@),
{
    Json::object().with("type", Json::str("function")).with("name", Json::str(name))
}

/// The choice of a tool in the form that the Responses protocol takes.
pub fn normalize_tool_choice_for_responses(choice: &Json) -> (r: Option<Json>)
    ensures
        opt_json(r) == responses_choice(choice@),
{
    match choice {
        Json::Str(s) => if same(s, "auto") || same(s, "none") || same(s, "required") {
            Some(Json::Str(s.clone()))
        } else {
            None
        },
        Json::Object(_) => {
            let kind = choice.text_at("type");
            if same(&kind, "auto") {
                Some(Json::str("auto"))
            } else if same(&kind, "none") {
                Some(Json::str("none"))
            } else if same(&kind, "any") {
                Some(Json::str("required"))
            } else if same(&kind, "tool") {
                match choice.str_at("name") {
                    Some(name) => Some(make_named_choice(name)),
                    None => None,
                }
            } else if same(&kind, "function") {
                if choice.str_at("name").is_some() {
                    Some(choice.copy())
                } else {
                    match choice.at("function").str_at("name") {
                        Some(name) => Some(make_named_choice(name)),
                        None => None,
                    }
                }
            } else {
                None
            }
        },
        _ => None,
    }
}

/// The block that an item of a `content` or `summary` list holds.
pub fn parse_responses_content_block(block: &Json) -> (r: Option<CanonicalContentBlock>)
    ensures
        match r {
            Some(b) => part_of(block@) == Some(b@),
            None => part_of(block@) is None,
        },
{
    let kind = block.text_at("type");
    if same(&kind, "text") || same(&kind, "input_text") || same(&kind, "output_text") {
        let text = block.text_at("text");
        if text.as_str().is_empty() {
            None
        } else {
            Some(CanonicalContentBlock::Text { text })
        }
    } else if same(&kind, "reasoning_text") || same(&kind, "summary_text") {
        let text = block.text_at("text");
        if text.as_str().is_empty() {
            None
        } else {
            Some(CanonicalContentBlock::Reasoning { text })
        }
    } else if same(&kind, "image_url") {
        match block.at("image_url").str_at("url") {
            Some(url) => Some(
                CanonicalContentBlock::Image {
                    source: CanonicalImageSource::Url { url: copy(url) },
                },
            ),
            None => None,
        }
    } else if same(&kind, "input_image") {
        if let Some(url) = block.str_at("image_url") {
            return Some(
                CanonicalContentBlock::Image {
                    source: CanonicalImageSource::Url { url: copy(url) },
                },
            );
        }
        if let Some(data) = block.str_at("data") {
            let format = match block.str_at("format") {
                Some(f) => f,
                None => "png",
            };
            return Some(
                CanonicalContentBlock::Image {
                    source: CanonicalImageSource::Base64 {
                        media_type: cat("image/", format),
                        data: copy(data),
                    },
                },
            );
        }
        None
    } else {
        None
    }
}

/// The blocks that a `content` or `summary` list holds.
fn parse_parts(items: &Vec<Json>) -> (r: Vec<CanonicalContentBlock>)
    ensures
        blocks(r@) == parts_of(views(items@)),
{
    let mut out = no_blocks();
    let mut i: usize = 0;
    let ghost all = views(items@);
    broadcast use {views_are, blocks_push};

    proof {
        take_ends(all);
    }
    while i < items.len()
        invariant
            i <= items@.len(),
            all == views(items@),
            blocks(out@) == parts_of(all.take(i as int)),
        decreases items@.len() - i,
    {
        proof {
            take_step(all, i as int);
        }
        if let Some(b) = parse_responses_content_block(&items[i]) {
            out.push(b);
        }
        i += 1;
    }
    out
}

/// The content of a message item.
fn parse_input_content(content: &Json) -> (r: Vec<CanonicalContentBlock>)
    ensures
        blocks(r@) == input_content(content@),
{
    match content {
        Json::Str(text) => text_blocks(text.clone()),
        Json::Array(a) => parse_parts(a),
        _ => no_blocks(),
    }
}

/// The message that an item of `input` holds, if any.
pub fn parse_responses_input_item(item: &Json) -> (r: Option<CanonicalMessage>)
    ensures
        match r {
            Some(m) => input_message(item@) == Some(m@),
            None => input_message(item@) is None,
        },
{
    let kind = item.text_at("type");
    if same(&kind, "message") {
        let role = if is_text(item.str_at("role"), "system") {
            CanonicalRole::System
        } else if is_text(item.str_at("role"), "assistant") {
            CanonicalRole::Assistant
        } else {
            CanonicalRole::User
        };
        let content = parse_input_content(&item.at("content"));
        Some(CanonicalMessage { role, content })
    } else if same(&kind, "function_call_output") {
        let id = item.text_at("call_id");
        if id.as_str().is_empty() {
            return None;
        }
        let content = text_blocks(item.text_at("output"));
        Some(
            CanonicalMessage {
                role: CanonicalRole::User,
                content: one_block(CanonicalContentBlock::ToolResult { tool_use_id: id, content }),
            },
        )
    } else {
        None
    }
}

/// The messages that an `input` field holds.
fn parse_input(input: &Json) -> (r: Vec<CanonicalMessage>)
    ensures
        messages(r@) == input_of(input@),
{
    let mut out: Vec<CanonicalMessage> = Vec::new();
    assert(messages(out@) =~= Seq::<MessageView>::empty());
    match input {
        Json::Str(text) => {
            if !text.as_str().is_empty() {
                out.push(
                    CanonicalMessage {
                        role: CanonicalRole::User,
                        content: one_block(CanonicalContentBlock::Text { text: text.clone() }),
                    },
                );
                assert(messages(out@) =~= input_of(input@));
            }
        },
        Json::Array(items) => {
            let mut i: usize = 0;
            let ghost all = views(items@);
            broadcast use views_are;

            proof {
                take_ends(all);
            }
            while i < items.len()
                invariant
                    i <= items@.len(),
                    all == views(items@),
                    messages(out@) == input_messages(all.take(i as int)),
                decreases items@.len() - i,
            {
                proof {
                    take_step(all, i as int);
                }
                if let Some(m) = parse_responses_input_item(&items[i]) {
                    let ghost before = out@;
                    out.push(m);
                    assert(messages(out@) =~= messages(before).push(m@));
                }
                i += 1;
            }
        },
        _ => {},
    }
    out
}

/// The functions among the entries of `tools`.
fn parse_flat_tools(items: &Vec<Json>) -> (r: Vec<CanonicalTool>)
    ensures
        tool_views(r@) == flat_tools(views(items@)),
{
    let mut out: Vec<CanonicalTool> = Vec::new();
    let mut i: usize = 0;
    let ghost all = views(items@);
    broadcast use views_are;

    proof {
        take_ends(all);
        assert(tool_views(out@) =~= flat_tools(all.take(0)));
    }
    while i < items.len()
        invariant
            i <= items@.len(),
            all == views(items@),
            tool_views(out@) == flat_tools(all.take(i as int)),
        decreases items@.len() - i,
    {
        proof {
            take_step(all, i as int);
        }
        let tool = &items[i];
        let kind = tool.text_at("type");
        if same(&kind, "function") {
            let description = match tool.str_at("description") {
                Some(d) => Some(copy(d)),
                None => None,
            };
            let input_schema = match tool.get("parameters") {
                Some(p) => p.copy(),
                None => Json::object(),
            };
            let ghost before = out@;
            let t = CanonicalTool { name: tool.text_at("name"), description, input_schema };
            assert(t@ == flat_tool(tool@));
            out.push(t);
            assert(tool_views(out@) =~= tool_views(before).push(t@));
        }
        i += 1;
    }
    proof {
        take_ends(all);
    }
    out
}

/// Reads the body of a Responses request.
pub fn to_canonical_request(body: &Json) -> (r: Result<CanonicalRequest, ConvertError>)
    ensures
        match r {
            Ok(q) => request_of(body@) == Ok::<RequestView, ConvertError>(q@),
            Err(e) => request_of(body@) == Err::<RequestView, ConvertError>(e),
        },
{
    broadcast use {views_are, blocks_are};

    let model = body.text_at("model");
    if model.as_str().is_empty() {
        return Err(ConvertError::EmptyModel);
    }
    let messages = parse_input(&body.at("input"));
    let instructions = text_blocks(body.text_at("instructions"));
    let system = if instructions.len() == 0 {
        None
    } else {
        Some(instructions)
    };
    let none: Vec<Json> = Vec::new();
    assert(views(none@) =~= Seq::<JsonView>::empty());
    let entries = match body.array_at("tools") {
        Some(a) => a,
        None => &none,
    };
    let functions = parse_flat_tools(entries);
    let tools = if functions.len() == 0 {
        None
    } else {
        Some(functions)
    };
    let stop_sequences = match body.array_at("stop_sequences") {
        Some(a) => Some(parse_strings(a)),
        None => None,
    };
    let stream = match body.bool_at("stream") {
        Some(b) => b,
        None => false,
    };
    let unmapped: Vec<String> = Vec::new();
    assert(texts(unmapped@) =~= Seq::<Seq<char>>::empty());
    Ok(
        CanonicalRequest {
            model,
            messages,
            system,
            temperature: parse_double(body, "temperature"),
            top_p: parse_double(body, "top_p"),
            max_tokens: body.u64_at("max_output_tokens"),
            stop_sequences,
            stream,
            tools,
            tool_choice: body.get_copy("tool_choice"),
            reasoning_effort: parse_reasoning_effort(body),
            unmapped,
        },
    )
}

/// A message item with the given content.
pub open spec fn message_item(role: Seq<char>, content: JsonView) -> JsonView {
    JsonView::object().with("type"@, JsonView::Str("message"@)).with("role"@, JsonView::Str(role)).with(
        "content"@,
        content,
    )
}

/// The items for a block of a message that calls tools: the calls, and texts of the assistant.
pub open spec fn call_items(b: BlockView) -> Seq<JsonView> {
    match b {
        BlockView::ToolUse { id, name, input } => seq![
            JsonView::object().with("type"@, JsonView::Str("function_call"@)).with(
                "call_id"@,
                JsonView::Str(id),
            ).with("name"@, JsonView::Str(name)).with("arguments"@, JsonView::Str(json_text(input))),
        ],
        BlockView::Text { text } => if text.len() == 0 {
            Seq::empty()
        } else {
            seq![message_item("assistant"@, JsonView::Str(text))]
        },
        _ => Seq::empty(),
    }
}

/// The text of a tool's output. A note that the result was lost is replaced by one that asks
/// for the same call again.
pub open spec fn output_text(content: Seq<BlockView>) -> Seq<char> {
    let text = joined(plain_texts(content), "\n\n"@);
    if trimmed(text) == "[Tool result missing due to internal error]"@ {
        "Error: Tool runtime internal error (result missing). Please retry the same tool call with identical parameters."@
    } else {
        text
    }
}

/// The items for a block of a message with tool results: the results, and texts of the user.
pub open spec fn result_items(b: BlockView) -> Seq<JsonView> {
    match b {
        BlockView::ToolResult { tool_use_id, content } => seq![
            JsonView::object().with("type"@, JsonView::Str("function_call_output"@)).with(
                "call_id"@,
                JsonView::Str(tool_use_id),
            ).with("output"@, JsonView::Str(output_text(content))),
        ],
        BlockView::Text { text } => if text.len() == 0 {
            Seq::empty()
        } else {
            seq![message_item("user"@, JsonView::Str(text))]
        },
        _ => Seq::empty(),
    }
}

/// The items for the blocks of a message that calls tools.
pub open spec fn calls_items(s: Seq<BlockView>) -> Seq<JsonView>
    decreases s.len(),
{
    if s.len() == 0 {
        Seq::empty()
    } else {
        calls_items(s.drop_last()) + call_items(s.last())
    }
}

/// The items for the blocks of a message with tool results.
pub open spec fn results_items(s: Seq<BlockView>) -> Seq<JsonView>
    decreases s.len(),
{
    if s.len() == 0 {
        Seq::empty()
    } else {
        results_items(s.drop_last()) + result_items(s.last())
    }
}

/// A block of a message with several blocks, as an item of its content.
pub open spec fn content_part(b: BlockView) -> Option<JsonView> {
    match b {
        BlockView::Text { text } => Some(
            JsonView::object().with("type"@, JsonView::Str("input_text"@)).with(
                "text"@,
                JsonView::Str(text),
            ),
        ),
        BlockView::Image { source: ImageView::Url { url } } => Some(
            JsonView::object().with("type"@, JsonView::Str("image_url"@)).with(
                "image_url"@,
                JsonView::object().with("url"@, JsonView::Str(url)),
            ),
        ),
        BlockView::Image { source: ImageView::Base64 { media_type, data } } => Some(
            JsonView::object().with("type"@, JsonView::Str("input_image"@)).with(
                "image_url"@,
                JsonView::Str(data),
            ).with("format"@, JsonView::Str("png"@)),
        ),
        _ => None,
    }
}

/// The blocks of a message, as items of its content.
pub open spec fn content_parts(s: Seq<BlockView>) -> Seq<JsonView>
    decreases s.len(),
{
    if s.len() == 0 {
        Seq::empty()
    } else {
        match content_part(s.last()) {
            Some(v) => content_parts(s.drop_last()).push(v),
            None => content_parts(s.drop_last()),
        }
    }
}

/// The items for a message without tools: a lone text stays a text, a lone image becomes a
/// file where it has a URL.
pub open spec fn plain_items(role: Seq<char>, content: Seq<BlockView>) -> Seq<JsonView> {
    if content.len() == 0 {
        seq![message_item(role, JsonView::Str(""@))]
    } else if content.len() == 1 {
        match content[0] {
            BlockView::Text { text } => seq![message_item(role, JsonView::Str(text))],
            BlockView::Image { source: ImageView::Url { url } } => if url.len() == 0 {
                Seq::empty()
            } else {
                seq![
                    JsonView::object().with("type"@, JsonView::Str("file"@)).with(
                        "file_url"@,
                        JsonView::Str(url),
                    ),
                ]
            },
            _ => Seq::empty(),
        }
    } else if content_parts(content).len() == 0 {
        Seq::empty()
    } else {
        seq![message_item(role, JsonView::Array(content_parts(content)))]
    }
}

/// Whether a tool use is among the blocks.
pub open spec fn has_calls(s: Seq<BlockView>) -> bool {
    exists|i: int| 0 <= i < s.len() && #[trigger] s[i] is ToolUse
}

/// The items of `input` for a message; the system's messages are left out.
pub open spec fn message_items(m: MessageView) -> Seq<JsonView> {
    if m.role == CanonicalRole::System {
        Seq::empty()
    } else if has_calls(m.content) {
        calls_items(m.content)
    } else if has_results(m.content) {
        results_items(m.content)
    } else {
        plain_items(
            if m.role == CanonicalRole::User {
                "user"@
            } else {
                "assistant"@
            },
            m.content,
        )
    }
}

/// The items of `input` for a dialogue.
pub open spec fn dialogue_items(s: Seq<MessageView>) -> Seq<JsonView>
    decreases s.len(),
{
    if s.len() == 0 {
        Seq::empty()
    } else {
        dialogue_items(s.drop_last()) + message_items(s.last())
    }
}

/// A tool as an entry of `tools`. It is not strict, so that arguments may be left out.
pub open spec fn responses_tool(t: ToolView) -> JsonView {
    JsonView::object().with("type"@, JsonView::Str("function"@)).with("name"@, JsonView::Str(t.name)).with(
        "description"@,
        text_or_null(t.description),
    ).with("strict"@, JsonView::Bool(false)).with("parameters"@, t.input_schema)
}

/// Tools as entries of `tools`.
pub open spec fn responses_tools(s: Seq<ToolView>) -> Seq<JsonView> {
    Seq::new(s.len(), |i: int| responses_tool(s[i]))
}

/// The body of a Responses request.
pub open spec fn responses_request(q: RequestView) -> JsonView {
    JsonView::object().with("model"@, JsonView::Str(q.model)).with_some(
        "input"@,
        if q.messages.len() == 0 {
            None
        } else {
            Some(JsonView::Array(dialogue_items(q.messages)))
        },
    ).with_some(
        "instructions"@,
        match q.system {
            Some(s) => if plain_texts(s).len() == 0 {
                None
            } else {
                Some(JsonView::Str(joined(plain_texts(s), "\n\n"@)))
            },
            None => None,
        },
    ).with_some(
        "max_output_tokens"@,
        match q.max_tokens {
            Some(n) => Some(JsonView::uint(n)),
            None => None,
        },
    ).with_some("temperature"@, double_json(q.temperature)).with_some(
        "top_p"@,
        double_json(q.top_p),
    ).with_some(
        "stop_sequences"@,
        match q.stop_sequences {
            Some(s) => Some(JsonView::strings(s)),
            None => None,
        },
    ).with_some(
        "stream"@,
        if q.stream {
            Some(JsonView::Bool(true))
        } else {
            None
        },
    ).with_some(
        "tools"@,
        match q.tools {
            Some(t) => Some(JsonView::Array(responses_tools(t))),
            None => None,
        },
    ).with_some(
        "tool_choice"@,
        match q.tool_choice {
            Some(c) => responses_choice(c),
            None => None,
        },
    ).with_some(
        "reasoning"@,
        match q.reasoning_effort {
            Some(e) => Some(JsonView::object().with("effort"@, JsonView::Str(e))),
            None => None,
        },
    )
}

/// A message item with the given content.
fn make_message_item(role: &str, content: Json) -> (r: Json)
    ensures
        r@ == message_item(role@, content@),
{
    Json::object().with("type", Json::str("message")).with("role", Json::str(role)).with(
        "content",
        content,
    )
}

/// Adds the items for a block of a message that calls tools.
fn push_call_items(out: &mut Vec<Json>, b: &CanonicalContentBlock)
    ensures
        views(final(out)@) == views(old(out)@) + call_items(b@),
{
    broadcast use {views_push, views_are};

    let ghost before = views(out@);
    match b {
        CanonicalContentBlock::ToolUse { id, name, input } => {
            out.push(
                Json::object().with("type", Json::str("function_call")).with(
                    "call_id",
                    Json::str(id),
                ).with("name", Json::str(name)).with("arguments", Json::Str(input.text())),
            );
        },
        CanonicalContentBlock::Text { text } => {
            if !text.as_str().is_empty() {
                out.push(make_message_item("assistant", Json::str(text)));
            }
        },
        _ => {},
    }
    assert(views(out@) =~= before + call_items(b@));
}

/// The text of a tool's output.
fn make_output_text(content: &Vec<CanonicalContentBlock>) -> (r: String)
    ensures
        r@ == output_text(blocks(content@)),
{
    let parts = collect_texts(content);
    let text = join(&parts, "\n\n");
    if same(trim(&text), "[Tool result missing due to internal error]") {
        copy(
            "Error: Tool runtime internal error (result missing). Please retry the same tool call with identical parameters.",
        )
    } else {
        text
    }
}

/// Adds the items for a block of a message with tool results.
fn push_result_items(out: &mut Vec<Json>, b: &CanonicalContentBlock)
    ensures
        views(final(out)@) == views(old(out)@) + result_items(b@),
{
    broadcast use {views_push, views_are};

    let ghost before = views(out@);
    match b {
        CanonicalContentBlock::ToolResult { tool_use_id, content } => {
            let text = make_output_text(content);
            out.push(
                Json::object().with("type", Json::str("function_call_output")).with(
                    "call_id",
                    Json::str(tool_use_id),
                ).with("output", Json::Str(text)),
            );
        },
        CanonicalContentBlock::Text { text } => {
            if !text.as_str().is_empty() {
                out.push(make_message_item("user", Json::str(text)));
            }
        },
        _ => {},
    }
    assert(views(out@) =~= before + result_items(b@));
}

/// A block of a message with several blocks, as an item of its content.
fn make_content_part(b: &CanonicalContentBlock) -> (r: Option<Json>)
    ensures
        opt_json(r) == content_part(b@),
{
    match b {
        CanonicalContentBlock::Text { text } => Some(
            Json::object().with("type", Json::str("input_text")).with("text", Json::str(text)),
        ),
        CanonicalContentBlock::Image { source } => match source {
            CanonicalImageSource::Url { url } => Some(
                Json::object().with("type", Json::str("image_url")).with(
                    "image_url",
                    Json::object().with("url", Json::str(url)),
                ),
            ),
            CanonicalImageSource::Base64 { media_type, data } => Some(
                Json::object().with("type", Json::str("input_image")).with(
                    "image_url",
                    Json::str(data),
                ).with("format", Json::str("png")),
            ),
        },
        _ => None,
    }
}

/// The blocks of a message, as items of its content.
fn make_content_parts(s: &Vec<CanonicalContentBlock>) -> (r: Vec<Json>)
    ensures
        views(r@) == content_parts(blocks(s@)),
{
    let mut out: Vec<Json> = Vec::new();
    let mut i: usize = 0;
    let ghost all = blocks(s@);
    broadcast use {views_push, views_are, blocks_are};

    proof {
        take_ends(all);
        assert(views(out@) =~= content_parts(all.take(0)));
    }
    while i < s.len()
        invariant
            i <= s@.len(),
            all == blocks(s@),
            views(out@) == content_parts(all.take(i as int)),
        decreases s@.len() - i,
    {
        proof {
            take_step(all, i as int);
        }
        if let Some(v) = make_content_part(&s[i]) {
            out.push(v);
        }
        i += 1;
    }
    out
}

/// Adds the items for a message without tools.
fn push_plain_items(out: &mut Vec<Json>, role: &str, content: &Vec<CanonicalContentBlock>)
    ensures
        views(final(out)@) == views(old(out)@) + plain_items(role@, blocks(content@)),
{
    broadcast use {views_push, views_are, blocks_are};

    let ghost before = views(out@);
    if content.len() == 0 {
        out.push(make_message_item(role, Json::str("")));
    } else if content.len() == 1 {
        match &content[0] {
            CanonicalContentBlock::Text { text } => {
                out.push(make_message_item(role, Json::str(text)));
            },
            CanonicalContentBlock::Image { source: CanonicalImageSource::Url { url } } => {
                if !url.as_str().is_empty() {
                    out.push(
                        Json::object().with("type", Json::str("file")).with(
                            "file_url",
                            Json::str(url),
                        ),
                    );
                }
            },
            _ => {},
        }
    } else {
        let parts = make_content_parts(content);
        if parts.len() > 0 {
            out.push(make_message_item(role, Json::Array(parts)));
        }
    }
    assert(views(out@) =~= before + plain_items(role@, blocks(content@)));
}

/// Whether a tool use is among the blocks.
pub fn any_calls(s: &Vec<CanonicalContentBlock>) -> (r: bool)
    ensures
        r == has_calls(blocks(s@)),
{
    let mut i: usize = 0;
    broadcast use blocks_are;

    while i < s.len()
        invariant
            i <= s@.len(),
            forall|j: int| 0 <= j < i ==> !(#[trigger] blocks(s@)[j] is ToolUse),
        decreases s@.len() - i,
    {
        if let CanonicalContentBlock::ToolUse { id, name, input } = &s[i] {
            assert(blocks(s@)[i as int] is ToolUse);
            return true;
        }
        i += 1;
    }
    false
}

/// Adds the items of `input` for a message.
fn push_message_items(out: &mut Vec<Json>, m: &CanonicalMessage)
    ensures
        views(final(out)@) == views(old(out)@) + message_items(m@),
{
    broadcast use blocks_are;

    let ghost before = views(out@);
    let ghost all = blocks(m.content@);
    if m.role == CanonicalRole::System {
        assert(before + Seq::<JsonView>::empty() =~= before);
        return ;
    }
    let calls = any_calls(&m.content);
    let results = any_results(&m.content);
    if calls || results {
        let mut i: usize = 0;
        proof {
            take_ends(all);
            assert(before + Seq::<JsonView>::empty() =~= before);
        }
        while i < m.content.len()
            invariant
                i <= m.content@.len(),
                all == blocks(m.content@),
                calls == has_calls(all),
                views(out@) == before + (if calls {
                    calls_items(all.take(i as int))
                } else {
                    results_items(all.take(i as int))
                }),
            decreases m.content@.len() - i,
        {
            proof {
                take_step(all, i as int);
            }
            let ghost done = views(out@);
            if calls {
                push_call_items(out, &m.content[i]);
                assert(views(out@) =~= before + (calls_items(all.take(i as int)) + call_items(
                    all[i as int],
                )));
            } else {
                push_result_items(out, &m.content[i]);
                assert(views(out@) =~= before + (results_items(all.take(i as int)) + result_items(
                    all[i as int],
                )));
            }
            i += 1;
        }
    } else {
        let role = if m.role == CanonicalRole::User {
            "user"
        } else {
            "assistant"
        };
        push_plain_items(out, role, &m.content);
    }
}

/// Tools as entries of `tools`.
fn tools_to_responses(tools: &Vec<CanonicalTool>) -> (r: Vec<Json>)
    ensures
        views(r@) == responses_tools(tool_views(tools@)),
{
    let mut out: Vec<Json> = Vec::new();
    let mut i: usize = 0;
    broadcast use views_are;

    while i < tools.len()
        invariant
            i <= tools@.len(),
            out@.len() == i,
            forall|j: int| 0 <= j < i ==> #[trigger] out@[j]@ == responses_tool(tools@[j]@),
        decreases tools@.len() - i,
    {
        let t = &tools[i];
        out.push(
            Json::object().with("type", Json::str("function")).with("name", Json::str(&t.name)).with(
                "description",
                make_text_or_null(&t.description),
            ).with("strict", Json::Bool(false)).with("parameters", t.input_schema.copy()),
        );
        i += 1;
    }
    assert(views(out@) =~= responses_tools(tool_views(tools@)));
    out
}

/// The items of `input` for a dialogue.
fn dialogue_to_items(s: &Vec<CanonicalMessage>) -> (r: Vec<Json>)
    ensures
        views(r@) == dialogue_items(messages(s@)),
{
    let mut out: Vec<Json> = Vec::new();
    let mut i: usize = 0;
    let ghost all = messages(s@);
    proof {
        take_ends(all);
        views_empty();
        assert(out@ =~= Seq::<Json>::empty());
    }
    while i < s.len()
        invariant
            i <= s@.len(),
            all == messages(s@),
            views(out@) == dialogue_items(all.take(i as int)),
        decreases s@.len() - i,
    {
        proof {
            take_step(all, i as int);
        }
        push_message_items(&mut out, &s[i]);
        i += 1;
    }
    out
}

/// Writes the body of a Responses request. It never fails.
pub fn from_canonical_request(canonical: &CanonicalRequest) -> (r: Result<Json, ConvertError>)
    ensures
        r is Ok,
        r->Ok_0@ == responses_request(canonical@),
{
    let input = if canonical.messages.len() == 0 {
        None
    } else {
        Some(Json::Array(dialogue_to_items(&canonical.messages)))
    };
    let instructions = match &canonical.system {
        Some(s) => {
            let parts = collect_texts(s);
            if parts.len() == 0 {
                None
            } else {
                Some(Json::Str(join(&parts, "\n\n")))
            }
        },
        None => None,
    };
    let max_tokens = match canonical.max_tokens {
        Some(n) => Some(Json::uint(n)),
        None => None,
    };
    let stop = match &canonical.stop_sequences {
        Some(s) => Some(Json::strings(s)),
        None => None,
    };
    let stream = if canonical.stream {
        Some(Json::Bool(true))
    } else {
        None
    };
    let tools = match &canonical.tools {
        Some(t) => Some(Json::Array(tools_to_responses(t))),
        None => None,
    };
    let choice = match &canonical.tool_choice {
        Some(c) => normalize_tool_choice_for_responses(c),
        None => None,
    };
    let reasoning = match &canonical.reasoning_effort {
        Some(e) => Some(Json::object().with("effort", Json::str(e))),
        None => None,
    };
    Ok(
        Json::object().with("model", Json::str(&canonical.model)).with_some(
            "input",
            input,
        ).with_some("instructions", instructions).with_some(
            "max_output_tokens",
            max_tokens,
        ).with_some("temperature", double_to_json(&canonical.temperature)).with_some(
            "top_p",
            double_to_json(&canonical.top_p),
        ).with_some("stop_sequences", stop).with_some("stream", stream).with_some(
            "tools",
            tools,
        ).with_some("tool_choice", choice).with_some("reasoning", reasoning),
    )
}

/// The identifier of a called function.
pub open spec fn call_id_of(item: JsonView) -> Seq<char> {
    match item.str_at("call_id"@) {
        Some(id) => if id.len() > 0 {
            id
        } else {
            item.text_at("id"@)
        },
        None => item.text_at("id"@),
    }
}

/// The arguments of a called function: the JSON that their text denotes, else the raw text.
pub open spec fn arguments_of(item: JsonView) -> JsonView {
    let text = match item.str_at("arguments"@) {
        Some(a) => a,
        None => "{}"@,
    };
    match json_parse(text) {
        Some(v) => v,
        None => JsonView::object().with("raw"@, JsonView::Str(text)),
    }
}

/// The content that an item of `output` holds.
pub open spec fn output_content(item: JsonView) -> Seq<BlockView> {
    let kind = item.text_at("type"@);
    if kind == "message"@ {
        parts_of(items_at(item, "content"@))
    } else if kind == "function_call"@ {
        if call_id_of(item).len() == 0 {
            Seq::empty()
        } else {
            seq![
                BlockView::ToolUse {
                    id: call_id_of(item),
                    name: item.text_at("name"@),
                    input: arguments_of(item),
                },
            ]
        }
    } else if kind == "reasoning"@ {
        parts_of(items_at(item, "summary"@)) + parts_of(items_at(item, "content"@))
    } else {
        Seq::empty()
    }
}

/// The content that a list of output items holds.
pub open spec fn outputs_content(s: Seq<JsonView>) -> Seq<BlockView>
    decreases s.len(),
{
    if s.len() == 0 {
        Seq::empty()
    } else {
        outputs_content(s.drop_last()) + output_content(s.last())
    }
}

/// Whether an item of `output` calls a function.
pub open spec fn is_call(item: JsonView) -> bool {
    item.text_at("type"@) == "function_call"@
}

/// Whether a function call is among the items.
pub open spec fn any_call(s: Seq<JsonView>) -> bool {
    exists|i: int| 0 <= i < s.len() && is_call(#[trigger] s[i])
}

/// Why a response stopped, from its status, its stop reason and whether it calls a function.
pub open spec fn stop_of(status: Seq<char>, reason: Seq<char>, calls: bool) -> Option<
    CanonicalStopReason,
> {
    if status == "in_progress"@ {
        None
    } else if status == "incomplete"@ {
        Some(CanonicalStopReason::MaxTokens)
    } else if reason == "end_turn"@ {
        Some(CanonicalStopReason::EndTurn)
    } else if reason.len() == 0 {
        Some(
            if calls {
                CanonicalStopReason::ToolUse
            } else {
                CanonicalStopReason::EndTurn
            },
        )
    } else if reason == "max_output_tokens"@ || reason == "max_tokens"@ {
        Some(CanonicalStopReason::MaxTokens)
    } else if reason == "stop_sequence"@ {
        Some(CanonicalStopReason::StopSequence)
    } else if reason == "tool_calls"@ || reason == "function_call"@ {
        Some(CanonicalStopReason::ToolUse)
    } else {
        Some(CanonicalStopReason::EndTurn)
    }
}

/// The token counts of a response.
pub open spec fn usage_of(body: JsonView) -> Option<CanonicalUsage> {
    match body.get("usage"@) {
        Some(u) => Some(
            CanonicalUsage {
                input_tokens: count_at(u, "input_tokens"@),
                output_tokens: count_at(u, "output_tokens"@),
                total_tokens: u.u64_at("total_tokens"@),
            },
        ),
        None => None,
    }
}

/// The status of a response; completed where it is not named.
pub open spec fn status_of(body: JsonView) -> Seq<char> {
    match body.str_at("status"@) {
        Some(s) => s,
        None => "completed"@,
    }
}

/// The response that a body holds.
pub open spec fn response_of(body: JsonView) -> ResponseView {
    let output = items_at(body, "output"@);
    ResponseView {
        id: body.text_at("id"@),
        model: body.text_at("model"@),
        content: outputs_content(output),
        stop_reason: stop_of(status_of(body), body.text_at("stop_reason"@), any_call(output)),
        usage: usage_of(body),
    }
}

/// The identifier of a called function.
fn parse_call_id(item: &Json) -> (r: String)
    ensures
        r@ == call_id_of(item@),
{
    match item.str_at("call_id") {
        Some(id) => if !id.is_empty() {
            copy(id)
        } else {
            item.text_at("id")
        },
        None => item.text_at("id"),
    }
}

/// The arguments of a called function.
fn parse_arguments(item: &Json) -> (r: Json)
    ensures
        r@ == arguments_of(item@),
{
    let text = match item.str_at("arguments") {
        Some(a) => a,
        None => "{}",
    };
    match Json::parse(text) {
        Some(v) => v,
        None => Json::object().with("raw", Json::str(text)),
    }
}

/// The blocks under `key`.
fn parse_parts_at(item: &Json, key: &str) -> (r: Vec<CanonicalContentBlock>)
    ensures
        blocks(r@) == parts_of(items_at(item@, key@)),
{
    match item.array_at(key) {
        Some(a) => parse_parts(a),
        None => no_blocks(),
    }
}

/// The content that an item of `output` holds, and whether it calls a function.
fn parse_output_item(item: &Json) -> (r: (Vec<CanonicalContentBlock>, bool))
    ensures
        blocks(r.0@) == output_content(item@),
        r.1 == is_call(item@),
{
    let kind = item.text_at("type");
    proof {
        reveal_strlit("message");
        reveal_strlit("function_call");
        assert("message"@.len() == 7 && "function_call"@.len() == 13);
    }
    if same(&kind, "message") {
        (parse_parts_at(item, "content"), false)
    } else if same(&kind, "function_call") {
        let id = parse_call_id(item);
        if id.as_str().is_empty() {
            (no_blocks(), true)
        } else {
            let b = CanonicalContentBlock::ToolUse {
                id,
                name: item.text_at("name"),
                input: parse_arguments(item),
            };
            (one_block(b), true)
        }
    } else if same(&kind, "reasoning") {
        broadcast use blocks_append;

        let mut out = parse_parts_at(item, "summary");
        let mut more = parse_parts_at(item, "content");
        out.append(&mut more);
        (out, false)
    } else {
        (no_blocks(), false)
    }
}

/// The content that the items of `output` hold, and whether one of them calls a function.
fn parse_output(items: &Vec<Json>) -> (r: (Vec<CanonicalContentBlock>, bool))
    ensures
        blocks(r.0@) == outputs_content(views(items@)),
        r.1 == any_call(views(items@)),
{
    let mut out = no_blocks();
    let mut calls = false;
    let mut i: usize = 0;
    let ghost all = views(items@);
    broadcast use {views_are, blocks_append};

    proof {
        take_ends(all);
    }
    while i < items.len()
        invariant
            i <= items@.len(),
            all == views(items@),
            blocks(out@) == outputs_content(all.take(i as int)),
            calls == exists|j: int| 0 <= j < i && is_call(#[trigger] all[j]),
        decreases items@.len() - i,
    {
        proof {
            take_step(all, i as int);
        }
        let (mut more, call) = parse_output_item(&items[i]);
        out.append(&mut more);
        if call {
            calls = true;
            assert(is_call(all[i as int]));
        }
        i += 1;
    }
    (out, calls)
}

/// Why a response stopped.
fn parse_stop_reason(status: &str, reason: &str, calls: bool) -> (r: Option<CanonicalStopReason>)
    ensures
        r == stop_of(status@, reason@, calls),
{
    if same(status, "in_progress") {
        None
    } else if same(status, "incomplete") {
        Some(CanonicalStopReason::MaxTokens)
    } else if same(reason, "end_turn") {
        Some(CanonicalStopReason::EndTurn)
    } else if reason.is_empty() {
        Some(
            if calls {
                CanonicalStopReason::ToolUse
            } else {
                CanonicalStopReason::EndTurn
            },
        )
    } else if same(reason, "max_output_tokens") || same(reason, "max_tokens") {
        Some(CanonicalStopReason::MaxTokens)
    } else if same(reason, "stop_sequence") {
        Some(CanonicalStopReason::StopSequence)
    } else if same(reason, "tool_calls") || same(reason, "function_call") {
        Some(CanonicalStopReason::ToolUse)
    } else {
        Some(CanonicalStopReason::EndTurn)
    }
}

/// Reads the body of a Responses response. It never fails.
pub fn to_canonical_response(body: &Json) -> (r: Result<CanonicalResponse, ConvertError>)
    ensures
        r is Ok,
        r->Ok_0@ == response_of(body@),
{
    broadcast use views_are;

    let none: Vec<Json> = Vec::new();
    assert(views(none@) =~= Seq::<JsonView>::empty());
    let output = match body.array_at("output") {
        Some(a) => a,
        None => &none,
    };
    let (content, calls) = parse_output(output);
    let status = match body.str_at("status") {
        Some(s) => s,
        None => "completed",
    };
    let reason = body.text_at("stop_reason");
    let usage = match body.get("usage") {
        Some(u) => Some(
            CanonicalUsage {
                input_tokens: parse_count(u, "input_tokens"),
                output_tokens: parse_count(u, "output_tokens"),
                total_tokens: u.u64_at("total_tokens"),
            },
        ),
        None => None,
    };
    Ok(
        CanonicalResponse {
            id: body.text_at("id"),
            model: body.text_at("model"),
            content,
            stop_reason: parse_stop_reason(status, &reason, calls),
            usage,
        },
    )
}

/// Reasoning and images, each as an output item of its own.
pub open spec fn single_items(s: Seq<BlockView>) -> Seq<JsonView>
    decreases s.len(),
{
    if s.len() == 0 {
        Seq::empty()
    } else {
        let before = single_items(s.drop_last());
        match s.last() {
            BlockView::Reasoning { text } => before.push(reasoning_item(text)),
            BlockView::Image { source } => before.push(image_item(source)),
            _ => before,
        }
    }
}

/// Reasoning as an output item.
pub open spec fn reasoning_item(text: Seq<char>) -> JsonView {
    JsonView::object().with("type"@, JsonView::Str("reasoning"@)).with(
        "summary"@,
        JsonView::Array(
            seq![
                JsonView::object().with("type"@, JsonView::Str("reasoning_text"@)).with(
                    "text"@,
                    JsonView::Str(text),
                ),
            ],
        ),
    )
}

/// An image as an output item.
pub open spec fn image_item(source: ImageView) -> JsonView {
    JsonView::object().with("type"@, JsonView::Str("message"@)).with(
        "content"@,
        JsonView::Array(
            seq![
                JsonView::object().with("type"@, JsonView::Str("input_image"@)).with(
                    "image_url"@,
                    JsonView::Str(
                        match source {
                            ImageView::Url { url } => url,
                            ImageView::Base64 { media_type, data } => data,
                        },
                    ),
                ).with("format"@, JsonView::Str("png"@)),
            ],
        ),
    )
}

/// The texts as items of the content of a message.
pub open spec fn text_parts(s: Seq<BlockView>) -> Seq<JsonView>
    decreases s.len(),
{
    if s.len() == 0 {
        Seq::empty()
    } else {
        match s.last() {
            BlockView::Text { text } => text_parts(s.drop_last()).push(text_part(text)),
            _ => text_parts(s.drop_last()),
        }
    }
}

/// A text as an item of the content of a message.
pub open spec fn text_part(text: Seq<char>) -> JsonView {
    JsonView::object().with("type"@, JsonView::Str("output_text"@)).with("text"@, JsonView::Str(text))
}

/// A function call as an output item.
pub open spec fn output_call(id: Seq<char>, name: Seq<char>, input: JsonView) -> JsonView {
    JsonView::object().with("type"@, JsonView::Str("function_call"@)).with("id"@, JsonView::Str(id)).with(
        "call_id"@,
        JsonView::Str(id),
    ).with("name"@, JsonView::Str(name)).with("arguments"@, JsonView::Str(json_text(input)))
}

/// The tool uses as output items.
pub open spec fn output_calls(s: Seq<BlockView>) -> Seq<JsonView>
    decreases s.len(),
{
    if s.len() == 0 {
        Seq::empty()
    } else {
        match s.last() {
            BlockView::ToolUse { id, name, input } => output_calls(s.drop_last()).push(
                output_call(id, name, input),
            ),
            _ => output_calls(s.drop_last()),
        }
    }
}

/// The output items: reasoning and images, then one message with the texts, then the calls.
pub open spec fn output_items(s: Seq<BlockView>) -> Seq<JsonView> {
    single_items(s) + (if text_parts(s).len() == 0 {
        Seq::empty()
    } else {
        seq![
            JsonView::object().with("type"@, JsonView::Str("message"@)).with(
                "content"@,
                JsonView::Array(text_parts(s)),
            ),
        ]
    }) + output_calls(s)
}

/// The name of a stop reason.
pub open spec fn stop_name(reason: CanonicalStopReason) -> Seq<char> {
    match reason {
        CanonicalStopReason::EndTurn => "end_turn"@,
        CanonicalStopReason::MaxTokens => "max_output_tokens"@,
        CanonicalStopReason::StopSequence => "stop_sequence"@,
        CanonicalStopReason::ToolUse => "tool_calls"@,
    }
}

/// The body of a Responses response.
pub open spec fn responses_response(p: ResponseView) -> JsonView {
    JsonView::object().with("id"@, JsonView::Str(p.id)).with("model"@, JsonView::Str(p.model)).with(
        "output"@,
        JsonView::Array(output_items(p.content)),
    ).with(
        "status"@,
        JsonView::Str(
            if p.stop_reason is Some {
                "completed"@
            } else {
                "in_progress"@
            },
        ),
    ).with_some(
        "stop_reason"@,
        match p.stop_reason {
            Some(reason) => Some(JsonView::Str(stop_name(reason))),
            None => None,
        },
    ).with_some(
        "usage"@,
        match p.usage {
            Some(u) => Some(
                JsonView::object().with("input_tokens"@, JsonView::uint(u.input_tokens)).with(
                    "output_tokens"@,
                    JsonView::uint(u.output_tokens),
                ).with_some(
                    "total_tokens"@,
                    match u.total_tokens {
                        Some(n) => Some(JsonView::uint(n)),
                        None => None,
                    },
                ),
            ),
            None => None,
        },
    )
}

/// The output items for the content of a response.
fn content_to_output(s: &Vec<CanonicalContentBlock>) -> (r: Vec<Json>)
    ensures
        views(r@) == output_items(blocks(s@)),
{
    let mut single: Vec<Json> = Vec::new();
    let mut parts: Vec<Json> = Vec::new();
    let mut calls: Vec<Json> = Vec::new();
    let mut i: usize = 0;
    let ghost all = blocks(s@);
    broadcast use {views_push, views_are, views_append, blocks_are};

    proof {
        take_ends(all);
        views_empty();
        assert(single@ =~= Seq::<Json>::empty());
        assert(parts@ =~= Seq::<Json>::empty());
        assert(calls@ =~= Seq::<Json>::empty());
    }
    while i < s.len()
        invariant
            i <= s@.len(),
            all == blocks(s@),
            views(single@) == single_items(all.take(i as int)),
            views(parts@) == text_parts(all.take(i as int)),
            views(calls@) == output_calls(all.take(i as int)),
        decreases s@.len() - i,
    {
        proof {
            take_step(all, i as int);
        }
        match &s[i] {
            CanonicalContentBlock::Text { text } => {
                parts.push(
                    Json::object().with("type", Json::str("output_text")).with(
                        "text",
                        Json::str(text),
                    ),
                );
            },
            CanonicalContentBlock::Reasoning { text } => {
                let part = Json::object().with("type", Json::str("reasoning_text")).with(
                    "text",
                    Json::str(text),
                );
                single.push(
                    Json::object().with("type", Json::str("reasoning")).with(
                        "summary",
                        Json::single(part),
                    ),
                );
            },
            CanonicalContentBlock::ToolUse { id, name, input } => {
                calls.push(
                    Json::object().with("type", Json::str("function_call")).with(
                        "id",
                        Json::str(id),
                    ).with("call_id", Json::str(id)).with("name", Json::str(name)).with(
                        "arguments",
                        Json::Str(input.text()),
                    ),
                );
            },
            CanonicalContentBlock::Image { source } => {
                let url = match source {
                    CanonicalImageSource::Url { url } => url,
                    CanonicalImageSource::Base64 { media_type, data } => data,
                };
                let part = Json::object().with("type", Json::str("input_image")).with(
                    "image_url",
                    Json::str(url),
                ).with("format", Json::str("png"));
                single.push(
                    Json::object().with("type", Json::str("message")).with(
                        "content",
                        Json::single(part),
                    ),
                );
            },
            _ => {},
        }
        i += 1;
    }
    let ghost items = views(single@);
    let ghost texts = views(parts@);
    if parts.len() > 0 {
        single.push(
            Json::object().with("type", Json::str("message")).with("content", Json::Array(parts)),
        );
    }
    proof {
        take_ends(all);
        assert(views(single@) =~= items + (if text_parts(all).len() == 0 {
            Seq::empty()
        } else {
            seq![
                JsonView::object().with("type"@, JsonView::Str("message"@)).with(
                    "content"@,
                    JsonView::Array(texts),
                ),
            ]
        }));
    }
    single.append(&mut calls);
    single
}

/// The name of a stop reason.
pub fn stop_reason_to_responses(reason: &CanonicalStopReason) -> (r: &'static str)
    ensures
        r@ == stop_name(*reason),
{
    match reason {
        CanonicalStopReason::EndTurn => "end_turn",
        CanonicalStopReason::MaxTokens => "max_output_tokens",
        CanonicalStopReason::StopSequence => "stop_sequence",
        CanonicalStopReason::ToolUse => "tool_calls",
    }
}

/// Writes the body of a Responses response. It never fails.
pub fn from_canonical_response(canonical: &CanonicalResponse) -> (r: Result<Json, ConvertError>)
    ensures
        r is Ok,
        r->Ok_0@ == responses_response(canonical@),
{
    let output = content_to_output(&canonical.content);
    let status = if canonical.stop_reason.is_some() {
        "completed"
    } else {
        "in_progress"
    };
    let stop_reason = match &canonical.stop_reason {
        Some(reason) => Some(Json::str(stop_reason_to_responses(reason))),
        None => None,
    };
    let usage = match &canonical.usage {
        Some(u) => {
            let total = match u.total_tokens {
                Some(n) => Some(Json::uint(n)),
                None => None,
            };
            Some(
                Json::object().with("input_tokens", Json::uint(u.input_tokens)).with(
                    "output_tokens",
                    Json::uint(u.output_tokens),
                ).with_some("total_tokens", total),
            )
        },
        None => None,
    };
    Ok(
        Json::object().with("id", Json::str(&canonical.id)).with(
            "model",
            Json::str(&canonical.model),
        ).with("output", Json::Array(output)).with("status", Json::str(status)).with_some(
            "stop_reason",
            stop_reason,
        ).with_some("usage", usage),
    )
}

} // verus!
