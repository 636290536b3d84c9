//! Anthropic Messages requests and responses to and from the canonical form.
use crate::json::{views, views_are, Json, JsonView};
use crate::seqs::{take_ends, take_step};
use crate::text::{copy, join, joined, same, texts};
use crate::transform::canonical::{
    blocks, blocks_append, blocks_are, messages, opt_blocks, opt_tools, tool_views, BlockView,
    CanonicalContentBlock, CanonicalImageSource, CanonicalMessage, CanonicalRequest,
    CanonicalResponse, CanonicalRole, CanonicalStopReason, CanonicalTool, CanonicalUsage,
    ConvertError, ImageView, MessageView, RequestView, ResponseView, ToolView,
};
use crate::transform::chat_completions::{
    collect_texts, content_field, count_at, double_at, double_json, double_to_json, items_at,
    make_content_field, no_blocks, one_block, parse_count, parse_double, parse_some_text, parse_strings,
    plain_texts, some_text_at, strings_among, text_blocks, text_content, text_item, unless_empty,
};
use vstd::prelude::*;

verus! {

/// The image that an image source holds.
pub open spec fn image_content(source: JsonView) -> Seq<BlockView> {
    let kind = source.text_at("type"@);
    if kind == "base64"@ {
        seq![
            BlockView::Image {
                source: ImageView::Base64 {
                    media_type: match source.str_at("media_type"@) {
                        Some(m) => m,
                        None => "image/png"@,
                    },
                    data: source.text_at("data"@),
                },
            },
        ]
    } else if kind == "url"@ {
        seq![BlockView::Image { source: ImageView::Url { url: source.text_at("url"@) } }]
    } else {
        Seq::empty()
    }
}

/// The blocks that one item of a content list holds.
pub open spec fn item_content(block: JsonView) -> Seq<BlockView>
    decreases block,
{
    let kind = block.text_at("type"@);
    if kind == "text"@ {
        text_content(block.text_at("text"@))
    } else if kind == "image"@ {
        match block.get("source"@) {
            Some(src) => image_content(src),
            None => Seq::empty(),
        }
    } else if kind == "tool_use"@ {
        seq![
            BlockView::ToolUse {
                id: block.text_at("id"@),
                name: block.text_at("name"@),
                input: match block.get("input"@) {
                    Some(i) => i,
                    None => JsonView::object(),
                },
            },
        ]
    } else if kind == "thinking"@ {
        match some_text_at(block, "thinking"@) {
            Some(text) => seq![BlockView::Reasoning { text }],
            None => Seq::empty(),
        }
    } else if kind == "tool_result"@ {
        let content = match block.get("content"@) {
            Some(JsonView::Str(text)) => text_content(text),
            Some(JsonView::Array(a)) => items_content(a),
            _ => Seq::empty(),
        };
        seq![BlockView::ToolResult { tool_use_id: block.text_at("tool_use_id"@), content }]
    } else {
        Seq::empty()
    }
}

/// The blocks that a content list holds.
pub open spec fn items_content(s: Seq<JsonView>) -> Seq<BlockView>
    decreases s,
{
    if s.len() == 0 {
        Seq::empty()
    } else {
        items_content(s.drop_last()) + item_content(s.last())
    }
}

/// The blocks that a content field holds: a text or a list.
pub open spec fn content_of(content: JsonView) -> Seq<BlockView> {
    match content {
        JsonView::Str(text) => text_content(text),
        JsonView::Array(a) => items_content(a),
        _ => Seq::empty(),
    }
}

/// The image that an image source holds.
pub fn parse_image_source(source: &Json) -> (r: Vec<CanonicalContentBlock>)
    ensures
        blocks(r@) == image_content(source@),
{
    let kind = source.text_at("type");
    if same(&kind, "base64") {
        let media_type = match source.str_at("media_type") {
            Some(m) => copy(m),
            None => copy("image/png"),
        };
        one_block(
            CanonicalContentBlock::Image {
                source: CanonicalImageSource::Base64 { media_type, data: source.text_at("data") },
            },
        )
    } else if same(&kind, "url") {
        one_block(
            CanonicalContentBlock::Image {
                source: CanonicalImageSource::Url { url: source.text_at("url") },
            },
        )
    } else {
        no_blocks()
    }
}

/// The blocks that one item of a content list holds.
pub fn parse_content_block(block: &Json) -> (r: Vec<CanonicalContentBlock>)
    ensures
        blocks(r@) == item_content(block@),
    decreases block@,
{
    let kind = block.text_at("type");
    if same(&kind, "text") {
        text_blocks(block.text_at("text"))
    } else if same(&kind, "image") {
        match block.get("source") {
            Some(src) => parse_image_source(src),
            None => no_blocks(),
        }
    } else if same(&kind, "tool_use") {
        let input = match block.get("input") {
            Some(i) => i.copy(),
            None => Json::object(),
        };
        one_block(
            CanonicalContentBlock::ToolUse {
                id: block.text_at("id"),
                name: block.text_at("name"),
                input,
            },
        )
    } else if same(&kind, "thinking") {
        match parse_some_text(block, "thinking") {
            Some(text) => one_block(CanonicalContentBlock::Reasoning { text }),
            None => no_blocks(),
        }
    } else if same(&kind, "tool_result") {
        let content = match block.get("content") {
            Some(Json::Str(s)) => text_blocks(s.clone()),
            Some(Json::Array(a)) => {
                proof {
                    let inner = block@->Object_0["content"@];
                    assert(inner == JsonView::Array(views(a@)));
                    assert(decreases_to!(block@ => inner));
                    assert(decreases_to!(inner => inner->Array_0));
                }
                parse_blocks(a)
            },
            _ => no_blocks(),
        };
        one_block(
            CanonicalContentBlock::ToolResult {
                tool_use_id: block.text_at("tool_use_id"),
                content,
            },
        )
    } else {
        no_blocks()
    }
}

/// The blocks that a content list holds.
fn parse_blocks(items: &Vec<Json>) -> (r: Vec<CanonicalContentBlock>)
    ensures
        blocks(r@) == items_content(views(items@)),
    decreases views(items@),
{
    let mut out = no_blocks();
    let mut i: usize = 0;
    let ghost all = views(items@);
    broadcast use {views_are, blocks_append};

    proof {
        take_ends(all);
    }
    while i < items.len()
        invariant
            i <= items@.len(),
            all == views(items@),
            blocks(out@) == items_content(all.take(i as int)),
        decreases items@.len() - i,
    {
        proof {
            take_step(all, i as int);
            assert(all[i as int] == items@[i as int]@);
            assert(decreases_to!(all => all[i as int]));
        }
        let mut more = parse_content_block(&items[i]);
        out.append(&mut more);
        i += 1;
    }
    out
}

/// The blocks that a content field holds.
pub fn parse_message_content(content: &Json) -> (r: Vec<CanonicalContentBlock>)
    ensures
        blocks(r@) == content_of(content@),
{
    match content {
        Json::Str(text) => text_blocks(text.clone()),
        Json::Array(a) => parse_blocks(a),
        _ => no_blocks(),
    }
}

/// The system's instructions that a `system` field holds, if any.
pub open spec fn system_of(system: JsonView) -> Option<Seq<BlockView>> {
    unless_empty(content_of(system))
}

/// The role that a role name stands for; the user's where it is unknown.
pub open spec fn role_named(name: Seq<char>) -> CanonicalRole {
    if name == "user"@ {
        CanonicalRole::User
    } else if name == "assistant"@ {
        CanonicalRole::Assistant
    } else {
        CanonicalRole::User
    }
}

/// The message that an item of `messages` holds.
pub open spec fn message_of(msg: JsonView) -> MessageView {
    MessageView {
        role: role_named(msg.text_at("role"@)),
        content: content_of(msg.at("content"@)),
    }
}

/// The messages that a list of items holds.
pub open spec fn messages_of(s: Seq<JsonView>) -> Seq<MessageView> {
    Seq::new(s.len(), |i: int| message_of(s[i]))
}

/// The tool that an entry of `tools` describes.
pub open spec fn tool_of(tool: JsonView) -> ToolView {
    ToolView {
        name: tool.text_at("name"@),
        description: tool.str_at("description"@),
        input_schema: match tool.get("input_schema"@) {
            Some(p) => p,
            None => JsonView::object(),
        },
    }
}

/// The tools that a list of entries describes.
pub open spec fn tools_of(s: Seq<JsonView>) -> Seq<ToolView> {
    Seq::new(s.len(), |i: int| tool_of(s[i]))
}

/// The request that a body holds.
pub open spec fn request_of(body: JsonView) -> Result<RequestView, ConvertError> {
    match body.str_at("model"@) {
        None => Err(ConvertError::MissingModel),
        Some(model) => Ok(
            RequestView {
                model,
                messages: messages_of(items_at(body, "messages"@)),
                system: system_of(body.at("system"@)),
                temperature: double_at(body, "temperature"@),
                top_p: double_at(body, "top_p"@),
                max_tokens: body.u64_at("max_tokens"@),
                stop_sequences: unless_empty(strings_among(items_at(body, "stop_sequences"@))),
                stream: body.bool_at("stream"@) == Some(true),
                tools: unless_empty(tools_of(items_at(body, "tools"@))),
                tool_choice: body.get("tool_choice"@),
                reasoning_effort: None,
                unmapped: Seq::empty(),
            },
        ),
    }
}

/// The system's instructions that a `system` field holds, if any.
pub fn parse_system(system: &Json) -> (r: Option<Vec<CanonicalContentBlock>>)
    ensures
        opt_blocks(r) == system_of(system@),
{
    broadcast use blocks_are;

    let out = parse_message_content(system);
    if out.len() == 0 {
        None
    } else {
        Some(out)
    }
}

/// The role that a role name stands for.
pub fn parse_anthropic_role(name: &str) -> (r: CanonicalRole)
    ensures
        r == role_named(name@),
{
    if same(name, "user") {
        CanonicalRole::User
    } else if same(name, "assistant") {
        CanonicalRole::Assistant
    } else {
        CanonicalRole::User
    }
}

/// The tools that a list of entries describes.
fn parse_tool_list(items: &Vec<Json>) -> (r: Vec<CanonicalTool>)
    ensures
        tool_views(r@) == tools_of(views(items@)),
{
    let mut out: Vec<CanonicalTool> = Vec::new();
    let mut i: usize = 0;
    broadcast use views_are;

    while i < items.len()
        invariant
            i <= items@.len(),
            out@.len() == i,
            forall|j: int| 0 <= j < i ==> #[trigger] out@[j]@ == tool_of(items@[j]@),
        decreases items@.len() - i,
    {
        let tool = &items[i];
        let description = match tool.str_at("description") {
            Some(d) => Some(copy(d)),
            None => None,
        };
        let input_schema = match tool.get("input_schema") {
            Some(p) => p.copy(),
            None => Json::object(),
        };
        out.push(CanonicalTool { name: tool.text_at("name"), description, input_schema });
        i += 1;
    }
    assert(tool_views(out@) =~= tools_of(views(items@)));
    out
}

/// The tools that a `tools` field holds, if any.
pub fn parse_tools(tools: &Json) -> (r: Option<Vec<CanonicalTool>>)
    ensures
        opt_tools(r) == match tools@.as_array() {
            Some(a) => unless_empty(tools_of(a)),
            None => None,
        },
{
    broadcast use views_are;

    match tools.as_array() {
        Some(a) => {
            let out = parse_tool_list(a);
            if out.len() == 0 {
                None
            } else {
                Some(out)
            }
        },
        None => None,
    }
}

/// The messages that a list of items holds.
fn parse_messages(items: &Vec<Json>) -> (r: Vec<CanonicalMessage>)
    ensures
        messages(r@) == messages_of(views(items@)),
{
    let mut out: Vec<CanonicalMessage> = Vec::new();
    let mut i: usize = 0;
    broadcast use views_are;

    while i < items.len()
        invariant
            i <= items@.len(),
            out@.len() == i,
            forall|j: int| 0 <= j < i ==> #[trigger] out@[j]@ == message_of(items@[j]@),
        decreases items@.len() - i,
    {
        let msg = &items[i];
        let name = msg.text_at("role");
        out.push(
            CanonicalMessage {
                role: parse_anthropic_role(&name),
                content: parse_message_content(&msg.at("content")),
            },
        );
        i += 1;
    }
    assert(messages(out@) =~= messages_of(views(items@)));
    out
}

/// Reads the body of a Messages request.
pub fn to_canonical_request(body: &Json) -> (r: Result<CanonicalRequest, ConvertError>)
    ensures
        match r {
            Ok(q) => request_of(body@) == Ok::<RequestView, ConvertError>(q@),
            Err(e) => request_of(body@) == Err::<RequestView, ConvertError>(e),
        },
{
    broadcast use views_are;

    let model = match body.str_at("model") {
        Some(m) => copy(m),
        None => return Err(ConvertError::MissingModel),
    };
    let none: Vec<Json> = Vec::new();
    assert(views(none@) =~= Seq::<JsonView>::empty());
    let items = match body.array_at("messages") {
        Some(a) => a,
        None => &none,
    };
    let stops = match body.array_at("stop_sequences") {
        Some(a) => parse_strings(a),
        None => parse_strings(&none),
    };
    let stop_sequences = if stops.len() == 0 {
        None
    } else {
        Some(stops)
    };
    let tools = match body.get("tools") {
        Some(t) => parse_tools(t),
        None => None,
    };
    assert(tools_of(Seq::empty()) =~= Seq::<ToolView>::empty());
    let stream = match body.bool_at("stream") {
        Some(b) => b,
        None => false,
    };
    let unmapped: Vec<String> = Vec::new();
    assert(texts(unmapped@) =~= Seq::<Seq<char>>::empty());
    Ok(
        CanonicalRequest {
            model,
            messages: parse_messages(items),
            system: parse_system(&body.at("system")),
            temperature: parse_double(body, "temperature"),
            top_p: parse_double(body, "top_p"),
            max_tokens: body.u64_at("max_tokens"),
            stop_sequences,
            stream,
            tools,
            tool_choice: body.get_copy("tool_choice"),
            reasoning_effort: None,
            unmapped,
        },
    )
}

/// An image source.
pub open spec fn anthropic_image(source: ImageView) -> JsonView {
    match source {
        ImageView::Base64 { media_type, data } => JsonView::object().with(
            "type"@,
            JsonView::Str("base64"@),
        ).with("media_type"@, JsonView::Str(media_type)).with("data"@, JsonView::Str(data)),
        ImageView::Url { url } => JsonView::object().with("type"@, JsonView::Str("url"@)).with(
            "url"@,
            JsonView::Str(url),
        ),
    }
}

/// A block as an item of a content list.
pub open spec fn anthropic_block(b: BlockView) -> JsonView
    decreases b,
{
    match b {
        BlockView::Text { text } => text_item(text),
        BlockView::Reasoning { text } => JsonView::object().with(
            "type"@,
            JsonView::Str("thinking"@),
        ).with("thinking"@, JsonView::Str(text)),
        BlockView::Image { source } => JsonView::object().with("type"@, JsonView::Str("image"@)).with(
            "source"@,
            anthropic_image(source),
        ),
        BlockView::ToolUse { id, name, input } => JsonView::object().with(
            "type"@,
            JsonView::Str("tool_use"@),
        ).with("id"@, JsonView::Str(id)).with("name"@, JsonView::Str(name)).with("input"@, input),
        BlockView::ToolResult { tool_use_id, content } => JsonView::object().with(
            "type"@,
            JsonView::Str("tool_result"@),
        ).with("tool_use_id"@, JsonView::Str(tool_use_id)).with(
            "content"@,
            content_field(anthropic_blocks(content)),
        ),
    }
}

/// Blocks as items of a content list.
pub open spec fn anthropic_blocks(s: Seq<BlockView>) -> Seq<JsonView>
    decreases s,
{
    Seq::new(
        s.len(),
        |i: int|
            if 0 <= i < s.len() {
                anthropic_block(s[i])
            } else {
                JsonView::Null
            },
    )
}

/// A message as an entry of `messages`.
pub open spec fn anthropic_message(m: MessageView) -> JsonView {
    JsonView::object().with(
        "role"@,
        JsonView::Str(
            if m.role == CanonicalRole::Assistant {
                "assistant"@
            } else {
                "user"@
            },
        ),
    ).with("content"@, content_field(anthropic_blocks(m.content)))
}

/// Messages as entries of `messages`.
pub open spec fn anthropic_messages(s: Seq<MessageView>) -> Seq<JsonView> {
    Seq::new(s.len(), |i: int| anthropic_message(s[i]))
}

/// The `system` field: the texts as one text, or the blocks where none is a text.
pub open spec fn anthropic_system(s: Seq<BlockView>) -> JsonView {
    if plain_texts(s).len() > 0 {
        JsonView::Str(joined(plain_texts(s), "\n\n"@))
    } else {
        JsonView::Array(anthropic_blocks(s))
    }
}

/// A tool as an entry of `tools`.
pub open spec fn anthropic_tool(t: ToolView) -> JsonView {
    JsonView::object().with("name"@, JsonView::Str(t.name)).with("input_schema"@, t.input_schema).with_some(
        "description"@,
        match t.description {
            Some(d) => Some(JsonView::Str(d)),
            None => None,
        },
    )
}

/// Tools as entries of `tools`.
pub open spec fn anthropic_tools(s: Seq<ToolView>) -> Seq<JsonView> {
    Seq::new(s.len(), |i: int| anthropic_tool(s[i]))
}

/// The body of a Messages request.
pub open spec fn anthropic_request(q: RequestView) -> JsonView {
    JsonView::object().with("model"@, JsonView::Str(q.model)).with(
        "messages"@,
        JsonView::Array(anthropic_messages(q.messages)),
    ).with_some(
        "system"@,
        match q.system {
            Some(s) => Some(anthropic_system(s)),
            None => None,
        },
    ).with(
        "max_tokens"@,
        JsonView::uint(
            match q.max_tokens {
                Some(n) => n,
                None => 4096,
            },
        ),
    ).with_some("temperature"@, double_json(q.temperature)).with_some(
        "top_p"@,
        double_json(q.top_p),
    ).with_some(
        "stop_sequences"@,
        match q.stop_sequences {
            Some(s) => Some(JsonView::strings(s)),
            None => None,
        },
    ).with_some(
        "stream"@,
        if q.stream {
            Some(JsonView::Bool(true))
        } else {
            None
        },
    ).with_some(
        "tools"@,
        match q.tools {
            Some(t) => Some(JsonView::Array(anthropic_tools(t))),
            None => None,
        },
    ).with_some("tool_choice"@, q.tool_choice)
}

/// An image source.
fn make_image_source(source: &CanonicalImageSource) -> (r: Json)
    ensures
        r@ == anthropic_image(source@),
{
    match source {
        CanonicalImageSource::Base64 { media_type, data } => Json::object().with(
            "type",
            Json::str("base64"),
        ).with("media_type", Json::str(media_type)).with("data", Json::str(data)),
        CanonicalImageSource::Url { url } => Json::object().with("type", Json::str("url")).with(
            "url",
            Json::str(url),
        ),
    }
}

/// A block as an item of a content list.
pub fn content_block_to_anthropic(block: &CanonicalContentBlock) -> (r: Json)
    ensures
        r@ == anthropic_block(block@),
    decreases block,
{
    match block {
        CanonicalContentBlock::Text { text } => Json::object().with("type", Json::str("text")).with(
            "text",
            Json::str(text),
        ),
        CanonicalContentBlock::Reasoning { text } => Json::object().with(
            "type",
            Json::str("thinking"),
        ).with("thinking", Json::str(text)),
        CanonicalContentBlock::Image { source } => Json::object().with(
            "type",
            Json::str("image"),
        ).with("source", make_image_source(source)),
        CanonicalContentBlock::ToolUse { id, name, input } => Json::object().with(
            "type",
            Json::str("tool_use"),
        ).with("id", Json::str(id)).with("name", Json::str(name)).with("input", input.copy()),
        CanonicalContentBlock::ToolResult { tool_use_id, content } => {
            let items = blocks_to_anthropic(content);
            Json::object().with("type", Json::str("tool_result")).with(
                "tool_use_id",
                Json::str(tool_use_id),
            ).with("content", make_content_field(items))
        },
    }
}

/// Blocks as items of a content list.
fn blocks_to_anthropic(s: &Vec<CanonicalContentBlock>) -> (r: Vec<Json>)
    ensures
        views(r@) == anthropic_blocks(blocks(s@)),
    decreases s,
{
    let mut out: Vec<Json> = Vec::new();
    let mut i: usize = 0;
    broadcast use {views_are, blocks_are};

    while i < s.len()
        invariant
            i <= s@.len(),
            out@.len() == i,
            forall|j: int| 0 <= j < i ==> #[trigger] out@[j]@ == anthropic_block(s@[j]@),
        decreases s@.len() - i,
    {
        out.push(content_block_to_anthropic(&s[i]));
        i += 1;
    }
    assert(views(out@) =~= anthropic_blocks(blocks(s@)));
    out
}

/// A message as an entry of `messages`.
pub fn message_to_anthropic(msg: &CanonicalMessage) -> (r: Json)
    ensures
        r@ == anthropic_message(msg@),
{
    let role = if msg.role == CanonicalRole::Assistant {
        "assistant"
    } else {
        "user"
    };
    let items = blocks_to_anthropic(&msg.content);
    Json::object().with("role", Json::str(role)).with("content", make_content_field(items))
}

/// Messages as entries of `messages`.
fn messages_to_anthropic(s: &Vec<CanonicalMessage>) -> (r: Vec<Json>)
    ensures
        views(r@) == anthropic_messages(messages(s@)),
{
    let mut out: Vec<Json> = Vec::new();
    let mut i: usize = 0;
    broadcast use views_are;

    while i < s.len()
        invariant
            i <= s@.len(),
            out@.len() == i,
            forall|j: int| 0 <= j < i ==> #[trigger] out@[j]@ == anthropic_message(s@[j]@),
        decreases s@.len() - i,
    {
        out.push(message_to_anthropic(&s[i]));
        i += 1;
    }
    assert(views(out@) =~= anthropic_messages(messages(s@)));
    out
}

/// Tools as entries of `tools`.
fn tools_to_anthropic(tools: &Vec<CanonicalTool>) -> (r: Vec<Json>)
    ensures
        views(r@) == anthropic_tools(tool_views(tools@)),
{
    let mut out: Vec<Json> = Vec::new();
    let mut i: usize = 0;
    broadcast use views_are;

    while i < tools.len()
        invariant
            i <= tools@.len(),
            out@.len() == i,
            forall|j: int| 0 <= j < i ==> #[trigger] out@[j]@ == anthropic_tool(tools@[j]@),
        decreases tools@.len() - i,
    {
        let t = &tools[i];
        let description = match &t.description {
            Some(d) => Some(Json::str(d)),
            None => None,
        };
        out.push(
            Json::object().with("name", Json::str(&t.name)).with(
                "input_schema",
                t.input_schema.copy(),
            ).with_some("description", description),
        );
        i += 1;
    }
    assert(views(out@) =~= anthropic_tools(tool_views(tools@)));
    out
}

/// Writes the body of a Messages request. It never fails.
pub fn from_canonical_request(canonical: &CanonicalRequest) -> (r: Result<Json, ConvertError>)
    ensures
        r is Ok,
        r->Ok_0@ == anthropic_request(canonical@),
{
    let system = match &canonical.system {
        Some(s) => {
            let parts = collect_texts(s);
            Some(
                if parts.len() > 0 {
                    Json::Str(join(&parts, "\n\n"))
                } else {
                    Json::Array(blocks_to_anthropic(s))
                },
            )
        },
        None => None,
    };
    let max_tokens: u64 = match canonical.max_tokens {
        Some(n) => n,
        None => 4096,
    };
    let stop = match &canonical.stop_sequences {
        Some(s) => Some(Json::strings(s)),
        None => None,
    };
    let stream = if canonical.stream {
        Some(Json::Bool(true))
    } else {
        None
    };
    let tools = match &canonical.tools {
        Some(t) => Some(Json::Array(tools_to_anthropic(t))),
        None => None,
    };
    let choice = match &canonical.tool_choice {
        Some(c) => Some(c.copy()),
        None => None,
    };
    Ok(
        Json::object().with("model", Json::str(&canonical.model)).with(
            "messages",
            Json::Array(messages_to_anthropic(&canonical.messages)),
        ).with_some("system", system).with("max_tokens", Json::uint(max_tokens)).with_some(
            "temperature",
            double_to_json(&canonical.temperature),
        ).with_some("top_p", double_to_json(&canonical.top_p)).with_some(
            "stop_sequences",
            stop,
        ).with_some("stream", stream).with_some("tools", tools).with_some("tool_choice", choice),
    )
}

/// The stop reason that a name stands for.
pub open spec fn stop_named(reason: JsonView) -> Option<CanonicalStopReason> {
    if reason.as_str() == Some("end_turn"@) {
        Some(CanonicalStopReason::EndTurn)
    } else if reason.as_str() == Some("max_tokens"@) {
        Some(CanonicalStopReason::MaxTokens)
    } else if reason.as_str() == Some("stop_sequence"@) {
        Some(CanonicalStopReason::StopSequence)
    } else if reason.as_str() == Some("tool_use"@) {
        Some(CanonicalStopReason::ToolUse)
    } else {
        None
    }
}

/// The name of a stop reason.
pub open spec fn stop_name(reason: CanonicalStopReason) -> Seq<char> {
    match reason {
        CanonicalStopReason::EndTurn => "end_turn"@,
        CanonicalStopReason::StopSequence => "stop_sequence"@,
        CanonicalStopReason::MaxTokens => "max_tokens"@,
        CanonicalStopReason::ToolUse => "tool_use"@,
    }
}

/// The token counts of a response.
pub open spec fn usage_of(body: JsonView) -> Option<CanonicalUsage> {
    match body.get("usage"@) {
        Some(u) => Some(
            CanonicalUsage {
                input_tokens: count_at(u, "input_tokens"@),
                output_tokens: count_at(u, "output_tokens"@),
                total_tokens: None,
            },
        ),
        None => None,
    }
}

/// The response that a body holds.
pub open spec fn response_of(body: JsonView) -> ResponseView {
    ResponseView {
        id: body.text_at("id"@),
        model: body.text_at("model"@),
        content: items_content(items_at(body, "content"@)),
        stop_reason: match body.get("stop_reason"@) {
            Some(reason) => stop_named(reason),
            None => None,
        },
        usage: usage_of(body),
    }
}

/// The body of a Messages response.
pub open spec fn anthropic_response(p: ResponseView) -> JsonView {
    JsonView::object().with("id"@, JsonView::Str(p.id)).with("model"@, JsonView::Str(p.model)).with(
        "content"@,
        JsonView::Array(anthropic_blocks(p.content)),
    ).with("type"@, JsonView::Str("message"@)).with_some(
        "stop_reason"@,
        match p.stop_reason {
            Some(reason) => Some(JsonView::Str(stop_name(reason))),
            None => None,
        },
    ).with_some(
        "usage"@,
        match p.usage {
            Some(u) => Some(
                JsonView::object().with("input_tokens"@, JsonView::uint(u.input_tokens)).with(
                    "output_tokens"@,
                    JsonView::uint(u.output_tokens),
                ),
            ),
            None => None,
        },
    )
}

/// The stop reason that a name stands for.
pub fn parse_stop_reason(reason: &Json) -> (r: Option<CanonicalStopReason>)
    ensures
        r == stop_named(reason@),
{
    let name = match reason.as_str() {
        Some(n) => n,
        None => return None,
    };
    if same(name, "end_turn") {
        Some(CanonicalStopReason::EndTurn)
    } else if same(name, "max_tokens") {
        Some(CanonicalStopReason::MaxTokens)
    } else if same(name, "stop_sequence") {
        Some(CanonicalStopReason::StopSequence)
    } else if same(name, "tool_use") {
        Some(CanonicalStopReason::ToolUse)
    } else {
        None
    }
}

/// Reads the body of a Messages response. It never fails.
pub fn to_canonical_response(body: &Json) -> (r: Result<CanonicalResponse, ConvertError>)
    ensures
        r is Ok,
        r->Ok_0@ == response_of(body@),
{
    let content = match body.array_at("content") {
        Some(a) => parse_blocks(a),
        None => no_blocks(),
    };
    let stop_reason = match body.get("stop_reason") {
        Some(reason) => parse_stop_reason(reason),
        None => None,
    };
    let usage = match body.get("usage") {
        Some(u) => Some(
            CanonicalUsage {
                input_tokens: parse_count(u, "input_tokens"),
                output_tokens: parse_count(u, "output_tokens"),
                total_tokens: None,
            },
        ),
        None => None,
    };
    Ok(
        CanonicalResponse {
            id: body.text_at("id"),
            model: body.text_at("model"),
            content,
            stop_reason,
            usage,
        },
    )
}

/// The name of a stop reason.
pub fn stop_reason_to_anthropic(reason: &CanonicalStopReason) -> (r: &'static str)
    ensures
        r@ == stop_name(*reason),
{
    match reason {
        CanonicalStopReason::EndTurn => "end_turn",
        CanonicalStopReason::StopSequence => "stop_sequence",
        CanonicalStopReason::MaxTokens => "max_tokens",
        CanonicalStopReason::ToolUse => "tool_use",
    }
}

/// Writes the body of a Messages response. It never fails.
pub fn from_canonical_response(canonical: &CanonicalResponse) -> (r: Result<Json, ConvertError>)
    ensures
        r is Ok,
        r->Ok_0@ == anthropic_response(canonical@),
{
    let stop_reason = match &canonical.stop_reason {
        Some(reason) => Some(Json::str(stop_reason_to_anthropic(reason))),
        None => None,
    };
    let usage = match &canonical.usage {
        Some(u) => Some(
            Json::object().with("input_tokens", Json::uint(u.input_tokens)).with(
                "output_tokens",
                Json::uint(u.output_tokens),
            ),
        ),
        None => None,
    };
    Ok(
        Json::object().with("id", Json::str(&canonical.id)).with(
            "model",
            Json::str(&canonical.model),
        ).with("content", Json::Array(blocks_to_anthropic(&canonical.content))).with(
            "type",
            Json::str("message"),
        ).with_some("stop_reason", stop_reason).with_some("usage", usage),
    )
}

} // verus!
