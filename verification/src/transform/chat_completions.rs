//! OpenAI Chat Completions requests and responses to and from the canonical form.
use crate::codec::{json_parse, json_text};
use crate::json::{opt_json, views, views_append, views_are, views_empty, views_push, Json, JsonView};
use crate::number::{Double, JsonNumber, NumberView};
use crate::seqs::{take_ends, take_step};
use crate::text::{
    cat3, chars_of, copy, find_char, first_index, first_index_facts, is_text, join, joined,
    opt_text, same, starts_with, text_of, texts,
};
use crate::transform::canonical::{
    blocks, blocks_append, blocks_are, blocks_push, messages, opt_double, opt_texts, opt_tools,
    tool_views, BlockView, CanonicalContentBlock, CanonicalImageSource, CanonicalMessage,
    CanonicalRequest, CanonicalResponse, CanonicalRole, CanonicalStopReason, CanonicalTool,
    CanonicalUsage, ConvertError, ImageView, MessageView, RequestView, ResponseView, ToolView,
};
use vstd::prelude::*;
use vstd::string::*;

verus! {

/// The media type and the data of a data URL.
pub open spec fn data_url(url: Seq<char>) -> Option<(Seq<char>, Seq<char>)> {
    if !"data:"@.is_prefix_of(url) {
        None
    } else {
        match first_index(url, ',') {
            None => None,
            Some(comma) => {
                let header = url.subrange("data:"@.len() as int, comma);
                let media_type = match first_index(header, ';') {
                    Some(semi) => header.take(semi),
                    None => header,
                };
                Some((media_type, url.skip(comma + 1)))
            },
        }
    }
}

/// The image that a URL denotes: the data itself for a data URL, else a reference.
pub open spec fn image_of_url(url: Seq<char>) -> BlockView {
    match data_url(url) {
        Some((media_type, data)) => BlockView::Image {
            source: ImageView::Base64 { media_type, data },
        },
        None => BlockView::Image { source: ImageView::Url { url } },
    }
}

/// A text as content: nothing for the empty text.
pub open spec fn text_content(text: Seq<char>) -> Seq<BlockView> {
    if text.len() == 0 {
        Seq::empty()
    } else {
        seq![BlockView::Text { text }]
    }
}

/// The content that one item of a `content` list holds.
pub open spec fn item_content(block: JsonView) -> Seq<BlockView> {
    if block.text_at("type"@) == "text"@ {
        text_content(block.text_at("text"@))
    } else if block.text_at("type"@) == "image_url"@ {
        match block.get("image_url"@) {
            Some(img) => seq![image_of_url(img.text_at("url"@))],
            None => Seq::empty(),
        }
    } else {
        Seq::empty()
    }
}

/// The content that a list of items holds.
pub open spec fn items_content(s: Seq<JsonView>) -> Seq<BlockView>
    decreases s.len(),
{
    if s.len() == 0 {
        Seq::empty()
    } else {
        items_content(s.drop_last()) + item_content(s.last())
    }
}

/// The content that a `content` field holds.
pub open spec fn content_of(content: JsonView) -> Seq<BlockView> {
    match content {
        JsonView::Str(text) => text_content(text),
        JsonView::Array(items) => items_content(items),
        _ => Seq::empty(),
    }
}

/// The content of a message.
pub open spec fn message_content(msg: JsonView) -> Seq<BlockView> {
    match msg.get("content"@) {
        Some(c) => content_of(c),
        None => Seq::empty(),
    }
}

/// A value written as text and read again, or the value where that cannot be read.
pub open spec fn reread(v: JsonView) -> JsonView {
    match json_parse(json_text(v)) {
        Some(x) => x,
        None => v,
    }
}

/// The arguments of a called function.
pub open spec fn call_arguments(func: JsonView) -> JsonView {
    match func.get("arguments"@) {
        Some(a) => a,
        None => JsonView::object(),
    }
}

/// The tool uses that the `tool_calls` of an assistant message of a request ask for.
pub open spec fn requested_calls(s: Seq<JsonView>) -> Seq<BlockView>
    decreases s.len(),
{
    if s.len() == 0 {
        Seq::empty()
    } else {
        let before = requested_calls(s.drop_last());
        match s.last().get("function"@) {
            Some(func) => before.push(
                BlockView::ToolUse {
                    id: s.last().text_at("id"@),
                    name: func.text_at("name"@),
                    input: reread(call_arguments(func)),
                },
            ),
            None => before,
        }
    }
}

/// The role that a role name stands for.
pub open spec fn role_named(name: Seq<char>) -> Option<CanonicalRole> {
    if name == "system"@ || name == "developer"@ {
        Some(CanonicalRole::System)
    } else if name == "user"@ {
        Some(CanonicalRole::User)
    } else if name == "assistant"@ {
        Some(CanonicalRole::Assistant)
    } else {
        None
    }
}

/// The message that an item of `messages` holds. A tool's answer counts as the user's.
pub open spec fn message_of(msg: JsonView) -> Option<MessageView> {
    match msg.str_at("role"@) {
        None => None,
        Some(name) => if name == "tool"@ {
            Some(
                MessageView {
                    role: CanonicalRole::User,
                    content: seq![
                        BlockView::ToolResult {
                            tool_use_id: msg.text_at("tool_call_id"@),
                            content: message_content(msg),
                        },
                    ],
                },
            )
        } else {
            match role_named(name) {
                None => None,
                Some(role) => {
                    let calls = match msg.array_at("tool_calls"@) {
                        Some(a) => if role == CanonicalRole::Assistant {
                            requested_calls(a)
                        } else {
                            Seq::empty()
                        },
                        None => Seq::empty(),
                    };
                    Some(MessageView { role, content: message_content(msg) + calls })
                },
            }
        },
    }
}

/// Whether an item of `messages` holds instructions of the system.
pub open spec fn is_system(msg: JsonView) -> bool {
    msg.text_at("role"@) == "system"@ || msg.text_at("role"@) == "developer"@
}

/// The instructions of the system among the messages.
pub open spec fn system_content(s: Seq<JsonView>) -> Seq<BlockView>
    decreases s.len(),
{
    if s.len() == 0 {
        Seq::empty()
    } else if is_system(s.last()) {
        system_content(s.drop_last()) + message_content(s.last())
    } else {
        system_content(s.drop_last())
    }
}

/// The messages that are no instructions of the system.
pub open spec fn dialogue(s: Seq<JsonView>) -> Seq<MessageView>
    decreases s.len(),
{
    if s.len() == 0 {
        Seq::empty()
    } else {
        let before = dialogue(s.drop_last());
        if is_system(s.last()) {
            before
        } else {
            match message_of(s.last()) {
                Some(m) => before.push(m),
                None => before,
            }
        }
    }
}

/// Whether an item of `tools` is a function.
pub open spec fn is_function(tool: JsonView) -> bool {
    tool.text_at("type"@) == "function"@
}

/// Whether an item of `tools` claims to be a function and describes none.
pub open spec fn lacks_function(tool: JsonView) -> bool {
    is_function(tool) && tool.get("function"@) is None
}

/// The tool that a function description holds.
pub open spec fn tool_of(func: JsonView) -> ToolView {
    ToolView {
        name: func.text_at("name"@),
        description: func.str_at("description"@),
        input_schema: match func.get("parameters"@) {
            Some(p) => p,
            None => JsonView::object(),
        },
    }
}

/// The functions among the items of `tools`.
pub open spec fn functions(s: Seq<JsonView>) -> Seq<ToolView>
    decreases s.len(),
{
    if s.len() == 0 {
        Seq::empty()
    } else if is_function(s.last()) {
        functions(s.drop_last()).push(tool_of(s.last().at("function"@)))
    } else {
        functions(s.drop_last())
    }
}

/// The tools that a `tools` field holds, where it is a list of well-formed tools that holds a
/// function.
pub open spec fn tools_of(v: JsonView) -> Option<Seq<ToolView>> {
    match v.as_array() {
        None => None,
        Some(a) => if (exists|i: int| 0 <= i < a.len() && lacks_function(#[trigger] a[i])) || functions(a).len()
            == 0 {
            None
        } else {
            Some(functions(a))
        },
    }
}

/// The strings among the items.
pub open spec fn strings_among(s: Seq<JsonView>) -> Seq<Seq<char>>
    decreases s.len(),
{
    if s.len() == 0 {
        Seq::empty()
    } else {
        match s.last().as_str() {
            Some(t) => strings_among(s.drop_last()).push(t),
            None => strings_among(s.drop_last()),
        }
    }
}

/// The stop sequences that a `stop` field holds: a text or a list of texts.
pub open spec fn stops_of(v: JsonView) -> Option<Seq<Seq<char>>> {
    match v {
        JsonView::Str(s) => if s.len() == 0 {
            None
        } else {
            Some(seq![s])
        },
        JsonView::Array(a) => if strings_among(a).len() == 0 {
            None
        } else {
            Some(strings_among(a))
        },
        _ => None,
    }
}

/// The reasoning effort that a request asks for.
pub open spec fn effort_of(body: JsonView) -> Option<Seq<char>> {
    match body.str_at("reasoning_effort"@) {
        Some(e) => Some(e),
        None => match body.get("reasoning"@) {
            Some(r) => r.str_at("effort"@),
            None => None,
        },
    }
}

/// The double under `key`.
pub open spec fn double_at(body: JsonView, key: Seq<char>) -> Option<Seq<char>> {
    match body.get(key) {
        Some(JsonView::Number(n)) => Some(n.double()),
        _ => None,
    }
}

/// A list, or nothing where it is empty.
pub open spec fn unless_empty<A>(s: Seq<A>) -> Option<Seq<A>> {
    if s.len() == 0 {
        None
    } else {
        Some(s)
    }
}

/// The items of the field `key`, none where it is no list.
pub open spec fn items_at(body: JsonView, key: Seq<char>) -> Seq<JsonView> {
    match body.array_at(key) {
        Some(a) => a,
        None => Seq::empty(),
    }
}

/// The request that a body holds.
pub open spec fn request_of(body: JsonView) -> Result<RequestView, ConvertError> {
    match body.str_at("model"@) {
        None => Err(ConvertError::MissingModel),
        Some(model) => Ok(
            RequestView {
                model,
                messages: dialogue(items_at(body, "messages"@)),
                system: unless_empty(system_content(items_at(body, "messages"@))),
                temperature: double_at(body, "temperature"@),
                top_p: double_at(body, "top_p"@),
                max_tokens: match body.u64_at("max_tokens"@) {
                    Some(n) => Some(n),
                    None => body.u64_at("max_completion_tokens"@),
                },
                stop_sequences: match body.get("stop"@) {
                    Some(s) => stops_of(s),
                    None => None,
                },
                stream: body.bool_at("stream"@) == Some(true),
                tools: match body.get("tools"@) {
                    Some(t) => tools_of(t),
                    None => None,
                },
                tool_choice: body.get("tool_choice"@),
                reasoning_effort: effort_of(body),
                unmapped: Seq::empty(),
            },
        ),
    }
}

/// Reads `data:<media type>[;<parameters>],<data>`.
pub fn parse_data_url(url: &str) -> (r: Option<(String, String)>)
    ensures
        match r {
            Some((m, d)) => data_url(url@) == Some((m@, d@)),
            None => data_url(url@) is None,
        },
{
    if !starts_with(url, "data:") {
        return None;
    }
    let c = chars_of(url);
    match find_char(&c, ',') {
        None => None,
        Some(comma) => {
            proof {
                reveal_strlit("data:");
                first_index_facts(url@, ',');
                assert forall|j: int| 0 <= j < 5 implies #[trigger] url@[j] != ',' by {
                    assert(url@[j] == "data:"@[j]);
                }
                assert(comma >= 5) by {
                    if comma < 5 {
                        assert(url@[comma as int] != ',');
                    }
                }
            }
            let header = text_of(&c, 5, comma);
            let data = text_of(&c, comma + 1, c.len());
            assert(data@ =~= url@.skip(comma + 1));
            let h = chars_of(&header);
            let media_type = match find_char(&h, ';') {
                Some(semi) => {
                    let m = text_of(&h, 0, semi);
                    assert(m@ =~= header@.take(semi as int));
                    m
                },
                None => header,
            };
            Some((media_type, data))
        },
    }
}

/// The image that a URL denotes.
pub fn parse_image_url(url: &str) -> (r: CanonicalContentBlock)
    ensures
        r@ == image_of_url(url@),
{
    match parse_data_url(url) {
        Some((media_type, data)) => CanonicalContentBlock::Image {
            source: CanonicalImageSource::Base64 { media_type, data },
        },
        None => CanonicalContentBlock::Image {
            source: CanonicalImageSource::Url { url: copy(url) },
        },
    }
}

/// A list of one block.
pub fn one_block(b: CanonicalContentBlock) -> (r: Vec<CanonicalContentBlock>)
    ensures
        blocks(r@) == seq![b@],
        r@.len() == 1,
{
    let ghost x = b@;
    let mut v: Vec<CanonicalContentBlock> = Vec::new();
    v.push(b);
    broadcast use blocks_are;

    assert(blocks(v@) =~= seq![x]);
    v
}

/// A list of no blocks.
pub fn no_blocks() -> (r: Vec<CanonicalContentBlock>)
    ensures
        blocks(r@) == Seq::<BlockView>::empty(),
        r@.len() == 0,
{
    let v: Vec<CanonicalContentBlock> = Vec::new();
    broadcast use blocks_are;

    assert(blocks(v@) =~= Seq::<BlockView>::empty());
    v
}

/// A text as content: nothing for the empty text.
pub fn text_blocks(text: String) -> (r: Vec<CanonicalContentBlock>)
    ensures
        blocks(r@) == text_content(text@),
{
    if text.as_str().is_empty() {
        no_blocks()
    } else {
        one_block(CanonicalContentBlock::Text { text })
    }
}

/// The content that one item of a `content` list holds.
pub fn parse_content_block(block: &Json) -> (r: Vec<CanonicalContentBlock>)
    ensures
        blocks(r@) == item_content(block@),
{
    let kind = block.text_at("type");
    if same(&kind, "text") {
        text_blocks(block.text_at("text"))
    } else if same(&kind, "image_url") {
        match block.get("image_url") {
            Some(img) => {
                let url = img.text_at("url");
                one_block(parse_image_url(&url))
            },
            None => no_blocks(),
        }
    } else {
        no_blocks()
    }
}

/// The content that a `content` field holds.
pub fn parse_content_blocks(content: &Json) -> (r: Vec<CanonicalContentBlock>)
    ensures
        blocks(r@) == content_of(content@),
{
    match content {
        Json::Str(text) => text_blocks(text.clone()),
        Json::Array(items) => {
            let mut result = no_blocks();
            let mut i: usize = 0;
            let ghost all = views(items@);
            broadcast use {views_are, blocks_append};

            proof {
                take_ends(all);
            }
            while i < items.len()
                invariant
                    i <= items@.len(),
                    all == views(items@),
                    blocks(result@) == items_content(all.take(i as int)),
                decreases items@.len() - i,
            {
                proof {
                    take_step(all, i as int);
                }
                let mut more = parse_content_block(&items[i]);
                result.append(&mut more);
                i += 1;
            }
            result
        },
        _ => no_blocks(),
    }
}

/// A value written as text and read again, or the value where that cannot be read.
fn read_again(v: Json) -> (r: Json)
    ensures
        r@ == reread(v@),
{
    let text = v.text();
    match Json::parse(&text) {
        Some(x) => x,
        None => v,
    }
}

/// The tool uses that the `tool_calls` of an assistant message of a request ask for.
fn parse_requested_calls(calls: &Vec<Json>) -> (r: Vec<CanonicalContentBlock>)
    ensures
        blocks(r@) == requested_calls(views(calls@)),
{
    let mut out = no_blocks();
    let mut i: usize = 0;
    let ghost all = views(calls@);
    broadcast use {views_are, blocks_push};

    proof {
        take_ends(all);
    }
    while i < calls.len()
        invariant
            i <= calls@.len(),
            all == views(calls@),
            blocks(out@) == requested_calls(all.take(i as int)),
        decreases calls@.len() - i,
    {
        proof {
            take_step(all, i as int);
        }
        let call = &calls[i];
        if let Some(func) = call.get("function") {
            let id = call.text_at("id");
            let name = func.text_at("name");
            let arguments = match func.get("arguments") {
                Some(a) => a.copy(),
                None => Json::object(),
            };
            out.push(CanonicalContentBlock::ToolUse { id, name, input: read_again(arguments) });
        }
        i += 1;
    }
    out
}

/// The content of a message.
fn parse_message_content(msg: &Json) -> (r: Vec<CanonicalContentBlock>)
    ensures
        blocks(r@) == message_content(msg@),
{
    match msg.get("content") {
        Some(c) => parse_content_blocks(c),
        None => no_blocks(),
    }
}

/// The role that a role name stands for.
fn parse_role(name: &str) -> (r: Option<CanonicalRole>)
    ensures
        r == role_named(name@),
{
    if same(name, "system") || same(name, "developer") {
        Some(CanonicalRole::System)
    } else if same(name, "user") {
        Some(CanonicalRole::User)
    } else if same(name, "assistant") {
        Some(CanonicalRole::Assistant)
    } else {
        None
    }
}

/// The message that an item of `messages` holds.
pub fn parse_message(msg: &Json) -> (r: Option<CanonicalMessage>)
    ensures
        match r {
            Some(m) => message_of(msg@) == Some(m@),
            None => message_of(msg@) is None,
        },
{
    let name = match msg.str_at("role") {
        Some(n) => n,
        None => return None,
    };
    if same(name, "tool") {
        let content = parse_message_content(msg);
        let result = CanonicalContentBlock::ToolResult {
            tool_use_id: msg.text_at("tool_call_id"),
            content,
        };
        return Some(CanonicalMessage { role: CanonicalRole::User, content: one_block(result) });
    }
    let role = match parse_role(name) {
        Some(r) => r,
        None => return None,
    };
    let mut content = parse_message_content(msg);
    let ghost before = blocks(content@);
    assert(before + Seq::<BlockView>::empty() =~= before);
    if role == CanonicalRole::Assistant {
        if let Some(calls) = msg.array_at("tool_calls") {
            broadcast use blocks_append;

            let mut uses = parse_requested_calls(calls);
            content.append(&mut uses);
        }
    }
    Some(CanonicalMessage { role, content })
}

/// The tools that a `tools` field holds.
pub fn parse_tools(tools: &Json) -> (r: Option<Vec<CanonicalTool>>)
    ensures
        opt_tools(r) == tools_of(tools@),
{
    let items = match tools.as_array() {
        Some(a) => a,
        None => return None,
    };
    let mut result: Vec<CanonicalTool> = Vec::new();
    let mut i: usize = 0;
    let ghost all = views(items@);
    broadcast use views_are;

    proof {
        take_ends(all);
        assert(tool_views(result@) =~= functions(all.take(0)));
    }
    while i < items.len()
        invariant
            i <= items@.len(),
            all == views(items@),
            tools@.as_array() == Some(all),
            tool_views(result@) == functions(all.take(i as int)),
            forall|j: int| 0 <= j < i ==> !lacks_function(#[trigger] all[j]),
        decreases items@.len() - i,
    {
        proof {
            take_step(all, i as int);
        }
        let tool = &items[i];
        let kind = tool.text_at("type");
        if same(&kind, "function") {
            let func = match tool.get("function") {
                Some(f) => f,
                None => {
                    assert(lacks_function(all[i as int]));
                    return None;
                },
            };
            let description = match func.str_at("description") {
                Some(d) => Some(copy(d)),
                None => None,
            };
            let input_schema = match func.get("parameters") {
                Some(p) => p.copy(),
                None => Json::object(),
            };
            let ghost before = result@;
            let t = CanonicalTool { name: func.text_at("name"), description, input_schema };
            assert(t@ == tool_of(func@));
            result.push(t);
            assert(tool_views(result@) =~= tool_views(before).push(t@));
        }
        i += 1;
    }
    proof {
        take_ends(all);
    }
    if result.len() == 0 {
        None
    } else {
        Some(result)
    }
}

/// The strings among the items.
pub fn parse_strings(items: &Vec<Json>) -> (r: Vec<String>)
    ensures
        texts(r@) == strings_among(views(items@)),
{
    let mut out: Vec<String> = Vec::new();
    let mut i: usize = 0;
    let ghost all = views(items@);
    broadcast use views_are;

    proof {
        take_ends(all);
        assert(texts(out@) =~= strings_among(all.take(0)));
    }
    while i < items.len()
        invariant
            i <= items@.len(),
            all == views(items@),
            texts(out@) == strings_among(all.take(i as int)),
        decreases items@.len() - i,
    {
        proof {
            take_step(all, i as int);
        }
        if let Some(t) = items[i].as_str() {
            let ghost before = out@;
            let c = copy(t);
            out.push(c);
            assert(texts(out@) =~= texts(before).push(t@));
        }
        i += 1;
    }
    proof {
        take_ends(all);
    }
    out
}

/// The stop sequences that a `stop` field holds.
pub fn parse_stop(stop: &Json) -> (r: Option<Vec<String>>)
    ensures
        opt_texts(r) == stops_of(stop@),
{
    match stop {
        Json::Str(s) => if s.as_str().is_empty() {
            None
        } else {
            let mut v: Vec<String> = Vec::new();
            v.push(s.clone());
            assert(texts(v@) =~= seq![s@]);
            Some(v)
        },
        Json::Array(a) => {
            let v = parse_strings(a);
            if v.len() == 0 {
                None
            } else {
                Some(v)
            }
        },
        _ => None,
    }
}

/// The reasoning effort that a request asks for.
pub fn parse_reasoning_effort(body: &Json) -> (r: Option<String>)
    ensures
        opt_text(r) == effort_of(body@),
{
    match body.str_at("reasoning_effort") {
        Some(e) => Some(copy(e)),
        None => match body.get("reasoning") {
            Some(r) => match r.str_at("effort") {
                Some(e) => Some(copy(e)),
                None => None,
            },
            None => None,
        },
    }
}

/// The double under `key`.
pub fn parse_double(body: &Json, key: &str) -> (r: Option<Double>)
    ensures
        opt_double(r) == double_at(body@, key@),
{
    match body.get(key) {
        Some(Json::Number(n)) => Some(n.as_double()),
        _ => None,
    }
}

/// The system's instructions and the dialogue that a list of messages holds.
fn parse_messages(items: &Vec<Json>) -> (r: (Vec<CanonicalContentBlock>, Vec<CanonicalMessage>))
    ensures
        blocks(r.0@) == system_content(views(items@)),
        messages(r.1@) == dialogue(views(items@)),
{
    let mut system = no_blocks();
    let mut out: Vec<CanonicalMessage> = Vec::new();
    let mut i: usize = 0;
    let ghost all = views(items@);
    broadcast use {views_are, blocks_append};

    proof {
        take_ends(all);
        assert(messages(out@) =~= dialogue(all.take(0)));
    }
    while i < items.len()
        invariant
            i <= items@.len(),
            all == views(items@),
            blocks(system@) == system_content(all.take(i as int)),
            messages(out@) == dialogue(all.take(i as int)),
        decreases items@.len() - i,
    {
        proof {
            take_step(all, i as int);
        }
        let msg = &items[i];
        let role = msg.text_at("role");
        if same(&role, "system") || same(&role, "developer") {
            let mut more = parse_message_content(msg);
            system.append(&mut more);
        } else if let Some(m) = parse_message(msg) {
            let ghost before = out@;
            out.push(m);
            assert(messages(out@) =~= messages(before).push(m@));
        }
        i += 1;
    }
    proof {
        take_ends(all);
    }
    (system, out)
}

/// Reads the body of a Chat Completions request.
pub fn to_canonical_request(body: &Json) -> (r: Result<CanonicalRequest, ConvertError>)
    ensures
        match r {
            Ok(q) => request_of(body@) == Ok::<RequestView, ConvertError>(q@),
            Err(e) => request_of(body@) == Err::<RequestView, ConvertError>(e),
        },
{
    let model = match body.str_at("model") {
        Some(m) => copy(m),
        None => return Err(ConvertError::MissingModel),
    };
    let none: Vec<Json> = Vec::new();
    let items = match body.array_at("messages") {
        Some(a) => a,
        None => &none,
    };
    proof {
        views_empty();
        assert(none@ =~= Seq::<Json>::empty());
    }
    let (system_blocks, out) = parse_messages(items);
    let system = if system_blocks.len() == 0 {
        None
    } else {
        Some(system_blocks)
    };
    broadcast use blocks_are;

    let max_tokens = match body.u64_at("max_tokens") {
        Some(n) => Some(n),
        None => body.u64_at("max_completion_tokens"),
    };
    let stop_sequences = match body.get("stop") {
        Some(s) => parse_stop(s),
        None => None,
    };
    let stream = match body.bool_at("stream") {
        Some(b) => b,
        None => false,
    };
    let tools = match body.get("tools") {
        Some(t) => parse_tools(t),
        None => None,
    };
    let unmapped: Vec<String> = Vec::new();
    assert(texts(unmapped@) =~= Seq::<Seq<char>>::empty());
    Ok(
        CanonicalRequest {
            model,
            messages: out,
            system,
            temperature: parse_double(body, "temperature"),
            top_p: parse_double(body, "top_p"),
            max_tokens,
            stop_sequences,
            stream,
            tools,
            tool_choice: body.get_copy("tool_choice"),
            reasoning_effort: parse_reasoning_effort(body),
            unmapped,
        },
    )
}

/// Reasoning marked as such in a text.
pub open spec fn thought(text: Seq<char>) -> Seq<char> {
    "<think>\n"@ + text + "\n</think>"@
}

/// The URL of an image; data goes into a data URL.
pub open spec fn url_of_image(source: ImageView) -> Seq<char> {
    match source {
        ImageView::Base64 { media_type, data } => "data:"@ + media_type + ";base64,"@ + data,
        ImageView::Url { url } => url,
    }
}

/// A function call with its arguments as JSON text.
pub open spec fn function_call(name: Seq<char>, input: JsonView) -> JsonView {
    JsonView::object().with("name"@, JsonView::Str(name)).with(
        "arguments"@,
        JsonView::Str(json_text(input)),
    )
}

/// A block as an item of a `content` list.
pub open spec fn openai_block(b: BlockView) -> JsonView {
    match b {
        BlockView::Text { text } => text_item(text),
        BlockView::Reasoning { text } => text_item(thought(text)),
        BlockView::Image { source } => JsonView::object().with(
            "type"@,
            JsonView::Str("image_url"@),
        ).with(
            "image_url"@,
            JsonView::object().with("url"@, JsonView::Str(url_of_image(source))),
        ),
        BlockView::ToolUse { id, name, input } => JsonView::object().with(
            "type"@,
            JsonView::Str("tool_call"@),
        ).with("id"@, JsonView::Str(id)).with("function"@, function_call(name, input)),
        BlockView::ToolResult { tool_use_id, content } => text_item(Seq::empty()),
    }
}

/// A text item of a `content` list.
pub open spec fn text_item(text: Seq<char>) -> JsonView {
    JsonView::object().with("type"@, JsonView::Str("text"@)).with("text"@, JsonView::Str(text))
}

/// Blocks as items of a `content` list.
pub open spec fn openai_blocks(s: Seq<BlockView>) -> Seq<JsonView> {
    Seq::new(s.len(), |i: int| openai_block(s[i]))
}

/// The entries of `tool_calls` for the tool uses among the blocks.
pub open spec fn openai_calls(s: Seq<BlockView>) -> Seq<JsonView>
    decreases s.len(),
{
    if s.len() == 0 {
        Seq::empty()
    } else {
        let before = openai_calls(s.drop_last());
        match s.last() {
            BlockView::ToolUse { id, name, input } => before.push(
                JsonView::object().with("id"@, JsonView::Str(id)).with(
                    "type"@,
                    JsonView::Str("function"@),
                ).with("function"@, function_call(name, input)),
            ),
            _ => before,
        }
    }
}

/// The blocks that are no tool uses, as items of a `content` list.
pub open spec fn openai_content(s: Seq<BlockView>) -> Seq<JsonView>
    decreases s.len(),
{
    if s.len() == 0 {
        Seq::empty()
    } else if s.last() is ToolUse {
        openai_content(s.drop_last())
    } else {
        openai_content(s.drop_last()).push(openai_block(s.last()))
    }
}

/// A list of items as a `content` field: a lone text as a string.
pub open spec fn content_field(items: Seq<JsonView>) -> JsonView {
    if items.len() == 1 && items[0].str_at("type"@) == Some("text"@) {
        items[0].at("text"@)
    } else {
        JsonView::Array(items)
    }
}

/// The message for one block of a message that holds tool results.
pub open spec fn result_message(b: BlockView) -> JsonView {
    match b {
        BlockView::ToolResult { tool_use_id, content } => JsonView::object().with(
            "role"@,
            JsonView::Str("tool"@),
        ).with(
            "content"@,
            if content.len() == 1 {
                openai_block(content[0]).at("text"@)
            } else {
                JsonView::Array(openai_blocks(content))
            },
        ).with("tool_call_id"@, JsonView::Str(tool_use_id)),
        _ => JsonView::object().with("role"@, JsonView::Str("user"@)).with(
            "content"@,
            openai_block(b),
        ),
    }
}

/// Whether a tool result is among the blocks.
pub open spec fn has_results(s: Seq<BlockView>) -> bool {
    exists|i: int| 0 <= i < s.len() && #[trigger] s[i] is ToolResult
}

/// The messages for the blocks of a message that holds tool results.
pub open spec fn result_messages(s: Seq<BlockView>) -> Seq<JsonView> {
    Seq::new(s.len(), |i: int| result_message(s[i]))
}

/// The message of an assistant.
pub open spec fn assistant_message(content: Seq<BlockView>) -> JsonView {
    let base = JsonView::object().with("role"@, JsonView::Str("assistant"@));
    let calls = openai_calls(content);
    let items = openai_content(content);
    let called = if calls.len() > 0 {
        base.with("tool_calls"@, JsonView::Array(calls))
    } else {
        base
    };
    if items.len() > 0 {
        called.with("content"@, content_field(items))
    } else {
        called
    }
}

/// The message of a user.
pub open spec fn user_message(content: Seq<BlockView>) -> JsonView {
    JsonView::object().with("role"@, JsonView::Str("user"@)).with(
        "content"@,
        if content.len() == 0 {
            JsonView::Str(""@)
        } else {
            content_field(openai_blocks(content))
        },
    )
}

/// What a message is written as: nothing for the system's, a list of messages where tool
/// results stand beside other blocks, else one message.
pub open spec fn openai_message(m: MessageView) -> Option<JsonView> {
    if m.role == CanonicalRole::System {
        None
    } else if has_results(m.content) {
        Some(
            if m.content.len() == 1 {
                result_message(m.content[0])
            } else {
                JsonView::Array(result_messages(m.content))
            },
        )
    } else if m.role == CanonicalRole::Assistant {
        Some(assistant_message(m.content))
    } else {
        Some(user_message(m.content))
    }
}

/// The entries of `messages` for a dialogue.
pub open spec fn openai_dialogue(s: Seq<MessageView>) -> Seq<JsonView>
    decreases s.len(),
{
    if s.len() == 0 {
        Seq::empty()
    } else {
        let before = openai_dialogue(s.drop_last());
        match openai_message(s.last()) {
            None => before,
            Some(JsonView::Array(a)) => before + a,
            Some(v) => before.push(v),
        }
    }
}

/// The texts of the text blocks.
pub open spec fn plain_texts(s: Seq<BlockView>) -> Seq<Seq<char>>
    decreases s.len(),
{
    if s.len() == 0 {
        Seq::empty()
    } else {
        match s.last() {
            BlockView::Text { text } => plain_texts(s.drop_last()).push(text),
            _ => plain_texts(s.drop_last()),
        }
    }
}

/// The entry of `messages` for the system's instructions.
pub open spec fn openai_system(system: Option<Seq<BlockView>>) -> Seq<JsonView> {
    match system {
        Some(s) => if plain_texts(s).len() == 0 {
            Seq::empty()
        } else {
            seq![
                JsonView::object().with("role"@, JsonView::Str("system"@)).with(
                    "content"@,
                    JsonView::Str(joined(plain_texts(s), "\n\n"@)),
                ),
            ]
        },
        None => Seq::empty(),
    }
}

/// An optional text, null where there is none.
pub open spec fn text_or_null(s: Option<Seq<char>>) -> JsonView {
    match s {
        Some(t) => JsonView::Str(t),
        None => JsonView::Null,
    }
}

/// A tool as an entry of `tools`.
pub open spec fn openai_tool(t: ToolView) -> JsonView {
    JsonView::object().with("type"@, JsonView::Str("function"@)).with(
        "function"@,
        JsonView::object().with("name"@, JsonView::Str(t.name)).with(
            "description"@,
            text_or_null(t.description),
        ).with("parameters"@, t.input_schema),
    )
}

/// Tools as entries of `tools`.
pub open spec fn openai_tools(s: Seq<ToolView>) -> Seq<JsonView> {
    Seq::new(s.len(), |i: int| openai_tool(s[i]))
}

/// The body of a Chat Completions request.
pub open spec fn openai_request(q: RequestView) -> JsonView {
    JsonView::object().with("model"@, JsonView::Str(q.model)).with(
        "messages"@,
        JsonView::Array(openai_system(q.system) + openai_dialogue(q.messages)),
    ).with_some("temperature"@, double_json(q.temperature)).with_some(
        "top_p"@,
        double_json(q.top_p),
    ).with_some(
        "max_tokens"@,
        match q.max_tokens {
            Some(n) => Some(JsonView::uint(n)),
            None => None,
        },
    ).with_some(
        "stop"@,
        match q.stop_sequences {
            Some(s) => Some(
                if s.len() == 1 {
                    JsonView::Str(s[0])
                } else {
                    JsonView::strings(s)
                },
            ),
            None => None,
        },
    ).with_some(
        "stream"@,
        if q.stream {
            Some(JsonView::Bool(true))
        } else {
            None
        },
    ).with_some(
        "tools"@,
        match q.tools {
            Some(t) => Some(JsonView::Array(openai_tools(t))),
            None => None,
        },
    ).with_some("tool_choice"@, q.tool_choice).with_some(
        "reasoning_effort"@,
        match q.reasoning_effort {
            Some(e) => Some(JsonView::Str(e)),
            None => None,
        },
    )
}

/// An optional double as a number.
pub open spec fn double_json(d: Option<Seq<char>>) -> Option<JsonView> {
    match d {
        Some(t) => Some(JsonView::Number(NumberView::Float(t))),
        None => None,
    }
}

/// A text item of a `content` list.
fn make_text_item(text: &str) -> (r: Json)
    ensures
        r@ == text_item(text@),
{
    Json::object().with("type", Json::str("text")).with("text", Json::str(text))
}

/// Reasoning marked as such in a text.
pub fn mark_thought(text: &str) -> (r: String)
    ensures
        r@ == thought(text@),
{
    cat3("<think>\n", text, "\n</think>")
}

/// The URL of an image; data goes into a data URL.
pub fn image_url(source: &CanonicalImageSource) -> (r: String)
    ensures
        r@ == url_of_image(source@),
{
    match source {
        CanonicalImageSource::Base64 { media_type, data } => {
            let mut s = cat3("data:", media_type, ";base64,");
            s.append(data);
            s
        },
        CanonicalImageSource::Url { url } => url.clone(),
    }
}

/// A function call with its arguments as JSON text.
fn make_function_call(name: &str, input: &Json) -> (r: Json)
    ensures
        r@ == function_call(name@, input@),
{
    Json::object().with("name", Json::str(name)).with("arguments", Json::Str(input.text()))
}

/// A block as an item of a `content` list.
pub fn content_block_to_openai(block: &CanonicalContentBlock) -> (r: Json)
    ensures
        r@ == openai_block(block@),
{
    match block {
        CanonicalContentBlock::Text { text } => make_text_item(text),
        CanonicalContentBlock::Reasoning { text } => {
            let t = mark_thought(text);
            make_text_item(&t)
        },
        CanonicalContentBlock::Image { source } => {
            let url = image_url(source);
            Json::object().with("type", Json::str("image_url")).with(
                "image_url",
                Json::object().with("url", Json::Str(url)),
            )
        },
        CanonicalContentBlock::ToolUse { id, name, input } => Json::object().with(
            "type",
            Json::str("tool_call"),
        ).with("id", Json::str(id)).with("function", make_function_call(name, input)),
        CanonicalContentBlock::ToolResult { tool_use_id, content } => {
            let empty = String::new();
            make_text_item(&empty)
        },
    }
}

/// Blocks as items of a `content` list.
fn blocks_to_openai(s: &Vec<CanonicalContentBlock>) -> (r: Vec<Json>)
    ensures
        views(r@) == openai_blocks(blocks(s@)),
        r@.len() == s@.len(),
{
    let mut out: Vec<Json> = Vec::new();
    let mut i: usize = 0;
    broadcast use {views_are, blocks_are};

    while i < s.len()
        invariant
            i <= s@.len(),
            out@.len() == i,
            forall|j: int| 0 <= j < i ==> #[trigger] out@[j]@ == openai_block(s@[j]@),
        decreases s@.len() - i,
    {
        out.push(content_block_to_openai(&s[i]));
        i += 1;
    }
    assert(views(out@) =~= openai_blocks(blocks(s@)));
    out
}

/// The entries of `tool_calls` for the tool uses among the blocks.
fn tool_calls_to_openai(s: &Vec<CanonicalContentBlock>) -> (r: Vec<Json>)
    ensures
        views(r@) == openai_calls(blocks(s@)),
{
    let mut out: Vec<Json> = Vec::new();
    let mut i: usize = 0;
    let ghost all = blocks(s@);
    broadcast use {views_push, blocks_are};

    proof {
        take_ends(all);
        views_empty();
        assert(out@ =~= Seq::<Json>::empty());
    }
    while i < s.len()
        invariant
            i <= s@.len(),
            all == blocks(s@),
            views(out@) == openai_calls(all.take(i as int)),
        decreases s@.len() - i,
    {
        proof {
            take_step(all, i as int);
        }
        if let CanonicalContentBlock::ToolUse { id, name, input } = &s[i] {
            out.push(
                Json::object().with("id", Json::str(id)).with("type", Json::str("function")).with(
                    "function",
                    make_function_call(name, input),
                ),
            );
        }
        i += 1;
    }
    out
}

/// The blocks that are no tool uses, as items of a `content` list.
fn content_to_openai(s: &Vec<CanonicalContentBlock>) -> (r: Vec<Json>)
    ensures
        views(r@) == openai_content(blocks(s@)),
{
    let mut out: Vec<Json> = Vec::new();
    let mut i: usize = 0;
    let ghost all = blocks(s@);
    broadcast use {views_push, blocks_are};

    proof {
        take_ends(all);
        views_empty();
        assert(out@ =~= Seq::<Json>::empty());
    }
    while i < s.len()
        invariant
            i <= s@.len(),
            all == blocks(s@),
            views(out@) == openai_content(all.take(i as int)),
        decreases s@.len() - i,
    {
        proof {
            take_step(all, i as int);
        }
        match &s[i] {
            CanonicalContentBlock::ToolUse { id, name, input } => {},
            other => {
                out.push(content_block_to_openai(other));
            },
        }
        i += 1;
    }
    out
}

/// A list of items as a `content` field.
pub fn make_content_field(items: Vec<Json>) -> (r: Json)
    ensures
        r@ == content_field(views(items@)),
{
    broadcast use views_are;

    if items.len() == 1 && is_text(items[0].str_at("type"), "text") {
        items[0].at("text")
    } else {
        Json::Array(items)
    }
}

/// The message for one block of a message that holds tool results.
fn make_result_message(b: &CanonicalContentBlock) -> (r: Json)
    ensures
        r@ == result_message(b@),
{
    broadcast use {views_are, blocks_are};

    match b {
        CanonicalContentBlock::ToolResult { tool_use_id, content } => {
            let value = if content.len() == 1 {
                content_block_to_openai(&content[0]).at("text")
            } else {
                Json::Array(blocks_to_openai(content))
            };
            Json::object().with("role", Json::str("tool")).with("content", value).with(
                "tool_call_id",
                Json::str(tool_use_id),
            )
        },
        _ => Json::object().with("role", Json::str("user")).with(
            "content",
            content_block_to_openai(b),
        ),
    }
}

/// Whether a tool result is among the blocks.
pub fn any_results(s: &Vec<CanonicalContentBlock>) -> (r: bool)
    ensures
        r == has_results(blocks(s@)),
{
    let mut i: usize = 0;
    broadcast use blocks_are;

    while i < s.len()
        invariant
            i <= s@.len(),
            forall|j: int| 0 <= j < i ==> !(#[trigger] blocks(s@)[j] is ToolResult),
        decreases s@.len() - i,
    {
        if let CanonicalContentBlock::ToolResult { tool_use_id, content } = &s[i] {
            assert(blocks(s@)[i as int] is ToolResult);
            return true;
        }
        i += 1;
    }
    false
}

/// What a message is written as.
pub fn message_to_openai(msg: &CanonicalMessage) -> (r: Option<Json>)
    ensures
        opt_json(r) == openai_message(msg@),
{
    broadcast use {views_are, blocks_are};

    if msg.role == CanonicalRole::System {
        return None;
    }
    if any_results(&msg.content) {
        if msg.content.len() == 1 {
            return Some(make_result_message(&msg.content[0]));
        }
        let mut out: Vec<Json> = Vec::new();
        let mut i: usize = 0;
        while i < msg.content.len()
            invariant
                i <= msg.content@.len(),
                out@.len() == i,
                forall|j: int|
                    0 <= j < i ==> #[trigger] out@[j]@ == result_message(msg.content@[j]@),
            decreases msg.content@.len() - i,
        {
            out.push(make_result_message(&msg.content[i]));
            i += 1;
        }
        assert(views(out@) =~= result_messages(msg@.content));
        return Some(Json::Array(out));
    }
    if msg.role == CanonicalRole::Assistant {
        let calls = tool_calls_to_openai(&msg.content);
        let items = content_to_openai(&msg.content);
        let mut m = Json::object().with("role", Json::str("assistant"));
        if calls.len() > 0 {
            m = m.with("tool_calls", Json::Array(calls));
        }
        if items.len() > 0 {
            m = m.with("content", make_content_field(items));
        }
        return Some(m);
    }
    let content = if msg.content.len() == 0 {
        Json::str("")
    } else {
        make_content_field(blocks_to_openai(&msg.content))
    };
    Some(Json::object().with("role", Json::str("user")).with("content", content))
}

/// The texts of the text blocks.
pub fn collect_texts(s: &Vec<CanonicalContentBlock>) -> (r: Vec<String>)
    ensures
        texts(r@) == plain_texts(blocks(s@)),
{
    let mut out: Vec<String> = Vec::new();
    let mut i: usize = 0;
    let ghost all = blocks(s@);
    broadcast use blocks_are;

    proof {
        take_ends(all);
        assert(texts(out@) =~= plain_texts(all.take(0)));
    }
    while i < s.len()
        invariant
            i <= s@.len(),
            all == blocks(s@),
            texts(out@) == plain_texts(all.take(i as int)),
        decreases s@.len() - i,
    {
        proof {
            take_step(all, i as int);
        }
        if let CanonicalContentBlock::Text { text } = &s[i] {
            let ghost before = out@;
            out.push(text.clone());
            assert(texts(out@) =~= texts(before).push(text@));
        }
        i += 1;
    }
    proof {
        take_ends(all);
    }
    out
}

/// An optional double as a number.
pub fn double_to_json(d: &Option<Double>) -> (r: Option<Json>)
    ensures
        opt_json(r) == double_json(opt_double(*d)),
{
    match d {
        Some(x) => Some(Json::Number(JsonNumber::Float(x.copy()))),
        None => None,
    }
}

/// An optional text, null where there is none.
pub fn make_text_or_null(s: &Option<String>) -> (r: Json)
    ensures
        r@ == text_or_null(opt_text(*s)),
{
    match s {
        Some(t) => Json::Str(t.clone()),
        None => Json::Null,
    }
}

/// Tools as entries of `tools`.
fn tools_to_openai(tools: &Vec<CanonicalTool>) -> (r: Vec<Json>)
    ensures
        views(r@) == openai_tools(tool_views(tools@)),
{
    let mut out: Vec<Json> = Vec::new();
    let mut i: usize = 0;
    broadcast use views_are;

    while i < tools.len()
        invariant
            i <= tools@.len(),
            out@.len() == i,
            forall|j: int| 0 <= j < i ==> #[trigger] out@[j]@ == openai_tool(tools@[j]@),
        decreases tools@.len() - i,
    {
        let t = &tools[i];
        out.push(
            Json::object().with("type", Json::str("function")).with(
                "function",
                Json::object().with("name", Json::str(&t.name)).with(
                    "description",
                    make_text_or_null(&t.description),
                ).with("parameters", t.input_schema.copy()),
            ),
        );
        i += 1;
    }
    assert(views(out@) =~= openai_tools(tool_views(tools@)));
    out
}

/// The entries of `messages` for a request.
fn messages_to_openai(q: &CanonicalRequest) -> (r: Vec<Json>)
    ensures
        views(r@) == openai_system(q@.system) + openai_dialogue(q@.messages),
{
    broadcast use {views_are, views_append, views_push};

    let mut out: Vec<Json> = Vec::new();
    assert(views(out@) =~= Seq::<JsonView>::empty());
    if let Some(system) = &q.system {
        let parts = collect_texts(system);
        if parts.len() > 0 {
            let text = join(&parts, "\n\n");
            out.push(
                Json::object().with("role", Json::str("system")).with("content", Json::Str(text)),
            );
        }
    }
    assert(views(out@) =~= openai_system(q@.system));
    let ghost head = views(out@);
    let ghost all = q@.messages;
    let mut i: usize = 0;
    proof {
        take_ends(all);
        assert(head + openai_dialogue(all.take(0)) =~= head);
    }
    while i < q.messages.len()
        invariant
            i <= q.messages@.len(),
            all == messages(q.messages@),
            views(out@) == head + openai_dialogue(all.take(i as int)),
        decreases q.messages@.len() - i,
    {
        proof {
            take_step(all, i as int);
        }
        let ghost done = openai_dialogue(all.take(i as int));
        match message_to_openai(&q.messages[i]) {
            Some(Json::Array(a)) => {
                let ghost more = views(a@);
                let mut a = a;
                out.append(&mut a);
                assert(head + done + more =~= head + (done + more));
            },
            Some(m) => {
                let ghost x = m@;
                out.push(m);
                assert((head + done).push(x) =~= head + done.push(x));
            },
            None => {},
        }
        i += 1;
    }
    out
}

/// Writes the body of a Chat Completions request. It never fails.
pub fn from_canonical_request(canonical: &CanonicalRequest) -> (r: Result<Json, ConvertError>)
    ensures
        r is Ok,
        r->Ok_0@ == openai_request(canonical@),
{
    let max_tokens = match canonical.max_tokens {
        Some(n) => Some(Json::uint(n)),
        None => None,
    };
    let stop = match &canonical.stop_sequences {
        Some(s) => Some(
            if s.len() == 1 {
                Json::str(&s[0])
            } else {
                Json::strings(s)
            },
        ),
        None => None,
    };
    let stream = if canonical.stream {
        Some(Json::Bool(true))
    } else {
        None
    };
    let tools = match &canonical.tools {
        Some(t) => Some(Json::Array(tools_to_openai(t))),
        None => None,
    };
    let choice = match &canonical.tool_choice {
        Some(c) => Some(c.copy()),
        None => None,
    };
    let effort = match &canonical.reasoning_effort {
        Some(e) => Some(Json::str(e)),
        None => None,
    };
    Ok(
        Json::object().with("model", Json::str(&canonical.model)).with(
            "messages",
            Json::Array(messages_to_openai(canonical)),
        ).with_some("temperature", double_to_json(&canonical.temperature)).with_some(
            "top_p",
            double_to_json(&canonical.top_p),
        ).with_some("max_tokens", max_tokens).with_some("stop", stop).with_some(
            "stream",
            stream,
        ).with_some("tools", tools).with_some("tool_choice", choice).with_some(
            "reasoning_effort",
            effort,
        ),
    )
}

/// The stop reason that a finish reason stands for.
pub open spec fn finish_named(reason: JsonView) -> Option<CanonicalStopReason> {
    if reason.as_str() == Some("stop"@) {
        Some(CanonicalStopReason::EndTurn)
    } else if reason.as_str() == Some("length"@) {
        Some(CanonicalStopReason::MaxTokens)
    } else if reason.as_str() == Some("tool_calls"@) {
        Some(CanonicalStopReason::ToolUse)
    } else if reason.as_str() == Some("content_filter"@) {
        Some(CanonicalStopReason::EndTurn)
    } else {
        None
    }
}

/// The finish reason for a stop reason.
pub open spec fn finish_name(reason: CanonicalStopReason) -> Seq<char> {
    match reason {
        CanonicalStopReason::EndTurn => "stop"@,
        CanonicalStopReason::StopSequence => "stop"@,
        CanonicalStopReason::MaxTokens => "length"@,
        CanonicalStopReason::ToolUse => "tool_calls"@,
    }
}

/// An unsigned integer under `key`, zero where there is none.
pub open spec fn count_at(v: JsonView, key: Seq<char>) -> u64 {
    match v.u64_at(key) {
        Some(n) => n,
        None => 0,
    }
}

/// The text under `key`, if it is not empty.
pub open spec fn some_text_at(v: JsonView, key: Seq<char>) -> Option<Seq<char>> {
    match v.str_at(key) {
        Some(t) => if t.len() == 0 {
            None
        } else {
            Some(t)
        },
        None => None,
    }
}

/// The first text under one of the three names that reasoning goes by.
pub open spec fn reasoning_of(message: JsonView) -> Option<Seq<char>> {
    if some_text_at(message, "reasoning_content"@) is Some {
        some_text_at(message, "reasoning_content"@)
    } else if some_text_at(message, "reasoning"@) is Some {
        some_text_at(message, "reasoning"@)
    } else {
        some_text_at(message, "thinking"@)
    }
}

/// The content of an answer: tool uses, then reasoning, then text.
pub open spec fn answer_content(message: JsonView) -> Seq<BlockView> {
    requested_calls(items_at(message, "tool_calls"@)) + match reasoning_of(message) {
        Some(text) => seq![BlockView::Reasoning { text }],
        None => Seq::empty(),
    } + text_content(message.text_at("content"@))
}

/// The token counts of a response.
pub open spec fn usage_of(body: JsonView) -> Option<CanonicalUsage> {
    match body.get("usage"@) {
        Some(u) => Some(
            CanonicalUsage {
                input_tokens: count_at(u, "prompt_tokens"@),
                output_tokens: count_at(u, "completion_tokens"@),
                total_tokens: u.u64_at("total_tokens"@),
            },
        ),
        None => None,
    }
}

/// The first choice of a response, where it holds a message.
pub open spec fn first_choice(body: JsonView) -> Option<JsonView> {
    let choices = items_at(body, "choices"@);
    if choices.len() > 0 && choices[0].get("message"@) is Some {
        Some(choices[0])
    } else {
        None
    }
}

/// The response that a body holds.
pub open spec fn response_of(body: JsonView) -> ResponseView {
    match first_choice(body) {
        Some(choice) => ResponseView {
            id: body.text_at("id"@),
            model: body.text_at("model"@),
            content: answer_content(choice.at("message"@)),
            stop_reason: match choice.get("finish_reason"@) {
                Some(f) => finish_named(f),
                None => None,
            },
            usage: usage_of(body),
        },
        None => ResponseView {
            id: body.text_at("id"@),
            model: body.text_at("model"@),
            content: Seq::empty(),
            stop_reason: None,
            usage: None,
        },
    }
}

/// The texts that a reader sees: texts, and reasoning marked as such.
pub open spec fn visible_texts(s: Seq<BlockView>) -> Seq<Seq<char>>
    decreases s.len(),
{
    if s.len() == 0 {
        Seq::empty()
    } else {
        let before = visible_texts(s.drop_last());
        match s.last() {
            BlockView::Text { text } => before.push(text),
            BlockView::Reasoning { text } => before.push(thought(text)),
            _ => before,
        }
    }
}

/// The message of an answer.
pub open spec fn answer_message(content: Seq<BlockView>) -> JsonView {
    let calls = openai_calls(content);
    let seen = visible_texts(content);
    JsonView::object().with("role"@, JsonView::Str("assistant"@)).with_some(
        "content"@,
        if seen.len() > 0 {
            Some(JsonView::Str(joined(seen, "\n\n"@)))
        } else if calls.len() == 0 {
            Some(JsonView::Str(""@))
        } else {
            None
        },
    ).with_some(
        "tool_calls"@,
        if calls.len() > 0 {
            Some(JsonView::Array(calls))
        } else {
            None
        },
    )
}

/// Token counts in the names of Chat Completions.
pub open spec fn openai_usage(u: CanonicalUsage) -> JsonView {
    JsonView::object().with("prompt_tokens"@, JsonView::uint(u.input_tokens)).with(
        "completion_tokens"@,
        JsonView::uint(u.output_tokens),
    ).with("total_tokens"@, JsonView::opt_uint(u.total_tokens))
}

/// The body of a Chat Completions response.
pub open spec fn openai_response(p: ResponseView) -> JsonView {
    JsonView::object().with("id"@, JsonView::Str(p.id)).with("model"@, JsonView::Str(p.model)).with(
        "choices"@,
        JsonView::Array(
            seq![
                JsonView::object().with("index"@, JsonView::uint(0)).with(
                    "message"@,
                    answer_message(p.content),
                ).with_some(
                    "finish_reason"@,
                    match p.stop_reason {
                        Some(reason) => Some(JsonView::Str(finish_name(reason))),
                        None => None,
                    },
                ),
            ],
        ),
    ).with_some(
        "usage"@,
        match p.usage {
            Some(u) => Some(openai_usage(u)),
            None => None,
        },
    )
}

/// The stop reason that a finish reason stands for.
pub fn parse_finish_reason(reason: &Json) -> (r: Option<CanonicalStopReason>)
    ensures
        r == finish_named(reason@),
{
    let name = match reason.as_str() {
        Some(n) => n,
        None => return None,
    };
    if same(name, "stop") {
        Some(CanonicalStopReason::EndTurn)
    } else if same(name, "length") {
        Some(CanonicalStopReason::MaxTokens)
    } else if same(name, "tool_calls") {
        Some(CanonicalStopReason::ToolUse)
    } else if same(name, "content_filter") {
        Some(CanonicalStopReason::EndTurn)
    } else {
        None
    }
}

/// An unsigned integer under `key`, zero where there is none.
pub fn parse_count(v: &Json, key: &str) -> (r: u64)
    ensures
        r == count_at(v@, key@),
{
    match v.u64_at(key) {
        Some(n) => n,
        None => 0,
    }
}

/// The text under `key`, if it is not empty.
pub fn parse_some_text(v: &Json, key: &str) -> (r: Option<String>)
    ensures
        opt_text(r) == some_text_at(v@, key@),
{
    match v.str_at(key) {
        Some(t) => if t.is_empty() {
            None
        } else {
            Some(copy(t))
        },
        None => None,
    }
}

/// The first text under one of the three names that reasoning goes by.
pub fn parse_reasoning_text(message: &Json) -> (r: Option<String>)
    ensures
        opt_text(r) == reasoning_of(message@),
{
    match parse_some_text(message, "reasoning_content") {
        Some(t) => Some(t),
        None => match parse_some_text(message, "reasoning") {
            Some(t) => Some(t),
            None => parse_some_text(message, "thinking"),
        },
    }
}

/// The content of an answer.
fn parse_answer(message: &Json) -> (r: Vec<CanonicalContentBlock>)
    ensures
        blocks(r@) == answer_content(message@),
{
    broadcast use {blocks_push, blocks_append};

    let mut content = match message.array_at("tool_calls") {
        Some(calls) => parse_requested_calls(calls),
        None => no_blocks(),
    };
    let ghost calls = blocks(content@);
    let ghost thoughts = match reasoning_of(message@) {
        Some(text) => seq![BlockView::Reasoning { text }],
        None => Seq::empty(),
    };
    if let Some(text) = parse_reasoning_text(message) {
        content.push(CanonicalContentBlock::Reasoning { text });
    }
    assert(blocks(content@) =~= calls + thoughts);
    let mut text = text_blocks(message.text_at("content"));
    content.append(&mut text);
    content
}

/// The token counts of a response.
fn parse_usage(body: &Json) -> (r: Option<CanonicalUsage>)
    ensures
        r == usage_of(body@),
{
    match body.get("usage") {
        Some(u) => Some(
            CanonicalUsage {
                input_tokens: parse_count(u, "prompt_tokens"),
                output_tokens: parse_count(u, "completion_tokens"),
                total_tokens: u.u64_at("total_tokens"),
            },
        ),
        None => None,
    }
}

/// Reads the body of a Chat Completions response. It never fails.
pub fn to_canonical_response(body: &Json) -> (r: Result<CanonicalResponse, ConvertError>)
    ensures
        r is Ok,
        r->Ok_0@ == response_of(body@),
{
    broadcast use views_are;

    let id = body.text_at("id");
    let model = body.text_at("model");
    if let Some(choices) = body.array_at("choices") {
        if choices.len() > 0 {
            let choice = &choices[0];
            if let Some(message) = choice.get("message") {
                let stop_reason = match choice.get("finish_reason") {
                    Some(f) => parse_finish_reason(f),
                    None => None,
                };
                return Ok(
                    CanonicalResponse {
                        id,
                        model,
                        content: parse_answer(message),
                        stop_reason,
                        usage: parse_usage(body),
                    },
                );
            }
        }
    }
    Ok(CanonicalResponse { id, model, content: no_blocks(), stop_reason: None, usage: None })
}

/// The finish reason for a stop reason.
pub fn stop_reason_to_openai(reason: &CanonicalStopReason) -> (r: &'static str)
    ensures
        r@ == finish_name(*reason),
{
    match reason {
        CanonicalStopReason::EndTurn => "stop",
        CanonicalStopReason::StopSequence => "stop",
        CanonicalStopReason::MaxTokens => "length",
        CanonicalStopReason::ToolUse => "tool_calls",
    }
}

/// The texts that a reader sees.
fn collect_visible(s: &Vec<CanonicalContentBlock>) -> (r: Vec<String>)
    ensures
        texts(r@) == visible_texts(blocks(s@)),
{
    let mut out: Vec<String> = Vec::new();
    let mut i: usize = 0;
    let ghost all = blocks(s@);
    broadcast use blocks_are;

    proof {
        take_ends(all);
        assert(texts(out@) =~= visible_texts(all.take(0)));
    }
    while i < s.len()
        invariant
            i <= s@.len(),
            all == blocks(s@),
            texts(out@) == visible_texts(all.take(i as int)),
        decreases s@.len() - i,
    {
        proof {
            take_step(all, i as int);
        }
        let ghost before = out@;
        match &s[i] {
            CanonicalContentBlock::Text { text } => {
                out.push(text.clone());
                assert(texts(out@) =~= texts(before).push(text@));
            },
            CanonicalContentBlock::Reasoning { text } => {
                out.push(mark_thought(text));
                assert(texts(out@) =~= texts(before).push(thought(text@)));
            },
            _ => {},
        }
        i += 1;
    }
    proof {
        take_ends(all);
    }
    out
}

/// Writes the body of a Chat Completions response. It never fails.
pub fn from_canonical_response(canonical: &CanonicalResponse) -> (r: Result<Json, ConvertError>)
    ensures
        r is Ok,
        r->Ok_0@ == openai_response(canonical@),
{
    broadcast use views_are;

    let calls = tool_calls_to_openai(&canonical.content);
    let seen = collect_visible(&canonical.content);
    let content = if seen.len() > 0 {
        Some(Json::Str(join(&seen, "\n\n")))
    } else if calls.len() == 0 {
        Some(Json::str(""))
    } else {
        None
    };
    let tool_calls = if calls.len() > 0 {
        Some(Json::Array(calls))
    } else {
        None
    };
    let message = Json::object().with("role", Json::str("assistant")).with_some(
        "content",
        content,
    ).with_some("tool_calls", tool_calls);
    let finish = match &canonical.stop_reason {
        Some(reason) => Some(Json::str(stop_reason_to_openai(reason))),
        None => None,
    };
    let usage = match &canonical.usage {
        Some(u) => Some(
            Json::object().with("prompt_tokens", Json::uint(u.input_tokens)).with(
                "completion_tokens",
                Json::uint(u.output_tokens),
            ).with("total_tokens", Json::opt_uint(u.total_tokens)),
        ),
        None => None,
    };
    let choice = Json::object().with("index", Json::uint(0)).with("message", message).with_some(
        "finish_reason",
        finish,
    );
    Ok(
        Json::object().with("id", Json::str(&canonical.id)).with(
            "model",
            Json::str(&canonical.model),
        ).with("choices", Json::single(choice)).with_some("usage", usage),
    )
}

} // verus!
