//! What would be lost of a request in another protocol: fields that are not carried over, things
//! inside carried fields that are not read, and things that the other protocol cannot say.
use crate::json::{sorted_keys, views, views_are, Json, JsonView};
use crate::text::{copy, same, texts};
use crate::transform::anthropic;
use crate::transform::canonical::{
    blocks, blocks_are, messages, BlockView, CanonicalContentBlock, CanonicalImageSource, CanonicalMessage,
    CanonicalRequest, CanonicalRole, ImageView, MessageView, RequestView,
};
use crate::transform::chat_completions;
use crate::transform::chat_completions::{
    any_results, dialogue, functions, has_results, is_system, lacks_function, tools_of,
};
use crate::transform::responses::{
    any_calls, calls_items, content_parts, flat_tools, has_calls, input_messages,
    normalize_tool_choice_for_responses, part_of, responses_choice,
};
use crate::transform::{is_among, strs, Protocol};
use vstd::prelude::*;

verus! {

/// A value that says nothing: null, false or an empty list.
pub open spec fn is_silent(v: JsonView) -> bool {
    match v {
        JsonView::Null => true,
        JsonView::Bool(b) => !b,
        JsonView::Array(a) => a.len() == 0,
        _ => false,
    }
}

/// Whether a value is an object that says nothing but under the given names.
pub open spec fn says_only(v: JsonView, known: Seq<Seq<char>>) -> bool {
    match v {
        JsonView::Object(m) => forall|k: Seq<char>|
            #![trigger m.dom().contains(k)]
            m.dom().contains(k) ==> known.contains(k) || is_silent(m[k]),
        _ => false,
    }
}

/// Whether a value is a text or null.
pub open spec fn is_text_or_null(v: JsonView) -> bool {
    v is Str || v is Null
}

/// A piece of a request that is read as a whole or not.
#[derive(Debug, Clone, Copy, PartialEq, Eq, Structural)]
pub enum Form {
    /// A text.
    Text,
    /// A piece of the content of a Chat Completions message.
    ChatItem,
    /// A tool call of a Chat Completions message.
    ChatCall,
    /// A Chat Completions message.
    ChatMessage,
    /// A tool of a Chat Completions request.
    ChatTool,
    /// A piece of the content of a Responses message.
    Part,
    /// An item of the input of a Responses request.
    InputItem,
    /// A tool of a Responses request.
    FlatTool,
    /// A block of a message of Anthropic's protocol.
    Block,
    /// A message of Anthropic's protocol.
    Message,
    /// A tool of Anthropic's protocol.
    Tool,
}

/// Whether a value holds a URL and nothing else.
pub open spec fn is_whole_url(v: JsonView) -> bool {
    says_only(v, seq!["url"@]) && v.str_at("url"@) is Some
}

/// Whether a called function is read as a whole.
pub open spec fn is_whole_function(v: JsonView) -> bool {
    says_only(v, seq!["name"@, "arguments"@]) && v.str_at("name"@) is Some
}

/// Whether the description of a function is read as a whole.
pub open spec fn is_whole_description(v: JsonView) -> bool {
    says_only(v, seq!["name"@, "description"@, "parameters"@]) && v.str_at("name"@) is Some && is_text_or_null(v.at("description"@))
}

/// Whether an image source of Anthropic's protocol is read as a whole.
pub open spec fn is_whole_source(v: JsonView) -> bool {
    let kind = v.text_at("type"@);
    if kind == "base64"@ {
        says_only(v, seq!["type"@, "media_type"@, "data"@]) && v.str_at("data"@) is Some && is_text_or_null(v.at("media_type"@))
    } else if kind == "url"@ {
        says_only(v, seq!["type"@, "url"@]) && v.str_at("url"@) is Some
    } else {
        false
    }
}

/// Whether a piece of a request is read as a whole: reading it drops nothing that it says.
pub open spec fn is_whole(form: Form, v: JsonView) -> bool
    decreases v,
{
    let kind = v.text_at("type"@);
    let role = v.text_at("role"@);
    match form {
        Form::Text => v is Str,
        Form::ChatItem => if kind == "text"@ {
            says_only(v, seq!["type"@, "text"@]) && v.str_at("text"@) is Some
        } else if kind == "image_url"@ {
            says_only(v, seq!["type"@, "image_url"@]) && is_whole_url(v.at("image_url"@))
        } else {
            false
        },
        Form::ChatCall => says_only(v, seq!["id"@, "type"@, "function"@]) && v.str_at("id"@) is Some && is_whole_function(
            v.at("function"@),
        ),
        Form::ChatMessage => (if role == "system"@ || role == "developer"@ || role == "user"@ {
            says_only(v, seq!["role"@, "content"@])
        } else if role == "assistant"@ {
            says_only(v, seq!["role"@, "content"@, "tool_calls"@]) && match v.get("tool_calls"@) {
                None => true,
                Some(JsonView::Null) => true,
                Some(JsonView::Array(a)) => are_whole(Form::ChatCall, a),
                Some(_) => false,
            }
        } else if role == "tool"@ {
            says_only(v, seq!["role"@, "content"@, "tool_call_id"@]) && v.str_at("tool_call_id"@) is Some
        } else {
            false
        }) && match v.get("content"@) {
            None => true,
            Some(JsonView::Null) => true,
            Some(JsonView::Str(_)) => true,
            Some(JsonView::Array(a)) => are_whole(Form::ChatItem, a),
            Some(_) => false,
        },
        Form::ChatTool => says_only(v, seq!["type"@, "function"@]) && kind == "function"@ && is_whole_description(
            v.at("function"@),
        ),
        Form::Part => if kind == "text"@ || kind == "input_text"@ || kind == "output_text"@ || kind
            == "reasoning_text"@ || kind == "summary_text"@ {
            says_only(v, seq!["type"@, "text"@]) && v.str_at("text"@) is Some
        } else if kind == "image_url"@ {
            says_only(v, seq!["type"@, "image_url"@]) && is_whole_url(v.at("image_url"@))
        } else if kind == "input_image"@ {
            if v.str_at("image_url"@) is Some {
                says_only(v, seq!["type"@, "image_url"@])
            } else {
                says_only(v, seq!["type"@, "data"@, "format"@]) && v.str_at("data"@) is Some && is_text_or_null(v.at("format"@))
            }
        } else {
            false
        },
        Form::InputItem => if kind == "message"@ {
            says_only(v, seq!["type"@, "role"@, "content"@, "id"@, "status"@]) && (role == "user"@ || role == "assistant"@) && match v.get(
                "content"@,
            ) {
                Some(JsonView::Str(_)) => true,
                Some(JsonView::Array(a)) => are_whole(Form::Part, a),
                _ => false,
            }
        } else if kind == "function_call_output"@ {
            says_only(v, seq!["type"@, "call_id"@, "output"@, "id"@, "status"@]) && v.text_at("call_id"@).len() > 0 && v.str_at("output"@) is Some
        } else {
            false
        },
        Form::FlatTool => says_only(v, seq!["type"@, "name"@, "description"@, "parameters"@]) && kind == "function"@ && v.str_at("name"@) is Some
            && is_text_or_null(v.at("description"@)),
        Form::Block => if kind == "text"@ {
            says_only(v, seq!["type"@, "text"@]) && v.str_at("text"@) is Some
        } else if kind == "image"@ {
            says_only(v, seq!["type"@, "source"@]) && is_whole_source(v.at("source"@))
        } else if kind == "tool_use"@ {
            says_only(v, seq!["type"@, "id"@, "name"@, "input"@]) && v.str_at("id"@) is Some && v.str_at("name"@) is Some
        } else if kind == "thinking"@ {
            says_only(v, seq!["type"@, "thinking"@]) && v.str_at("thinking"@) is Some
        } else if kind == "tool_result"@ {
            says_only(v, seq!["type"@, "tool_use_id"@, "content"@]) && v.str_at("tool_use_id"@) is Some && match v.get("content"@) {
                None => true,
                Some(JsonView::Null) => true,
                Some(JsonView::Str(_)) => true,
                Some(JsonView::Array(a)) => are_whole(Form::Block, a),
                Some(_) => false,
            }
        } else {
            false
        },
        Form::Message => says_only(v, seq!["role"@, "content"@]) && (role == "user"@ || role == "assistant"@) && match v.get(
            "content"@,
        ) {
            Some(JsonView::Str(_)) => true,
            Some(JsonView::Array(a)) => are_whole(Form::Block, a),
            _ => false,
        },
        Form::Tool => says_only(v, seq!["name"@, "description"@, "input_schema"@]) && v.str_at("name"@) is Some && is_text_or_null(
            v.at("description"@),
        ),
    }
}

/// Whether all pieces of a list are read as a whole.
pub open spec fn are_whole(form: Form, s: Seq<JsonView>) -> bool
    decreases s,
{
    forall|i: int| 0 <= i < s.len() ==> is_whole(form, #[trigger] s[i])
}

/// Whether a value is null or a list of pieces that are read as a whole.
pub open spec fn is_whole_list(form: Form, v: JsonView) -> bool {
    match v {
        JsonView::Null => true,
        JsonView::Array(a) => are_whole(form, a),
        _ => false,
    }
}

/// What the messages of a request are.
pub open spec fn message_form(entry: Protocol) -> Form {
    if entry == Protocol::AnthropicMessages {
        Form::Message
    } else {
        Form::ChatMessage
    }
}

/// What the tools of a request are.
pub open spec fn tool_form(entry: Protocol) -> Form {
    match entry {
        Protocol::ChatCompletions => Form::ChatTool,
        Protocol::Responses => Form::FlatTool,
        Protocol::AnthropicMessages => Form::Tool,
    }
}

/// Whether a field of a request is read as a whole, and no other field takes its place.
pub open spec fn is_whole_field(entry: Protocol, key: Seq<char>, body: JsonView) -> bool {
    let v = body.at(key);
    if key == "model"@ {
        v is Str
    } else if key == "temperature"@ || key == "top_p"@ {
        v is Number || v is Null
    } else if key == "max_tokens"@ || key == "max_output_tokens"@ {
        v.as_u64() is Some || v is Null
    } else if key == "max_completion_tokens"@ {
        v is Null || (v.as_u64() is Some && (body.u64_at("max_tokens"@) is None || body.u64_at(
            "max_tokens"@,
        ) == v.as_u64()))
    } else if key == "stream"@ {
        v is Bool || v is Null
    } else if key == "stop"@ {
        v is Str || is_whole_list(Form::Text, v)
    } else if key == "stop_sequences"@ {
        is_whole_list(Form::Text, v)
    } else if key == "messages"@ {
        is_whole_list(message_form(entry), v)
    } else if key == "input"@ {
        v is Str || is_whole_list(Form::InputItem, v)
    } else if key == "instructions"@ || key == "reasoning_effort"@ {
        is_text_or_null(v)
    } else if key == "system"@ {
        v is Str || is_whole_list(Form::Block, v)
    } else if key == "tools"@ {
        is_whole_list(tool_form(entry), v)
    } else if key == "reasoning"@ {
        v is Null || (says_only(v, seq!["effort"@]) && is_text_or_null(v.at("effort"@)) && (body.str_at(
            "reasoning_effort"@,
        ) is None || v.str_at("effort"@) is None || body.str_at("reasoning_effort"@) == v.str_at(
            "effort"@,
        )))
    } else {
        true
    }
}

/// A value that says nothing.
fn check_silent(v: &Json) -> (r: bool)
    ensures
        r == is_silent(v@),
{
    broadcast use views_are;

    match v {
        Json::Null => true,
        Json::Bool(b) => !*b,
        Json::Array(a) => a.len() == 0,
        _ => false,
    }
}

/// Whether a value is an object that says nothing but under the given names.
fn check_only(v: &Json, known: &Vec<&'static str>) -> (r: bool)
    ensures
        r == says_only(v@, strs(known@)),
{
    let o = match v {
        Json::Object(o) => o,
        _ => return false,
    };
    let n: usize = o.len();
    let ghost keys = sorted_keys(o@);
    let mut i: usize = 0;
    while i < n
        invariant
            i <= n,
            n == keys.len(),
            keys == sorted_keys(o@),
            v@ == JsonView::Object(o@),
            forall|j: int|
                0 <= j < i ==> strs(known@).contains(#[trigger] keys[j]) || is_silent(o@[keys[j]]),
        decreases n - i,
    {
        let key = o.key_at(i);
        if !is_among(key, known) && !check_silent(o.value_at(i)) {
            proof {
                let k = keys[i as int];
                let m = v@->Object_0;
                assert(m == o@);
                assert(m.dom().contains(k) && !strs(known@).contains(k) && !is_silent(m[k]));
            }
            return false;
        }
        i += 1;
    }
    proof {
        assert forall|k: Seq<char>| #[trigger] o@.dom().contains(k) implies strs(known@).contains(k)
            || is_silent(o@[k]) by {
            assert(keys.contains(k));
            let j = choose|j: int| 0 <= j < keys.len() && keys[j] == k;
            assert(keys[j] == k);
        }
    }
    true
}

/// Whether a value is a text or null.
fn check_text_or_null(v: &Json) -> (r: bool)
    ensures
        r == is_text_or_null(v@),
{
    match v {
        Json::Str(_) => true,
        Json::Null => true,
        _ => false,
    }
}

/// Whether a value holds a URL and nothing else.
fn check_url(v: &Json) -> (r: bool)
    ensures
        r == is_whole_url(v@),
{
    let known: Vec<&'static str> = vec!["url"];
    assert(strs(known@) =~= seq!["url"@]);
    check_only(v, &known) && v.str_at("url").is_some()
}

/// Whether a called function is read as a whole.
fn check_function(v: &Json) -> (r: bool)
    ensures
        r == is_whole_function(v@),
{
    let known: Vec<&'static str> = vec!["name", "arguments"];
    assert(strs(known@) =~= seq!["name"@, "arguments"@]);
    check_only(v, &known) && v.str_at("name").is_some()
}

/// Whether the description of a function is read as a whole.
fn check_description(v: &Json) -> (r: bool)
    ensures
        r == is_whole_description(v@),
{
    let known: Vec<&'static str> = vec!["name", "description", "parameters"];
    assert(strs(known@) =~= seq!["name"@, "description"@, "parameters"@]);
    check_only(v, &known) && v.str_at("name").is_some() && check_text_or_null(&v.at("description"))
}

/// Whether an image source of Anthropic's protocol is read as a whole.
fn check_source(v: &Json) -> (r: bool)
    ensures
        r == is_whole_source(v@),
{
    let kind = v.text_at("type");
    if same(&kind, "base64") {
        let known: Vec<&'static str> = vec!["type", "media_type", "data"];
        assert(strs(known@) =~= seq!["type"@, "media_type"@, "data"@]);
        check_only(v, &known) && v.str_at("data").is_some() && check_text_or_null(&v.at("media_type"))
    } else if same(&kind, "url") {
        let known: Vec<&'static str> = vec!["type", "url"];
        assert(strs(known@) =~= seq!["type"@, "url"@]);
        check_only(v, &known) && v.str_at("url").is_some()
    } else {
        false
    }
}

/// Whether a piece of text is read as a whole.
fn check_text_item(v: &Json) -> (r: bool)
    ensures
        r == (says_only(v@, seq!["type"@, "text"@]) && v@.str_at("text"@) is Some),
{
    let known: Vec<&'static str> = vec!["type", "text"];
    assert(strs(known@) =~= seq!["type"@, "text"@]);
    check_only(v, &known) && v.str_at("text").is_some()
}

/// Whether a reference to an image is read as a whole.
fn check_image_item(v: &Json) -> (r: bool)
    ensures
        r == (says_only(v@, seq!["type"@, "image_url"@]) && is_whole_url(v@.at("image_url"@))),
{
    let known: Vec<&'static str> = vec!["type", "image_url"];
    assert(strs(known@) =~= seq!["type"@, "image_url"@]);
    check_only(v, &known) && check_url(&v.at("image_url"))
}

/// Whether the list under a key is one of pieces that are read as a whole. Where there is none
/// the result is `missing`, and where there is a text it is `text`.
fn check_list_at(form: Form, v: &Json, key: &str, missing: bool, text: bool) -> (r: bool)
    ensures
        r == match v@.get(key@) {
            None => missing,
            Some(JsonView::Null) => missing,
            Some(JsonView::Str(_)) => text,
            Some(JsonView::Array(a)) => are_whole(form, a),
            Some(_) => false,
        },
    decreases v@, 0nat,
{
    match v.get(key) {
        None => missing,
        Some(Json::Null) => missing,
        Some(Json::Str(_)) => text,
        Some(Json::Array(a)) => {
            proof {
                let inner = v@->Object_0[key@];
                assert(inner == JsonView::Array(views(a@)));
                assert(decreases_to!(v@ => inner));
                assert(decreases_to!(inner => inner->Array_0));
            }
            check_all(form, a)
        },
        Some(_) => false,
    }
}

/// Whether a piece of a request is read as a whole.
fn check_piece(form: Form, v: &Json) -> (r: bool)
    ensures
        r == is_whole(form, v@),
    decreases v@, 1nat,
{
    let kind = v.text_at("type");
    let role = v.text_at("role");
    match form {
        Form::Text => match v {
            Json::Str(_) => true,
            _ => false,
        },
        Form::ChatItem => if same(&kind, "text") {
            check_text_item(v)
        } else if same(&kind, "image_url") {
            check_image_item(v)
        } else {
            false
        },
        Form::ChatCall => {
            let known: Vec<&'static str> = vec!["id", "type", "function"];
            assert(strs(known@) =~= seq!["id"@, "type"@, "function"@]);
            check_only(v, &known) && v.str_at("id").is_some() && check_function(&v.at("function"))
        },
        Form::ChatMessage => {
            let whole = if same(&role, "system") || same(&role, "developer") || same(&role, "user") {
                let known: Vec<&'static str> = vec!["role", "content"];
                assert(strs(known@) =~= seq!["role"@, "content"@]);
                check_only(v, &known)
            } else if same(&role, "assistant") {
                let known: Vec<&'static str> = vec!["role", "content", "tool_calls"];
                assert(strs(known@) =~= seq!["role"@, "content"@, "tool_calls"@]);
                check_only(v, &known) && check_list_at(Form::ChatCall, v, "tool_calls", true, false)
            } else if same(&role, "tool") {
                let known: Vec<&'static str> = vec!["role", "content", "tool_call_id"];
                assert(strs(known@) =~= seq!["role"@, "content"@, "tool_call_id"@]);
                check_only(v, &known) && v.str_at("tool_call_id").is_some()
            } else {
                false
            };
            whole && check_list_at(Form::ChatItem, v, "content", true, true)
        },
        Form::ChatTool => {
            let known: Vec<&'static str> = vec!["type", "function"];
            assert(strs(known@) =~= seq!["type"@, "function"@]);
            check_only(v, &known) && same(&kind, "function") && check_description(&v.at("function"))
        },
        Form::Part => if same(&kind, "text") || same(&kind, "input_text") || same(&kind, "output_text")
            || same(&kind, "reasoning_text") || same(&kind, "summary_text") {
            check_text_item(v)
        } else if same(&kind, "image_url") {
            check_image_item(v)
        } else if same(&kind, "input_image") {
            if v.str_at("image_url").is_some() {
                let known: Vec<&'static str> = vec!["type", "image_url"];
                assert(strs(known@) =~= seq!["type"@, "image_url"@]);
                check_only(v, &known)
            } else {
                let known: Vec<&'static str> = vec!["type", "data", "format"];
                assert(strs(known@) =~= seq!["type"@, "data"@, "format"@]);
                check_only(v, &known) && v.str_at("data").is_some() && check_text_or_null(
                    &v.at("format"),
                )
            }
        } else {
            false
        },
        Form::InputItem => if same(&kind, "message") {
            let known: Vec<&'static str> = vec!["type", "role", "content", "id", "status"];
            assert(strs(known@) =~= seq!["type"@, "role"@, "content"@, "id"@, "status"@]);
            check_only(v, &known) && (same(&role, "user") || same(&role, "assistant")) && check_list_at(
                Form::Part,
                v,
                "content",
                false,
                true,
            )
        } else if same(&kind, "function_call_output") {
            let known: Vec<&'static str> = vec!["type", "call_id", "output", "id", "status"];
            assert(strs(known@) =~= seq!["type"@, "call_id"@, "output"@, "id"@, "status"@]);
            let id = v.text_at("call_id");
            check_only(v, &known) && !id.as_str().is_empty() && v.str_at("output").is_some()
        } else {
            false
        },
        Form::FlatTool => {
            let known: Vec<&'static str> = vec!["type", "name", "description", "parameters"];
            assert(strs(known@) =~= seq!["type"@, "name"@, "description"@, "parameters"@]);
            check_only(v, &known) && same(&kind, "function") && v.str_at("name").is_some()
                && check_text_or_null(&v.at("description"))
        },
        Form::Block => if same(&kind, "text") {
            check_text_item(v)
        } else if same(&kind, "image") {
            let known: Vec<&'static str> = vec!["type", "source"];
            assert(strs(known@) =~= seq!["type"@, "source"@]);
            check_only(v, &known) && check_source(&v.at("source"))
        } else if same(&kind, "tool_use") {
            let known: Vec<&'static str> = vec!["type", "id", "name", "input"];
            assert(strs(known@) =~= seq!["type"@, "id"@, "name"@, "input"@]);
            check_only(v, &known) && v.str_at("id").is_some() && v.str_at("name").is_some()
        } else if same(&kind, "thinking") {
            let known: Vec<&'static str> = vec!["type", "thinking"];
            assert(strs(known@) =~= seq!["type"@, "thinking"@]);
            check_only(v, &known) && v.str_at("thinking").is_some()
        } else if same(&kind, "tool_result") {
            let known: Vec<&'static str> = vec!["type", "tool_use_id", "content"];
            assert(strs(known@) =~= seq!["type"@, "tool_use_id"@, "content"@]);
            check_only(v, &known) && v.str_at("tool_use_id").is_some() && check_list_at(
                Form::Block,
                v,
                "content",
                true,
                true,
            )
        } else {
            false
        },
        Form::Message => {
            let known: Vec<&'static str> = vec!["role", "content"];
            assert(strs(known@) =~= seq!["role"@, "content"@]);
            check_only(v, &known) && (same(&role, "user") || same(&role, "assistant")) && check_list_at(
                Form::Block,
                v,
                "content",
                false,
                true,
            )
        },
        Form::Tool => {
            let known: Vec<&'static str> = vec!["name", "description", "input_schema"];
            assert(strs(known@) =~= seq!["name"@, "description"@, "input_schema"@]);
            check_only(v, &known) && v.str_at("name").is_some() && check_text_or_null(
                &v.at("description"),
            )
        },
    }
}

/// Whether all pieces of a list are read as a whole.
fn check_all(form: Form, items: &Vec<Json>) -> (r: bool)
    ensures
        r == are_whole(form, views(items@)),
    decreases views(items@), 2nat,
{
    let ghost all = views(items@);
    broadcast use views_are;

    let mut i: usize = 0;
    while i < items.len()
        invariant
            i <= items@.len(),
            all == views(items@),
            forall|j: int| 0 <= j < i ==> is_whole(form, #[trigger] all[j]),
        decreases items@.len() - i,
    {
        proof {
            assert(all[i as int] == items@[i as int]@);
            assert(decreases_to!(all => all[i as int]));
        }
        if !check_piece(form, &items[i]) {
            return false;
        }
        i += 1;
    }
    true
}

/// Whether a value is null or a list of pieces that are read as a whole.
fn check_list(form: Form, v: &Json) -> (r: bool)
    ensures
        r == is_whole_list(form, v@),
{
    match v {
        Json::Null => true,
        Json::Array(a) => check_all(form, a),
        _ => false,
    }
}

/// Whether a value is a text, null, or a list of pieces that are read as a whole.
fn check_text_or_list(form: Form, v: &Json) -> (r: bool)
    ensures
        r == (v@ is Str || is_whole_list(form, v@)),
{
    match v {
        Json::Str(_) => true,
        _ => check_list(form, v),
    }
}

/// Whether a field of a request is read as a whole, and no other field takes its place.
pub fn check_field(entry: Protocol, key: &str, body: &Json) -> (r: bool)
    ensures
        r == is_whole_field(entry, key@, body@),
{
    let v = body.at(key);
    if same(key, "model") {
        v.as_str().is_some()
    } else if same(key, "temperature") || same(key, "top_p") {
        match v {
            Json::Number(_) => true,
            Json::Null => true,
            _ => false,
        }
    } else if same(key, "max_tokens") || same(key, "max_output_tokens") {
        v.as_u64().is_some() || v.is_null()
    } else if same(key, "max_completion_tokens") {
        v.is_null() || match (v.as_u64(), body.u64_at("max_tokens")) {
            (Some(n), Some(m)) => n == m,
            (Some(_), None) => true,
            (None, _) => false,
        }
    } else if same(key, "stream") {
        v.as_bool().is_some() || v.is_null()
    } else if same(key, "stop") {
        check_text_or_list(Form::Text, &v)
    } else if same(key, "stop_sequences") {
        check_list(Form::Text, &v)
    } else if same(key, "messages") {
        let form = if entry == Protocol::AnthropicMessages {
            Form::Message
        } else {
            Form::ChatMessage
        };
        check_list(form, &v)
    } else if same(key, "input") {
        check_text_or_list(Form::InputItem, &v)
    } else if same(key, "instructions") || same(key, "reasoning_effort") {
        check_text_or_null(&v)
    } else if same(key, "system") {
        check_text_or_list(Form::Block, &v)
    } else if same(key, "tools") {
        let form = match entry {
            Protocol::ChatCompletions => Form::ChatTool,
            Protocol::Responses => Form::FlatTool,
            Protocol::AnthropicMessages => Form::Tool,
        };
        check_list(form, &v)
    } else if same(key, "reasoning") {
        let known: Vec<&'static str> = vec!["effort"];
        assert(strs(known@) =~= seq!["effort"@]);
        v.is_null() || (check_only(&v, &known) && check_text_or_null(&v.at("effort")) && match (
            body.str_at("reasoning_effort"),
            v.str_at("effort"),
        ) {
            (Some(a), Some(b)) => same(a, b),
            _ => true,
        })
    } else {
        true
    }
}

/// Which blocks fit at a place.
#[derive(Debug, Clone, Copy, PartialEq, Eq, Structural)]
pub enum Rule {
    /// Texts, reasoning and images.
    Shown,
    /// Texts.
    Texts,
    /// All but tool calls.
    NoCalls,
    /// Texts and tool calls.
    TextsAndCalls,
    /// Texts, and images that are given by a URL or as PNG data.
    TextsAndImages,
}

/// Whether a block fits.
pub open spec fn fits(rule: Rule, b: BlockView) -> bool {
    match rule {
        Rule::Shown => b is Text || b is Reasoning || b is Image,
        Rule::Texts => b is Text,
        Rule::NoCalls => !(b is ToolUse),
        Rule::TextsAndCalls => b is Text || b is ToolUse,
        Rule::TextsAndImages => match b {
            BlockView::Text { text } => true,
            BlockView::Image { source: ImageView::Url { url } } => true,
            BlockView::Image { source: ImageView::Base64 { media_type, data } } => media_type
                == "image/png"@,
            _ => false,
        },
    }
}

/// Whether all blocks fit.
pub open spec fn all_fit(rule: Rule, s: Seq<BlockView>) -> bool {
    forall|i: int| 0 <= i < s.len() ==> fits(rule, #[trigger] s[i])
}

/// Whether Chat Completions can say a tool result: its content can be shown, and it is no lone
/// image.
pub open spec fn chat_says_result(b: BlockView) -> bool {
    match b {
        BlockView::ToolResult { tool_use_id, content } => all_fit(Rule::Shown, content) && !(content.len()
            == 1 && content[0] is Image),
        _ => false,
    }
}

/// Whether Responses can say a block beside tool results: a text, or a result of texts.
pub open spec fn responses_say_result(b: BlockView) -> bool {
    match b {
        BlockView::ToolResult { tool_use_id, content } => all_fit(Rule::Texts, content),
        BlockView::Text { text } => true,
        _ => false,
    }
}

/// Whether Responses can say a block that stands alone: a text, or an image with a URL.
pub open spec fn responses_say_alone(b: BlockView) -> bool {
    match b {
        BlockView::Text { text } => true,
        BlockView::Image { source: ImageView::Url { url } } => url.len() > 0,
        _ => false,
    }
}

/// Whether a protocol can say all of a message.
pub open spec fn is_sayable(target: Protocol, m: MessageView) -> bool {
    let s = m.content;
    m.role != CanonicalRole::System && match target {
        Protocol::ChatCompletions => if has_results(s) {
            forall|i: int| 0 <= i < s.len() ==> chat_says_result(#[trigger] s[i])
        } else {
            m.role == CanonicalRole::Assistant || all_fit(Rule::NoCalls, s)
        },
        Protocol::Responses => if has_calls(s) {
            all_fit(Rule::TextsAndCalls, s)
        } else if has_results(s) {
            forall|i: int| 0 <= i < s.len() ==> responses_say_result(#[trigger] s[i])
        } else if s.len() == 1 {
            responses_say_alone(s[0])
        } else {
            all_fit(Rule::TextsAndImages, s)
        },
        Protocol::AnthropicMessages => true,
    }
}

/// Whether a protocol can say all messages.
pub open spec fn are_sayable(target: Protocol, s: Seq<MessageView>) -> bool {
    forall|i: int| 0 <= i < s.len() ==> is_sayable(target, #[trigger] s[i])
}

/// Whether the system's instructions can be said: they are texts.
pub open spec fn is_sayable_system(s: Option<Seq<BlockView>>) -> bool {
    match s {
        Some(b) => all_fit(Rule::Texts, b),
        None => true,
    }
}

/// Whether the way in which a tool is chosen can be said.
pub open spec fn is_sayable_choice(target: Protocol, choice: Option<JsonView>) -> bool {
    match choice {
        Some(c) => c is Null || target != Protocol::Responses || responses_choice(c) is Some,
        None => true,
    }
}

/// The field that holds the messages of a request.
pub open spec fn dialogue_field(entry: Protocol) -> Seq<char> {
    if entry == Protocol::Responses {
        "input"@
    } else {
        "messages"@
    }
}

/// The field that holds the system's instructions.
pub open spec fn system_field(entry: Protocol) -> Seq<char> {
    match entry {
        Protocol::ChatCompletions => "messages"@,
        Protocol::Responses => "instructions"@,
        Protocol::AnthropicMessages => "system"@,
    }
}

/// The fields of a request that a protocol cannot say.
pub open spec fn unsayable(entry: Protocol, target: Protocol, q: RequestView) -> Seq<Seq<char>> {
    (if are_sayable(target, q.messages) {
        Seq::empty()
    } else {
        seq![dialogue_field(entry)]
    }) + (if is_sayable_system(q.system) {
        Seq::empty()
    } else {
        seq![system_field(entry)]
    }) + (if is_sayable_choice(target, q.tool_choice) {
        Seq::empty()
    } else {
        seq!["tool_choice"@]
    })
}

/// Whether all blocks fit.
fn check_fit(rule: Rule, s: &Vec<CanonicalContentBlock>) -> (r: bool)
    ensures
        r == all_fit(rule, blocks(s@)),
{
    broadcast use blocks_are;

    let ghost all = blocks(s@);
    let mut i: usize = 0;
    while i < s.len()
        invariant
            i <= s@.len(),
            all == blocks(s@),
            forall|j: int| 0 <= j < i ==> fits(rule, #[trigger] all[j]),
        decreases s@.len() - i,
    {
        assert(all[i as int] == s@[i as int]@);
        let fit = match (rule, &s[i]) {
            (Rule::Shown, CanonicalContentBlock::Text { .. }) => true,
            (Rule::Shown, CanonicalContentBlock::Reasoning { .. }) => true,
            (Rule::Shown, CanonicalContentBlock::Image { .. }) => true,
            (Rule::Shown, _) => false,
            (Rule::Texts, CanonicalContentBlock::Text { .. }) => true,
            (Rule::Texts, _) => false,
            (Rule::NoCalls, CanonicalContentBlock::ToolUse { .. }) => false,
            (Rule::NoCalls, _) => true,
            (Rule::TextsAndCalls, CanonicalContentBlock::Text { .. }) => true,
            (Rule::TextsAndCalls, CanonicalContentBlock::ToolUse { .. }) => true,
            (Rule::TextsAndCalls, _) => false,
            (Rule::TextsAndImages, CanonicalContentBlock::Text { .. }) => true,
            (Rule::TextsAndImages, CanonicalContentBlock::Image { source }) => match source {
                CanonicalImageSource::Url { .. } => true,
                CanonicalImageSource::Base64 { media_type, .. } => same(media_type, "image/png"),
            },
            (Rule::TextsAndImages, _) => false,
        };
        if !fit {
            return false;
        }
        i += 1;
    }
    true
}

/// Whether Chat Completions can say all tool results of a message.
fn check_chat_results(s: &Vec<CanonicalContentBlock>) -> (r: bool)
    ensures
        r == forall|i: int| 0 <= i < blocks(s@).len() ==> chat_says_result(#[trigger] blocks(s@)[i]),
{
    broadcast use blocks_are;

    let ghost all = blocks(s@);
    let mut i: usize = 0;
    while i < s.len()
        invariant
            i <= s@.len(),
            all == blocks(s@),
            forall|j: int| 0 <= j < i ==> chat_says_result(#[trigger] all[j]),
        decreases s@.len() - i,
    {
        assert(all[i as int] == s@[i as int]@);
        let said = match &s[i] {
            CanonicalContentBlock::ToolResult { tool_use_id: _, content } => {
                let lone_image = content.len() == 1 && match &content[0] {
                    CanonicalContentBlock::Image { .. } => true,
                    _ => false,
                };
                check_fit(Rule::Shown, content) && !lone_image
            },
            _ => false,
        };
        if !said {
            assert(!chat_says_result(all[i as int]));
            return false;
        }
        i += 1;
    }
    true
}

/// Whether Responses can say all blocks of a message that holds tool results.
fn check_responses_results(s: &Vec<CanonicalContentBlock>) -> (r: bool)
    ensures
        r == forall|i: int|
            0 <= i < blocks(s@).len() ==> responses_say_result(#[trigger] blocks(s@)[i]),
{
    broadcast use blocks_are;

    let ghost all = blocks(s@);
    let mut i: usize = 0;
    while i < s.len()
        invariant
            i <= s@.len(),
            all == blocks(s@),
            forall|j: int| 0 <= j < i ==> responses_say_result(#[trigger] all[j]),
        decreases s@.len() - i,
    {
        assert(all[i as int] == s@[i as int]@);
        let said = match &s[i] {
            CanonicalContentBlock::ToolResult { tool_use_id: _, content } => check_fit(
                Rule::Texts,
                content,
            ),
            CanonicalContentBlock::Text { .. } => true,
            _ => false,
        };
        if !said {
            assert(!responses_say_result(all[i as int]));
            return false;
        }
        i += 1;
    }
    true
}

/// Whether a protocol can say all of a message.
fn check_sayable(target: Protocol, m: &CanonicalMessage) -> (r: bool)
    ensures
        r == is_sayable(target, m@),
{
    broadcast use blocks_are;

    if m.role == CanonicalRole::System {
        return false;
    }
    match target {
        Protocol::ChatCompletions => if any_results(&m.content) {
            check_chat_results(&m.content)
        } else {
            m.role == CanonicalRole::Assistant || check_fit(Rule::NoCalls, &m.content)
        },
        Protocol::Responses => if any_calls(&m.content) {
            check_fit(Rule::TextsAndCalls, &m.content)
        } else if any_results(&m.content) {
            check_responses_results(&m.content)
        } else if m.content.len() == 1 {
            match &m.content[0] {
                CanonicalContentBlock::Text { .. } => true,
                CanonicalContentBlock::Image { source } => match source {
                    CanonicalImageSource::Url { url } => !url.as_str().is_empty(),
                    _ => false,
                },
                _ => false,
            }
        } else {
            check_fit(Rule::TextsAndImages, &m.content)
        },
        Protocol::AnthropicMessages => true,
    }
}

/// The fields of a request that a protocol cannot say.
pub fn find_unsayable(entry: Protocol, target: Protocol, q: &CanonicalRequest) -> (r: Vec<String>)
    ensures
        texts(r@) == unsayable(entry, target, q@),
{
    let ghost all = messages(q.messages@);
    let mut said = true;
    let mut i: usize = 0;
    while i < q.messages.len() && said
        invariant
            i <= q.messages@.len(),
            all == messages(q.messages@),
            said ==> forall|j: int| 0 <= j < i ==> is_sayable(target, #[trigger] all[j]),
            !said ==> !are_sayable(target, all),
        decreases q.messages@.len() - i,
    {
        assert(all[i as int] == q.messages@[i as int]@);
        said = check_sayable(target, &q.messages[i]);
        i += 1;
    }
    let system = match &q.system {
        Some(s) => check_fit(Rule::Texts, s),
        None => true,
    };
    let choice = match &q.tool_choice {
        Some(c) => c.is_null() || target != Protocol::Responses
            || normalize_tool_choice_for_responses(c).is_some(),
        None => true,
    };
    let mut out: Vec<String> = Vec::new();
    if !said {
        out.push(
            copy(
                if entry == Protocol::Responses {
                    "input"
                } else {
                    "messages"
                },
            ),
        );
    }
    if !system {
        out.push(
            copy(
                match entry {
                    Protocol::ChatCompletions => "messages",
                    Protocol::Responses => "instructions",
                    Protocol::AnthropicMessages => "system",
                },
            ),
        );
    }
    if !choice {
        out.push(copy("tool_choice"));
    }
    assert(texts(out@) =~= unsayable(entry, target, q@));
    out
}

/// Roles have different names.
proof fn spoken_roles()
    ensures
        "system"@ != "developer"@,
        "system"@ != "user"@,
        "system"@ != "assistant"@,
        "system"@ != "tool"@,
        "developer"@ != "user"@,
        "developer"@ != "assistant"@,
        "developer"@ != "tool"@,
        "user"@ != "assistant"@,
        "user"@ != "tool"@,
        "assistant"@ != "tool"@,
{
    reveal_strlit("system");
    reveal_strlit("developer");
    reveal_strlit("user");
    reveal_strlit("assistant");
    reveal_strlit("tool");
    assert("system"@.len() == 6);
    assert("developer"@.len() == 9);
    assert("user"@.len() == 4);
    assert("assistant"@.len() == 9);
    assert("tool"@.len() == 4);
    assert("developer"@[0] == 'd' && "assistant"@[0] == 'a');
    assert("user"@[0] == 'u' && "tool"@[0] == 't');
}

/// Kinds of pieces have different names.
proof fn piece_kinds()
    ensures
        "text"@ != "image_url"@,
        "text"@ != "input_text"@,
        "text"@ != "output_text"@,
        "text"@ != "reasoning_text"@,
        "text"@ != "summary_text"@,
        "text"@ != "input_image"@,
        "text"@ != "image"@,
        "text"@ != "tool_use"@,
        "text"@ != "thinking"@,
        "text"@ != "tool_result"@,
        "text"@ != "base64"@,
        "text"@ != "url"@,
        "text"@ != "message"@,
        "text"@ != "function_call_output"@,
        "image_url"@ != "input_text"@,
        "image_url"@ != "output_text"@,
        "image_url"@ != "reasoning_text"@,
        "image_url"@ != "summary_text"@,
        "image_url"@ != "input_image"@,
        "image_url"@ != "image"@,
        "image_url"@ != "tool_use"@,
        "image_url"@ != "thinking"@,
        "image_url"@ != "tool_result"@,
        "image_url"@ != "base64"@,
        "image_url"@ != "url"@,
        "image_url"@ != "message"@,
        "image_url"@ != "function_call_output"@,
        "input_text"@ != "output_text"@,
        "input_text"@ != "reasoning_text"@,
        "input_text"@ != "summary_text"@,
        "input_text"@ != "input_image"@,
        "input_text"@ != "image"@,
        "input_text"@ != "tool_use"@,
        "input_text"@ != "thinking"@,
        "input_text"@ != "tool_result"@,
        "input_text"@ != "base64"@,
        "input_text"@ != "url"@,
        "input_text"@ != "message"@,
        "input_text"@ != "function_call_output"@,
        "output_text"@ != "reasoning_text"@,
        "output_text"@ != "summary_text"@,
        "output_text"@ != "input_image"@,
        "output_text"@ != "image"@,
        "output_text"@ != "tool_use"@,
        "output_text"@ != "thinking"@,
        "output_text"@ != "tool_result"@,
        "output_text"@ != "base64"@,
        "output_text"@ != "url"@,
        "output_text"@ != "message"@,
        "output_text"@ != "function_call_output"@,
        "reasoning_text"@ != "summary_text"@,
        "reasoning_text"@ != "input_image"@,
        "reasoning_text"@ != "image"@,
        "reasoning_text"@ != "tool_use"@,
        "reasoning_text"@ != "thinking"@,
        "reasoning_text"@ != "tool_result"@,
        "reasoning_text"@ != "base64"@,
        "reasoning_text"@ != "url"@,
        "reasoning_text"@ != "message"@,
        "reasoning_text"@ != "function_call_output"@,
        "summary_text"@ != "input_image"@,
        "summary_text"@ != "image"@,
        "summary_text"@ != "tool_use"@,
        "summary_text"@ != "thinking"@,
        "summary_text"@ != "tool_result"@,
        "summary_text"@ != "base64"@,
        "summary_text"@ != "url"@,
        "summary_text"@ != "message"@,
        "summary_text"@ != "function_call_output"@,
        "input_image"@ != "image"@,
        "input_image"@ != "tool_use"@,
        "input_image"@ != "thinking"@,
        "input_image"@ != "tool_result"@,
        "input_image"@ != "base64"@,
        "input_image"@ != "url"@,
        "input_image"@ != "message"@,
        "input_image"@ != "function_call_output"@,
        "image"@ != "tool_use"@,
        "image"@ != "thinking"@,
        "image"@ != "tool_result"@,
        "image"@ != "base64"@,
        "image"@ != "url"@,
        "image"@ != "message"@,
        "image"@ != "function_call_output"@,
        "tool_use"@ != "thinking"@,
        "tool_use"@ != "tool_result"@,
        "tool_use"@ != "base64"@,
        "tool_use"@ != "url"@,
        "tool_use"@ != "message"@,
        "tool_use"@ != "function_call_output"@,
        "thinking"@ != "tool_result"@,
        "thinking"@ != "base64"@,
        "thinking"@ != "url"@,
        "thinking"@ != "message"@,
        "thinking"@ != "function_call_output"@,
        "tool_result"@ != "base64"@,
        "tool_result"@ != "url"@,
        "tool_result"@ != "message"@,
        "tool_result"@ != "function_call_output"@,
        "base64"@ != "url"@,
        "base64"@ != "message"@,
        "base64"@ != "function_call_output"@,
        "url"@ != "message"@,
        "url"@ != "function_call_output"@,
        "message"@ != "function_call_output"@,
{
    reveal_strlit("text");
    reveal_strlit("image_url");
    reveal_strlit("input_text");
    reveal_strlit("output_text");
    reveal_strlit("reasoning_text");
    reveal_strlit("summary_text");
    reveal_strlit("input_image");
    reveal_strlit("image");
    reveal_strlit("tool_use");
    reveal_strlit("thinking");
    reveal_strlit("tool_result");
    reveal_strlit("base64");
    reveal_strlit("url");
    reveal_strlit("message");
    reveal_strlit("function_call_output");
    assert("text"@.len() == 4);
    assert("image_url"@.len() == 9);
    assert("input_text"@.len() == 10);
    assert("output_text"@.len() == 11);
    assert("reasoning_text"@.len() == 14);
    assert("summary_text"@.len() == 12);
    assert("input_image"@.len() == 11);
    assert("image"@.len() == 5);
    assert("tool_use"@.len() == 8);
    assert("thinking"@.len() == 8);
    assert("tool_result"@.len() == 11);
    assert("base64"@.len() == 6);
    assert("url"@.len() == 3);
    assert("message"@.len() == 7);
    assert("function_call_output"@.len() == 20);
    assert("output_text"@[0] == 'o' && "input_image"@[0] == 'i');
    assert("output_text"@[0] == 'o' && "tool_result"@[0] == 't');
    assert("input_image"@[0] == 'i' && "tool_result"@[0] == 't');
    assert("tool_use"@[1] == 'o' && "thinking"@[1] == 'h');
}

/// How many of the messages are instructions of the system.
pub open spec fn instructions_among(s: Seq<JsonView>) -> nat
    decreases s.len(),
{
    if s.len() == 0 {
        0
    } else {
        instructions_among(s.drop_last()) + if is_system(s.last()) {
            1nat
        } else {
            0nat
        }
    }
}

proof fn earlier_are_whole(form: Form, s: Seq<JsonView>)
    requires
        s.len() > 0,
        are_whole(form, s),
    ensures
        are_whole(form, s.drop_last()),
        is_whole(form, s.last()),
{
    let t = s.drop_last();
    assert forall|i: int| 0 <= i < t.len() implies is_whole(form, #[trigger] t[i]) by {
        assert(is_whole(form, s[i]));
    }
    assert(is_whole(form, s[s.len() - 1]));
}

/// Of whole Chat Completions messages each one is read, as a message or as the system's
/// instructions.
pub proof fn chat_messages_are_read(s: Seq<JsonView>)
    requires
        are_whole(Form::ChatMessage, s),
    ensures
        dialogue(s).len() + instructions_among(s) == s.len(),
    decreases s.len(),
{
    if s.len() > 0 {
        earlier_are_whole(Form::ChatMessage, s);
        chat_messages_are_read(s.drop_last());
        spoken_roles();
        reveal_strlit("system");
        reveal_strlit("developer");
        reveal_strlit("user");
        reveal_strlit("assistant");
        reveal_strlit("tool");
        assert(s.last().text_at("role"@).len() > 0);
    }
}

/// Of whole items of a Responses request each one is read as a message.
pub proof fn input_items_are_read(s: Seq<JsonView>)
    requires
        are_whole(Form::InputItem, s),
    ensures
        input_messages(s).len() == s.len(),
    decreases s.len(),
{
    if s.len() > 0 {
        earlier_are_whole(Form::InputItem, s);
        input_items_are_read(s.drop_last());
        piece_kinds();
    }
}

/// Whole tools of a Chat Completions request are all read.
pub proof fn chat_tools_are_read(s: Seq<JsonView>)
    requires
        are_whole(Form::ChatTool, s),
        s.len() > 0,
    ensures
        tools_of(JsonView::Array(s)) is Some,
        tools_of(JsonView::Array(s))->Some_0.len() == s.len(),
{
    functions_are_read(s);
    assert forall|i: int| 0 <= i < s.len() implies !lacks_function(#[trigger] s[i]) by {
        assert(is_whole(Form::ChatTool, s[i]));
        assert(s[i].at("function"@) is Object);
    }
}

proof fn functions_are_read(s: Seq<JsonView>)
    requires
        are_whole(Form::ChatTool, s),
    ensures
        functions(s).len() == s.len(),
    decreases s.len(),
{
    if s.len() > 0 {
        earlier_are_whole(Form::ChatTool, s);
        functions_are_read(s.drop_last());
    }
}

/// Whole tools of a Responses request are all read.
pub proof fn flat_tools_are_read(s: Seq<JsonView>)
    requires
        are_whole(Form::FlatTool, s),
    ensures
        flat_tools(s).len() == s.len(),
    decreases s.len(),
{
    if s.len() > 0 {
        earlier_are_whole(Form::FlatTool, s);
        flat_tools_are_read(s.drop_last());
    }
}

/// A whole piece of a message is read as a block, in each protocol, unless it is an empty text.
pub proof fn whole_pieces_are_read(v: JsonView)
    ensures
        is_whole(Form::ChatItem, v) && v.str_at("text"@) != Some(Seq::<char>::empty())
            ==> chat_completions::item_content(v).len() == 1,
        is_whole(Form::Part, v) && v.str_at("text"@) != Some(Seq::<char>::empty()) ==> part_of(v) is Some,
        is_whole(Form::Block, v) && v.str_at("text"@) != Some(Seq::<char>::empty()) && v.str_at(
            "thinking"@,
        ) != Some(Seq::<char>::empty()) ==> anthropic::item_content(v).len() == 1,
{
    piece_kinds();
    match v.str_at("text"@) {
        Some(t) => {
            if t.len() == 0 {
                assert(t =~= Seq::<char>::empty());
            }
        },
        None => {},
    }
    match v.str_at("thinking"@) {
        Some(t) => {
            if t.len() == 0 {
                assert(t =~= Seq::<char>::empty());
            }
        },
        None => {},
    }
}

/// Where a message of several texts and images can be said, Responses writes each of them.
pub proof fn sayable_parts_are_written(s: Seq<BlockView>)
    requires
        all_fit(Rule::TextsAndImages, s),
    ensures
        content_parts(s).len() == s.len(),
    decreases s.len(),
{
    if s.len() > 0 {
        let t = s.drop_last();
        assert forall|i: int| 0 <= i < t.len() implies fits(Rule::TextsAndImages, #[trigger] t[i]) by {
            assert(fits(Rule::TextsAndImages, s[i]));
        }
        assert(fits(Rule::TextsAndImages, s[s.len() - 1]));
        sayable_parts_are_written(t);
    }
}

/// Where a message with tool calls can be said, Responses writes each block of it but the empty
/// texts.
pub proof fn sayable_calls_are_written(s: Seq<BlockView>)
    requires
        all_fit(Rule::TextsAndCalls, s),
        forall|i: int| 0 <= i < s.len() ==> #[trigger] s[i] != (BlockView::Text { text: Seq::empty() }),
    ensures
        calls_items(s).len() == s.len(),
    decreases s.len(),
{
    if s.len() > 0 {
        let t = s.drop_last();
        assert forall|i: int| 0 <= i < t.len() implies fits(Rule::TextsAndCalls, #[trigger] t[i])
            && t[i] != (BlockView::Text { text: Seq::empty() }) by {
            assert(fits(Rule::TextsAndCalls, s[i]));
        }
        let b = s[s.len() - 1];
        assert(fits(Rule::TextsAndCalls, b));
        if b is Text && b->Text_text.len() == 0 {
            assert(b->Text_text =~= Seq::<char>::empty());
        }
        sayable_calls_are_written(t);
    }
}

} // verus!
