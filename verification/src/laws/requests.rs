//! What requests mean: what is read from the body of a request, and what is written for it.
use crate::codec::{json_parse, json_text};
use crate::json::JsonView;
use crate::laws::{has_no_text, number_at, says, says_nothing};
use crate::transform::anthropic;
use crate::transform::canonical::{
    BlockView, CanonicalRole, ImageView, MessageView, ToolView,
};
use crate::transform::chat_completions;
use crate::transform::chat_completions::{data_url, items_at};
use crate::transform::responses;
use crate::transform::survival::limit_field;
use crate::transform::{read_request, Protocol};
use vstd::prelude::*;
use vstd::string::*;

verus! {

/// Whether a value is a list of the given items.
pub open spec fn is_list(v: Option<JsonView>, items: Seq<JsonView>) -> bool {
    v == Some(JsonView::Array(items))
}

/// Whether a value is a given text.
pub open spec fn is_word(v: Option<JsonView>, t: Seq<char>) -> bool {
    v == Some(JsonView::Str(t))
}

/// A Chat Completions message adds one message to those before it where the user, the assistant or
/// a tool speaks; the system adds to the instructions and nothing else; any other role adds nothing.
pub proof fn chat_messages_add_up(body: JsonView, a: Seq<JsonView>, v: JsonView)
    requires
        body is Object,
        body.get("model"@) is Some && body.get("model"@)->Some_0 is Str,
    ensures
        ({
            let before = read_request(Protocol::ChatCompletions, body.with("messages"@, JsonView::Array(a)));
            let after = read_request(
                Protocol::ChatCompletions,
                body.with("messages"@, JsonView::Array(a.push(v))),
            );
            let old_system = match before->Ok_0.system {
                Some(s) => s,
                None => Seq::empty(),
            };
            let new_system = match after->Ok_0.system {
                Some(s) => s,
                None => Seq::empty(),
            };
            &&& before is Ok && after is Ok
            &&& is_word(v.get("role"@), "system"@) || is_word(v.get("role"@), "developer"@) ==> {
                &&& after->Ok_0.messages == before->Ok_0.messages
                &&& new_system == old_system + chat_completions::message_content(v)
            }
            &&& is_word(v.get("role"@), "user"@) || is_word(v.get("role"@), "assistant"@) || is_word(
                v.get("role"@),
                "tool"@,
            ) ==> {
                &&& chat_completions::message_of(v) is Some
                &&& after->Ok_0.messages == before->Ok_0.messages.push(
                    chat_completions::message_of(v)->Some_0,
                )
                &&& new_system == old_system
            }
        }),
{
    reveal_strlit("model");
    reveal_strlit("messages");
    assert("model"@.len() == 5);
    assert("messages"@.len() == 8);
    reveal_strlit("system");
    reveal_strlit("developer");
    reveal_strlit("user");
    reveal_strlit("assistant");
    reveal_strlit("tool");
    assert("system"@.len() == 6);
    assert("developer"@.len() == 9);
    assert("user"@.len() == 4);
    assert("assistant"@.len() == 9);
    assert("tool"@.len() == 4);
    assert("developer"@[0] == 'd' && "assistant"@[0] == 'a');
    assert("user"@[0] == 'u' && "tool"@[0] == 't');
    let b1 = body.with("messages"@, JsonView::Array(a));
    let b2 = body.with("messages"@, JsonView::Array(a.push(v)));
    assert(b1.str_at("model"@) is Some && b2.str_at("model"@) is Some);
    assert(items_at(b1, "messages"@) == a);
    assert(items_at(b2, "messages"@) == a.push(v));
    assert(a.push(v).drop_last() =~= a);
    let s1 = chat_completions::system_content(a);
    assert(s1.len() == 0 ==> s1 =~= Seq::<BlockView>::empty());
    let s2 = chat_completions::system_content(a.push(v));
    assert(s2.len() == 0 ==> s2 =~= Seq::<BlockView>::empty());
}

/// What a tool call of a Chat Completions message is read as: a tool use with its identifier and
/// name, and with the arguments that it holds.
pub open spec fn is_use_of(b: BlockView, call: JsonView) -> bool {
    match (b, call.get("function"@)) {
        (BlockView::ToolUse { id, name, input }, Some(f)) => {
            &&& call.get("id"@) is Some && call.get("id"@)->Some_0 is Str ==> is_word(call.get("id"@), id)
            &&& f.get("name"@) is Some && f.get("name"@)->Some_0 is Str ==> is_word(f.get("name"@), name)
            &&& match f.get("arguments"@) {
                Some(v) => match json_parse(json_text(v)) {
                    Some(x) => input == x,
                    None => input == v,
                },
                None => true,
            }
        },
        _ => false,
    }
}

/// Tool calls of a Chat Completions message are read as tool uses, one by one.
pub proof fn calls_are_uses(a: Seq<JsonView>)
    requires
        forall|i: int| 0 <= i < a.len() ==> (#[trigger] a[i]).get("function"@) is Some,
    ensures
        chat_completions::requested_calls(a).len() == a.len(),
        forall|i: int|
            0 <= i < a.len() ==> is_use_of(#[trigger] chat_completions::requested_calls(a)[i], a[i]),
    decreases a.len(),
{
    if a.len() > 0 {
        let t = a.drop_last();
        assert forall|i: int| 0 <= i < t.len() implies (#[trigger] t[i]).get("function"@) is Some by {
            assert(a[i].get("function"@) is Some);
        }
        calls_are_uses(t);
        assert(a[a.len() - 1].get("function"@) is Some);
        let u = chat_completions::requested_calls(t);
        let all = chat_completions::requested_calls(a);
        assert(all.drop_last() =~= u);
        assert forall|i: int| 0 <= i < a.len() implies is_use_of(#[trigger] all[i], a[i]) by {
            if i < t.len() {
                assert(all[i] == u[i]);
                assert(t[i] == a[i]);
            }
        }
    }
}

/// An assistant that says a text and calls functions is read with the text first and one tool use
/// for each call behind it, in their order; without a text, with the tool uses alone; and without
/// calls, with the text alone.
pub proof fn chat_assistants_are_read(v: JsonView, t: Seq<char>, a: Seq<JsonView>)
    requires
        is_word(v.get("role"@), "assistant"@),
        forall|i: int| 0 <= i < a.len() ==> (#[trigger] a[i]).get("function"@) is Some,
        is_list(v.get("tool_calls"@), a) || (v.get("tool_calls"@) is None && a.len() == 0),
    ensures
        ({
            let m = chat_completions::message_of(v);
            let c = m->Some_0.content;
            &&& m is Some && m->Some_0.role == CanonicalRole::Assistant
            &&& is_word(v.get("content"@), t) && t.len() > 0 ==> {
                &&& c.len() == a.len() + 1
                &&& c[0] == (BlockView::Text { text: t })
                &&& forall|i: int| 0 <= i < a.len() ==> is_use_of(#[trigger] c[i + 1], a[i])
            }
            &&& v.get("content"@) is None || v.get("content"@) == Some(JsonView::Null) || is_word(
                v.get("content"@),
                Seq::empty(),
            ) ==> {
                &&& c.len() == a.len()
                &&& forall|i: int| 0 <= i < a.len() ==> is_use_of(#[trigger] c[i], a[i])
            }
        }),
{
    reveal_strlit("system");
    reveal_strlit("developer");
    reveal_strlit("user");
    reveal_strlit("assistant");
    reveal_strlit("tool");
    assert("system"@.len() == 6);
    assert("developer"@.len() == 9);
    assert("user"@.len() == 4);
    assert("assistant"@.len() == 9);
    assert("tool"@.len() == 4);
    assert("developer"@[0] == 'd' && "assistant"@[0] == 'a');
    assert("user"@[0] == 'u' && "tool"@[0] == 't');
    calls_are_uses(a);
    let u = chat_completions::requested_calls(a);
    let c = chat_completions::message_of(v)->Some_0.content;
    if is_word(v.get("content"@), t) && t.len() > 0 {
        let one = seq![BlockView::Text { text: t }];
        assert(c =~= one + u);
        assert forall|i: int| 0 <= i < a.len() implies is_use_of(#[trigger] c[i + 1], a[i]) by {
            assert(c[i + 1] == u[i]);
        }
    } else if v.get("content"@) is None || v.get("content"@) == Some(JsonView::Null) || is_word(
        v.get("content"@),
        Seq::empty(),
    ) {
        assert(c =~= u);
    }
}

/// What an item of the content of a Chat Completions message says is read as one block: a text as
/// it is, an image by its URL, or by its data where the URL holds them.
pub open spec fn is_block_of(b: BlockView, item: JsonView) -> bool {
    match b {
        BlockView::Text { text } => is_word(item.get("type"@), "text"@) && is_word(item.get("text"@), text),
        BlockView::Image { source } => is_word(item.get("type"@), "image_url"@) && item.get("image_url"@) is Some
            && match source {
            ImageView::Url { url } => is_word(item.get("image_url"@)->Some_0.get("url"@), url),
            ImageView::Base64 { media_type, data } => match item.get("image_url"@)->Some_0.get("url"@) {
                Some(JsonView::Str(u)) => data_url(u) == Some((media_type, data)),
                _ => false,
            },
        },
        _ => false,
    }
}

/// Whether an item of the content of a Chat Completions message says something: a text that is not
/// empty, or an image with a URL.
pub open spec fn is_speaking_item(item: JsonView) -> bool {
    (is_word(item.get("type"@), "text"@) && !says_nothing(item, "text"@)) || (is_word(
        item.get("type"@),
        "image_url"@,
    ) && item.get("image_url"@) is Some && !has_no_text(item.get("image_url"@)->Some_0, "url"@))
}

proof fn items_are_blocks(a: Seq<JsonView>)
    requires
        forall|i: int| 0 <= i < a.len() ==> is_speaking_item(#[trigger] a[i]),
    ensures
        chat_completions::items_content(a).len() == a.len(),
        forall|i: int| 0 <= i < a.len() ==> is_block_of(#[trigger] chat_completions::items_content(a)[i], a[i]),
    decreases a.len(),
{
    if a.len() > 0 {
        reveal_strlit("text");
        reveal_strlit("image_url");
        assert("text"@.len() == 4);
        assert("image_url"@.len() == 9);
        let t = a.drop_last();
        assert forall|i: int| 0 <= i < t.len() implies is_speaking_item(#[trigger] t[i]) by {
            assert(is_speaking_item(a[i]));
        }
        items_are_blocks(t);
        assert(is_speaking_item(a[a.len() - 1]));
        let u = chat_completions::items_content(t);
        let all = chat_completions::items_content(a);
        assert forall|i: int| 0 <= i < a.len() implies is_block_of(#[trigger] all[i], a[i]) by {
            if i < t.len() {
                assert(all[i] == u[i]);
                assert(t[i] == a[i]);
            }
        }
    }
}

/// The content of a user of a Chat Completions request is read item by item, in order.
pub proof fn chat_users_are_read(v: JsonView, a: Seq<JsonView>, t: Seq<char>)
    requires
        is_word(v.get("role"@), "user"@),
        forall|i: int| 0 <= i < a.len() ==> is_speaking_item(#[trigger] a[i]),
    ensures
        ({
            let m = chat_completions::message_of(v);
            let c = m->Some_0.content;
            &&& m is Some && m->Some_0.role == CanonicalRole::User
            &&& is_list(v.get("content"@), a) ==> c.len() == a.len() && forall|i: int|
                0 <= i < a.len() ==> is_block_of(#[trigger] c[i], a[i])
            &&& says(v, "content"@, t) ==> c == seq![BlockView::Text { text: t }]
        }),
{
    reveal_strlit("system");
    reveal_strlit("developer");
    reveal_strlit("user");
    reveal_strlit("assistant");
    reveal_strlit("tool");
    assert("system"@.len() == 6);
    assert("developer"@.len() == 9);
    assert("user"@.len() == 4);
    assert("assistant"@.len() == 9);
    assert("tool"@.len() == 4);
    assert("developer"@[0] == 'd' && "assistant"@[0] == 'a');
    assert("user"@[0] == 'u' && "tool"@[0] == 't');
    items_are_blocks(a);
    let c = chat_completions::message_of(v)->Some_0.content;
    if is_list(v.get("content"@), a) {
        assert(c =~= chat_completions::items_content(a));
    }
    if says(v, "content"@, t) {
        assert(c =~= seq![BlockView::Text { text: t }]);
    }
}

/// What the answer of a tool is read as: a result for the call that it names, with the text that it
/// holds, from the user.
pub proof fn chat_tool_answers_are_read(v: JsonView, id: Seq<char>, t: Seq<char>)
    requires
        is_word(v.get("role"@), "tool"@),
        is_word(v.get("tool_call_id"@), id),
        says(v, "content"@, t),
    ensures
        chat_completions::message_of(v) == Some(
            MessageView {
                role: CanonicalRole::User,
                content: seq![
                    BlockView::ToolResult {
                        tool_use_id: id,
                        content: seq![BlockView::Text { text: t }],
                    },
                ],
            },
        ),
{
}

/// Whether a tool that is read is the one that a description gives.
pub open spec fn is_described(t: ToolView, name: Option<JsonView>, description: Option<JsonView>, schema: Option<JsonView>) -> bool {
    &&& name is Some && name->Some_0 is Str ==> is_word(name, t.name)
    &&& t.description == match description {
        Some(JsonView::Str(d)) => Some(d),
        _ => None,
    }
    &&& t.input_schema == match schema {
        Some(s) => s,
        None => JsonView::object(),
    }
}

proof fn chat_functions_are_read(a: Seq<JsonView>)
    requires
        forall|i: int|
            0 <= i < a.len() ==> is_word((#[trigger] a[i]).get("type"@), "function"@) && a[i].get(
                "function"@,
            ) is Some,
    ensures
        ({
            let r = chat_completions::functions(a);
            &&& r.len() == a.len()
            &&& forall|i: int|
                0 <= i < a.len() ==> is_described(
                    #[trigger] r[i],
                    a[i].get("function"@)->Some_0.get("name"@),
                    a[i].get("function"@)->Some_0.get("description"@),
                    a[i].get("function"@)->Some_0.get("parameters"@),
                )
        }),
    decreases a.len(),
{
    if a.len() > 0 {
        let t = a.drop_last();
        assert forall|i: int| 0 <= i < t.len() implies is_word((#[trigger] t[i]).get("type"@), "function"@)
            && t[i].get("function"@) is Some by {
            assert(is_word(a[i].get("type"@), "function"@));
        }
        chat_functions_are_read(t);
        assert(is_word(a[a.len() - 1].get("type"@), "function"@));
        let u = chat_completions::functions(t);
        let r = chat_completions::functions(a);
        assert forall|i: int| 0 <= i < a.len() implies is_described(
            #[trigger] r[i],
            a[i].get("function"@)->Some_0.get("name"@),
            a[i].get("function"@)->Some_0.get("description"@),
            a[i].get("function"@)->Some_0.get("parameters"@),
        ) by {
            if i < t.len() {
                assert(r[i] == u[i]);
                assert(t[i] == a[i]);
            }
        }
    }
}

/// The tools of a Chat Completions request are read one by one, each with its name, description and
/// parameters.
pub proof fn chat_tools_are_described(body: JsonView, a: Seq<JsonView>)
    requires
        read_request(Protocol::ChatCompletions, body) is Ok,
        is_list(body.get("tools"@), a),
        a.len() > 0,
        forall|i: int|
            0 <= i < a.len() ==> is_word((#[trigger] a[i]).get("type"@), "function"@) && a[i].get(
                "function"@,
            ) is Some,
    ensures
        ({
            let r = read_request(Protocol::ChatCompletions, body)->Ok_0.tools;
            &&& r is Some && r->Some_0.len() == a.len()
            &&& forall|i: int|
                0 <= i < a.len() ==> is_described(
                    #[trigger] r->Some_0[i],
                    a[i].get("function"@)->Some_0.get("name"@),
                    a[i].get("function"@)->Some_0.get("description"@),
                    a[i].get("function"@)->Some_0.get("parameters"@),
                )
        }),
{
    chat_functions_are_read(a);
    assert forall|i: int| 0 <= i < a.len() implies !chat_completions::lacks_function(#[trigger] a[i]) by {
        assert(is_word(a[i].get("type"@), "function"@));
    }
}

proof fn flat_functions_are_read(a: Seq<JsonView>)
    requires
        forall|i: int| 0 <= i < a.len() ==> is_word((#[trigger] a[i]).get("type"@), "function"@),
    ensures
        ({
            let r = responses::flat_tools(a);
            &&& r.len() == a.len()
            &&& forall|i: int|
                0 <= i < a.len() ==> is_described(
                    #[trigger] r[i],
                    a[i].get("name"@),
                    a[i].get("description"@),
                    a[i].get("parameters"@),
                )
        }),
    decreases a.len(),
{
    if a.len() > 0 {
        let t = a.drop_last();
        assert forall|i: int| 0 <= i < t.len() implies is_word((#[trigger] t[i]).get("type"@), "function"@) by {
            assert(is_word(a[i].get("type"@), "function"@));
        }
        flat_functions_are_read(t);
        assert(is_word(a[a.len() - 1].get("type"@), "function"@));
        let u = responses::flat_tools(t);
        let r = responses::flat_tools(a);
        assert forall|i: int| 0 <= i < a.len() implies is_described(
            #[trigger] r[i],
            a[i].get("name"@),
            a[i].get("description"@),
            a[i].get("parameters"@),
        ) by {
            if i < t.len() {
                assert(r[i] == u[i]);
                assert(t[i] == a[i]);
            }
        }
    }
}

/// The tools of Responses and Anthropic requests are read one by one, each with its name,
/// description and parameters.
pub proof fn other_tools_are_described(body: JsonView, a: Seq<JsonView>)
    requires
        is_list(body.get("tools"@), a),
        a.len() > 0,
    ensures
        ({
            let q = read_request(Protocol::Responses, body);
            let r = q->Ok_0.tools;
            q is Ok && (forall|i: int|
                0 <= i < a.len() ==> is_word((#[trigger] a[i]).get("type"@), "function"@)) ==> r is Some
                && r->Some_0.len() == a.len() && forall|i: int|
                0 <= i < a.len() ==> is_described(
                    #[trigger] r->Some_0[i],
                    a[i].get("name"@),
                    a[i].get("description"@),
                    a[i].get("parameters"@),
                )
        }),
        ({
            let q = read_request(Protocol::AnthropicMessages, body);
            let r = q->Ok_0.tools;
            q is Ok ==> r is Some && r->Some_0.len() == a.len() && forall|i: int|
                0 <= i < a.len() ==> is_described(
                    #[trigger] r->Some_0[i],
                    a[i].get("name"@),
                    a[i].get("description"@),
                    a[i].get("input_schema"@),
                )
        }),
{
    if forall|i: int| 0 <= i < a.len() ==> is_word((#[trigger] a[i]).get("type"@), "function"@) {
        flat_functions_are_read(a);
    }
    let t = anthropic::tools_of(a);
    assert(t.len() == a.len());
    assert forall|i: int| 0 <= i < a.len() implies is_described(
        #[trigger] t[i],
        a[i].get("name"@),
        a[i].get("description"@),
        a[i].get("input_schema"@),
    ) by {
    }
}

/// What a request says beside its messages is read from the field of its own name: the model, the
/// limit on tokens, the temperature and the like.
pub proof fn settings_are_read(protocol: Protocol, body: JsonView)
    ensures
        ({
            let r = read_request(protocol, body);
            let q = r->Ok_0;
            &&& protocol == Protocol::Responses ==> (r is Ok <==> !says_nothing(body, "model"@))
            &&& protocol != Protocol::Responses ==> (r is Ok <==> !has_no_text(body, "model"@))
            &&& r is Ok ==> {
                &&& is_word(body.get("model"@), q.model)
                &&& q.stream <==> body.get("stream"@) == Some(JsonView::Bool(true))
                &&& q.tool_choice == body.get("tool_choice"@)
                &&& q.temperature == match body.get("temperature"@) {
                    Some(JsonView::Number(n)) => Some(n.double()),
                    _ => None,
                }
                &&& q.top_p == match body.get("top_p"@) {
                    Some(JsonView::Number(n)) => Some(n.double()),
                    _ => None,
                }
                &&& protocol != Protocol::ChatCompletions ==> q.max_tokens == number_at(
                    body,
                    limit_field(protocol),
                )
                &&& protocol == Protocol::ChatCompletions ==> q.max_tokens == (if number_at(
                    body,
                    "max_tokens"@,
                ) is Some {
                    number_at(body, "max_tokens"@)
                } else {
                    number_at(body, "max_completion_tokens"@)
                })
                &&& protocol == Protocol::AnthropicMessages ==> q.reasoning_effort is None
                &&& protocol != Protocol::AnthropicMessages ==> q.reasoning_effort == match body.get(
                    "reasoning_effort"@,
                ) {
                    Some(JsonView::Str(e)) => Some(e),
                    _ => match body.get("reasoning"@) {
                        Some(o) => match o.get("effort"@) {
                            Some(JsonView::Str(e)) => Some(e),
                            _ => None,
                        },
                        None => None,
                    },
                }
                &&& q.unmapped.len() == 0
            }
        }),
{
}

proof fn texts_are_strings(t: Seq<Seq<char>>)
    ensures
        chat_completions::strings_among(t.map_values(|x: Seq<char>| JsonView::Str(x))) == t,
    decreases t.len(),
{
    let j = t.map_values(|x: Seq<char>| JsonView::Str(x));
    if t.len() == 0 {
        assert(t =~= Seq::<Seq<char>>::empty());
    } else {
        texts_are_strings(t.drop_last());
        assert(j.drop_last() =~= t.drop_last().map_values(|x: Seq<char>| JsonView::Str(x)));
        assert(t =~= t.drop_last().push(t.last()));
    }
}

/// Stop sequences are read in their order; a Chat Completions request may give one alone.
pub proof fn stops_are_read(protocol: Protocol, body: JsonView, t: Seq<Seq<char>>)
    requires
        read_request(protocol, body) is Ok,
        t.len() > 0,
        is_list(
            body.get(
                if protocol == Protocol::ChatCompletions {
                    "stop"@
                } else {
                    "stop_sequences"@
                },
            ),
            t.map_values(|x: Seq<char>| JsonView::Str(x)),
        ) || (protocol == Protocol::ChatCompletions && t.len() == 1 && says(body, "stop"@, t[0])),
    ensures
        read_request(protocol, body)->Ok_0.stop_sequences == Some(t),
{
    texts_are_strings(t);
    assert(t.len() == 1 ==> t =~= seq![t[0]]);
}

/// What a block of an Anthropic message is read as: texts, reasoning, images, tool uses and tool
/// results, each with what it holds.
pub proof fn anthropic_blocks_are_read(v: JsonView, t: Seq<char>, id: Seq<char>, name: Seq<char>)
    ensures
        is_word(v.get("type"@), "text"@) && says(v, "text"@, t) ==> anthropic::item_content(v) == seq![
            BlockView::Text { text: t },
        ],
        is_word(v.get("type"@), "thinking"@) && says(v, "thinking"@, t) ==> anthropic::item_content(v)
            == seq![BlockView::Reasoning { text: t }],
        is_word(v.get("type"@), "tool_use"@) && is_word(v.get("id"@), id) && is_word(v.get("name"@), name)
            ==> anthropic::item_content(v) == seq![
            BlockView::ToolUse {
                id,
                name,
                input: match v.get("input"@) {
                    Some(i) => i,
                    None => JsonView::object(),
                },
            },
        ],
        is_word(v.get("type"@), "tool_result"@) && is_word(v.get("tool_use_id"@), id) && says(
            v,
            "content"@,
            t,
        ) ==> anthropic::item_content(v) == seq![
            BlockView::ToolResult { tool_use_id: id, content: seq![BlockView::Text { text: t }] },
        ],
        is_word(v.get("type"@), "image"@) && v.get("source"@) is Some && is_word(
            v.get("source"@)->Some_0.get("type"@),
            "url"@,
        ) && is_word(v.get("source"@)->Some_0.get("url"@), t) ==> anthropic::item_content(v) == seq![
            BlockView::Image { source: ImageView::Url { url: t } },
        ],
        is_word(v.get("type"@), "image"@) && v.get("source"@) is Some && is_word(
            v.get("source"@)->Some_0.get("type"@),
            "base64"@,
        ) && is_word(v.get("source"@)->Some_0.get("media_type"@), name) && is_word(
            v.get("source"@)->Some_0.get("data"@),
            t,
        ) ==> anthropic::item_content(v) == seq![
            BlockView::Image { source: ImageView::Base64 { media_type: name, data: t } },
        ],
{
    reveal_strlit("text");
    reveal_strlit("image");
    reveal_strlit("tool_use");
    reveal_strlit("thinking");
    reveal_strlit("tool_result");
    assert("text"@.len() == 4);
    assert("image"@.len() == 5);
    assert("tool_use"@.len() == 8);
    assert("thinking"@.len() == 8);
    assert("tool_result"@.len() == 11);
    assert("tool_use"@[1] == 'o' && "thinking"@[1] == 'h');
    reveal_strlit("base64");
    reveal_strlit("url");
    assert("base64"@.len() == 6);
    assert("url"@.len() == 3);
}

/// The result of a tool in an Anthropic message holds what the items of its list hold, in order.
pub proof fn anthropic_results_are_read(v: JsonView, id: Seq<char>, a: Seq<JsonView>)
    requires
        is_word(v.get("type"@), "tool_result"@),
        is_word(v.get("tool_use_id"@), id),
        is_list(v.get("content"@), a),
    ensures
        anthropic::item_content(v) == seq![
            BlockView::ToolResult { tool_use_id: id, content: anthropic::items_content(a) },
        ],
{
    reveal_strlit("text");
    reveal_strlit("image");
    reveal_strlit("tool_use");
    reveal_strlit("thinking");
    reveal_strlit("tool_result");
    assert("text"@.len() == 4);
    assert("image"@.len() == 5);
    assert("tool_use"@.len() == 8);
    assert("thinking"@.len() == 8);
    assert("tool_result"@.len() == 11);
    assert("tool_use"@[1] == 'o' && "thinking"@[1] == 'h');
}

/// The items of a list of an Anthropic request add up to what each of them holds.
pub proof fn anthropic_items_add_up(a: Seq<JsonView>, b: Seq<JsonView>)
    ensures
        anthropic::items_content(a + b) == anthropic::items_content(a) + anthropic::items_content(b),
        forall|v: JsonView| anthropic::items_content(seq![v]) == #[trigger] anthropic::item_content(v),
    decreases b.len(),
{
    let first = anthropic::items_content(a);
    if b.len() == 0 {
        assert(a + b =~= a);
        assert(first + anthropic::items_content(b) =~= first);
    } else {
        anthropic_items_add_up(a, b.drop_last());
        assert((a + b).drop_last() =~= a + b.drop_last());
        assert(anthropic::items_content(a + b) =~= first + anthropic::items_content(b));
    }
    assert forall|v: JsonView| anthropic::items_content(seq![v]) == #[trigger] anthropic::item_content(v) by {
        reveal_with_fuel(anthropic::items_content, 2);
        assert(seq![v].drop_last() =~= Seq::<JsonView>::empty());
        assert(anthropic::items_content(seq![v]) =~= anthropic::item_content(v));
    }
}

/// Every message of an Anthropic request is read, from whom it is and with what it holds.
pub proof fn anthropic_messages_are_read(body: JsonView, a: Seq<JsonView>, i: int, t: Seq<char>)
    requires
        read_request(Protocol::AnthropicMessages, body) is Ok,
        is_list(body.get("messages"@), a),
        0 <= i < a.len(),
    ensures
        ({
            let s = read_request(Protocol::AnthropicMessages, body)->Ok_0.messages;
            &&& s.len() == a.len()
            &&& s[i].role == CanonicalRole::Assistant <==> is_word(a[i].get("role"@), "assistant"@)
            &&& s[i].role != CanonicalRole::System
            &&& says(a[i], "content"@, t) ==> s[i].content == seq![BlockView::Text { text: t }]
            &&& a[i].get("content"@) is Some && a[i].get("content"@)->Some_0 is Array ==> s[i].content
                == anthropic::items_content(a[i].get("content"@)->Some_0->Array_0)
        }),
{
    reveal_strlit("user");
    reveal_strlit("assistant");
    assert("user"@.len() == 4);
    assert("assistant"@.len() == 9);
}

/// The instructions of an Anthropic request are read from its system field, those of a Responses
/// request from its instructions.
pub proof fn instructions_are_read(body: JsonView, t: Seq<char>, a: Seq<JsonView>)
    ensures
        read_request(Protocol::AnthropicMessages, body) is Ok ==> {
            let s = read_request(Protocol::AnthropicMessages, body)->Ok_0.system;
            &&& says(body, "system"@, t) ==> s == Some(seq![BlockView::Text { text: t }])
            &&& is_list(body.get("system"@), a) && anthropic::items_content(a).len() > 0 ==> s == Some(
                anthropic::items_content(a),
            )
            &&& body.get("system"@) is None ==> s is None
        },
        read_request(Protocol::Responses, body) is Ok ==> {
            let s = read_request(Protocol::Responses, body)->Ok_0.system;
            &&& says(body, "instructions"@, t) ==> s == Some(seq![BlockView::Text { text: t }])
            &&& says_nothing(body, "instructions"@) ==> s is None
        },
{
}

/// What a piece of the content of a Responses message is read as.
pub proof fn responses_parts_are_read(v: JsonView, t: Seq<char>)
    ensures
        (is_word(v.get("type"@), "input_text"@) || is_word(v.get("type"@), "output_text"@) || is_word(
            v.get("type"@),
            "text"@,
        )) && says(v, "text"@, t) ==> responses::part_of(v) == Some(BlockView::Text { text: t }),
        (is_word(v.get("type"@), "reasoning_text"@) || is_word(v.get("type"@), "summary_text"@)) && says(
            v,
            "text"@,
            t,
        ) ==> responses::part_of(v) == Some(BlockView::Reasoning { text: t }),
        is_word(v.get("type"@), "input_image"@) && is_word(v.get("image_url"@), t) ==> responses::part_of(v)
            == Some(BlockView::Image { source: ImageView::Url { url: t } }),
        is_word(v.get("type"@), "image_url"@) && v.get("image_url"@) is Some && is_word(
            v.get("image_url"@)->Some_0.get("url"@),
            t,
        ) ==> responses::part_of(v) == Some(BlockView::Image { source: ImageView::Url { url: t } }),
        is_word(v.get("type"@), "input_image"@) && has_no_text(v, "image_url"@) && is_word(v.get("data"@), t)
            && has_no_text(v, "format"@) ==> responses::part_of(v) == Some(
            BlockView::Image {
                source: ImageView::Base64 { media_type: "image/"@ + "png"@, data: t },
            },
        ),
        forall|f: Seq<char>|
            is_word(v.get("type"@), "input_image"@) && has_no_text(v, "image_url"@) && is_word(
                v.get("data"@),
                t,
            ) && #[trigger] is_word(v.get("format"@), f) ==> responses::part_of(v) == Some(
                BlockView::Image {
                    source: ImageView::Base64 { media_type: "image/"@ + f, data: t },
                },
            ),
{
    reveal_strlit("text");
    reveal_strlit("input_text");
    reveal_strlit("output_text");
    reveal_strlit("reasoning_text");
    reveal_strlit("summary_text");
    reveal_strlit("image_url");
    reveal_strlit("input_image");
    assert("text"@.len() == 4);
    assert("input_text"@.len() == 10);
    assert("output_text"@.len() == 11);
    assert("reasoning_text"@.len() == 14);
    assert("summary_text"@.len() == 12);
    assert("image_url"@.len() == 9);
    assert("input_image"@.len() == 11);
    assert("output_text"@[0] == 'o' && "input_image"@[0] == 'i');
}

/// The pieces of the content of a Responses message are read in order; one that says nothing is
/// passed over.
pub proof fn responses_parts_add_up(a: Seq<JsonView>, v: JsonView)
    ensures
        responses::parts_of(a.push(v)) == match responses::part_of(v) {
            Some(b) => responses::parts_of(a).push(b),
            None => responses::parts_of(a),
        },
        responses::parts_of(Seq::empty()).len() == 0,
{
    assert(a.push(v).drop_last() =~= a);
}

/// The items of a Responses request add up: a message adds a message, the output of a function a
/// tool result for its call; the messages before it are not touched.
pub proof fn responses_items_add_up(body: JsonView, a: Seq<JsonView>, v: JsonView, id: Seq<char>, t: Seq<char>)
    requires
        body is Object,
        !says_nothing(body, "model"@),
    ensures
        ({
            let before = read_request(Protocol::Responses, body.with("input"@, JsonView::Array(a)));
            let after = read_request(Protocol::Responses, body.with("input"@, JsonView::Array(a.push(v))));
            &&& before is Ok && after is Ok
            &&& is_word(v.get("type"@), "message"@) ==> {
                let m = after->Ok_0.messages.last();
                &&& after->Ok_0.messages.len() == before->Ok_0.messages.len() + 1
                &&& after->Ok_0.messages.drop_last() == before->Ok_0.messages
                &&& m.role == CanonicalRole::Assistant <==> is_word(v.get("role"@), "assistant"@)
                &&& m.role == CanonicalRole::System <==> is_word(v.get("role"@), "system"@)
                &&& says(v, "content"@, t) ==> m.content == seq![BlockView::Text { text: t }]
                &&& v.get("content"@) is Some && v.get("content"@)->Some_0 is Array ==> m.content
                    == responses::parts_of(v.get("content"@)->Some_0->Array_0)
            }
            &&& is_word(v.get("type"@), "function_call_output"@) && says(v, "call_id"@, id) && says(
                v,
                "output"@,
                t,
            ) ==> after->Ok_0.messages == before->Ok_0.messages.push(
                MessageView {
                    role: CanonicalRole::User,
                    content: seq![
                        BlockView::ToolResult {
                            tool_use_id: id,
                            content: seq![BlockView::Text { text: t }],
                        },
                    ],
                },
            )
        }),
        ({
            let r = read_request(Protocol::Responses, body.with("input"@, JsonView::Str(t)));
            &&& r is Ok
            &&& t.len() > 0 ==> r->Ok_0.messages == seq![
                MessageView {
                    role: CanonicalRole::User,
                    content: seq![BlockView::Text { text: t }],
                },
            ]
        }),
{
    reveal_strlit("model");
    reveal_strlit("input");
    assert("model"@.len() == 5);
    assert("input"@.len() == 5);
    assert("model"@[0] == 'm' && "input"@[0] == 'i');
    reveal_strlit("message");
    reveal_strlit("function_call_output");
    assert("message"@.len() == 7);
    assert("function_call_output"@.len() == 20);
    reveal_strlit("assistant");
    reveal_strlit("system");
    assert("assistant"@.len() == 9);
    assert("system"@.len() == 6);
    let b1 = body.with("input"@, JsonView::Array(a));
    let b2 = body.with("input"@, JsonView::Array(a.push(v)));
    assert(b1.at("input"@) == JsonView::Array(a) && b2.at("input"@) == JsonView::Array(a.push(v)));
    assert(body.with("input"@, JsonView::Str(t)).at("input"@) == JsonView::Str(t));
    assert(a.push(v).drop_last() =~= a);
    let s = responses::input_messages(a);
    assert(is_word(v.get("type"@), "message"@) ==> responses::input_message(v) is Some);
    if responses::input_message(v) is Some {
        assert(s.push(responses::input_message(v)->Some_0).drop_last() =~= s);
    }
}

} // verus!
