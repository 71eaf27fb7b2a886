//! Request bodies for the two hosted wire formats.
use vstd::prelude::*;

use crate::json::{field, keys_of, lemma_member_at, text_field, JsonNumber, JsonValue};
use crate::providers::{
    option_model, role_text, CompletionRequest, Function, FunctionCallOption, Message, MessageRole,
};
use crate::text::{push_text, text_copy};

verus! {

/// The texts of some pairs of strings.
pub open spec fn pair_texts(ps: Seq<(String, String)>) -> Seq<(Seq<char>, Seq<char>)> {
    ps.map_values(|p: (String, String)| (p.0@, p.1@))
}

/// The role and content of each message, for an OpenAI-style body.
pub open spec fn chat_pairs(ms: Seq<Message>) -> Seq<(Seq<char>, Seq<char>)> {
    ms.map_values(|m: Message| (role_text(m.role), m.content@))
}

/// An Anthropic-style conversation: the system text (the last system
/// message's), and the other messages with their roles; function results go
/// as user messages, marked as such.
pub open spec fn anthropic_split(ms: Seq<Message>) -> (Option<Seq<char>>, Seq<(Seq<char>, Seq<char>)>)
    decreases ms.len(),
{
    if ms.len() == 0 {
        (None, seq![])
    } else {
        let (sys, out) = anthropic_split(ms.drop_last());
        let m = ms.last();
        match m.role {
            MessageRole::System => (Some(m.content@), out),
            MessageRole::User => (sys, out.push(("user"@, m.content@))),
            MessageRole::Assistant => (sys, out.push(("assistant"@, m.content@))),
            MessageRole::Function => (sys, out.push(("user"@, "Function result: "@ + m.content@))),
        }
    }
}

/// The role and content of each message, for an OpenAI-style body.
pub fn chat_messages(messages: &Vec<Message>) -> (r: Vec<(String, String)>)
    ensures
        pair_texts(r@) == chat_pairs(messages@),
{
    let mut out: Vec<(String, String)> = Vec::new();
    let mut i: usize = 0;
    while i < messages.len()
        invariant
            i <= messages@.len(),
            pair_texts(out@) == chat_pairs(messages@.subrange(0, i as int)),
        decreases messages@.len() - i,
    {
        let ghost prev = out@;
        let m = &messages[i];
        let pair = (text_copy(m.role.wire_name()), m.content.clone());
        out.push(pair);
        proof {
            let a = pair_texts(out@);
            let b = chat_pairs(messages@.subrange(0, i + 1));
            assert(pair_texts(prev).len() == i);
            assert forall|j: int| 0 <= j < a.len() implies a[j] == b[j] by {
                if j < i {
                    assert(out@[j] == prev[j]);
                    assert(pair_texts(prev)[j] == chat_pairs(messages@.subrange(0, i as int))[j]);
                }
            }
            assert(a =~= b);
        }
        i = i + 1;
    }
    assert(messages@.subrange(0, messages@.len() as int) =~= messages@);
    out
}

/// The system text and the messages of an Anthropic-style body.
pub fn anthropic_messages(messages: &Vec<Message>) -> (r: (Option<String>, Vec<(String, String)>))
    ensures
        (crate::providers::opt_text(r.0), pair_texts(r.1@)) == anthropic_split(messages@),
{
    let mut system: Option<String> = None;
    let mut out: Vec<(String, String)> = Vec::new();
    let mut i: usize = 0;
    while i < messages.len()
        invariant
            i <= messages@.len(),
            (crate::providers::opt_text(system), pair_texts(out@)) == anthropic_split(messages@.subrange(0, i as int)),
        decreases messages@.len() - i,
    {
        proof {
            let p = messages@.subrange(0, i + 1);
            assert(p.drop_last() =~= messages@.subrange(0, i as int));
            assert(p.last() == messages@[i as int]);
        }
        let ghost prev = out@;
        let m = &messages[i];
        match m.role {
            MessageRole::System => {
                system = Some(m.content.clone());
            },
            _ => {
                let role = match m.role {
                    MessageRole::Assistant => text_copy("assistant"),
                    _ => text_copy("user"),
                };
                let content = match m.role {
                    MessageRole::Function => {
                        let mut c = text_copy("Function result: ");
                        push_text(&mut c, m.content.as_str());
                        c
                    },
                    _ => m.content.clone(),
                };
                out.push((role, content));
                proof {
                    assert(pair_texts(out@) =~= pair_texts(prev).push((out@.last().0@, out@.last().1@)));
                }
            },
        }
        i = i + 1;
    }
    assert(messages@.subrange(0, messages@.len() as int) =~= messages@);
    (system, out)
}

/// A JSON string.
fn json_str(s: String) -> (r: JsonValue)
    ensures
        r == JsonValue::Str(s),
{
    JsonValue::Str(s)
}

/// `{role, content}`.
fn message_object(role: String, content: String) -> (r: JsonValue)
    ensures
        text_field(r, "role"@) == Some(role@),
        text_field(r, "content"@) == Some(content@),
{
    let mut m: Vec<(String, JsonValue)> = Vec::new();
    m.push((text_copy("role"), json_str(role)));
    m.push((text_copy("content"), json_str(content)));
    proof {
        reveal_strlit("role");
        reveal_strlit("content");
        assert("role"@.len() == 4 && "content"@.len() == 7);
        assert(keys_of(m@)[0] != keys_of(m@)[1]);
        lemma_member_at(m@, "role"@);
        lemma_member_at(m@, "content"@);
    }
    JsonValue::Object(m)
}

/// Whether `items` are the `{role, content}` objects of `pairs`, in order.
pub open spec fn messages_match(items: Seq<JsonValue>, pairs: Seq<(Seq<char>, Seq<char>)>) -> bool {
    &&& items.len() == pairs.len()
    &&& forall|i: int| 0 <= i < items.len() ==> text_field(#[trigger] items[i], "role"@) == Some(pairs[i].0)
        && text_field(items[i], "content"@) == Some(pairs[i].1)
}

/// The array of `{role, content}` objects.
fn messages_array(pairs: Vec<(String, String)>) -> (r: Vec<JsonValue>)
    ensures
        messages_match(r@, pair_texts(pairs@)),
{
    let ghost all = pair_texts(pairs@);
    let mut pairs = pairs;
    let mut rev: Vec<JsonValue> = Vec::new();
    while pairs.len() > 0
        invariant
            all.len() == rev@.len() + pairs@.len(),
            forall|i: int| 0 <= i < pairs@.len() ==> (pairs@[i].0@, pairs@[i].1@) == all[i],
            forall|i: int| 0 <= i < rev@.len() ==> text_field(#[trigger] rev@[i], "role"@) == Some(all[all.len() - 1 - i].0)
                && text_field(rev@[i], "content"@) == Some(all[all.len() - 1 - i].1),
        decreases pairs@.len(),
    {
        let (role, content) = pairs.pop().unwrap();
        rev.push(message_object(role, content));
    }
    let mut out: Vec<JsonValue> = Vec::new();
    while rev.len() > 0
        invariant
            all.len() == rev@.len() + out@.len(),
            forall|i: int| 0 <= i < rev@.len() ==> text_field(#[trigger] rev@[i], "role"@) == Some(all[all.len() - 1 - i].0)
                && text_field(rev@[i], "content"@) == Some(all[all.len() - 1 - i].1),
            forall|i: int| 0 <= i < out@.len() ==> text_field(#[trigger] out@[i], "role"@) == Some(all[i].0)
                && text_field(out@[i], "content"@) == Some(all[i].1),
        decreases rev@.len(),
    {
        let v = rev.pop().unwrap();
        out.push(v);
    }
    out
}

/// Whether `v` is the JSON form of function `f`.
pub open spec fn function_matches(v: JsonValue, f: Function) -> bool {
    &&& text_field(v, "name"@) == Some(f.name@)
    &&& text_field(v, "description"@) == Some(f.description@)
    &&& field(v, "parameters"@) == Some(f.parameters)
}

/// `{name, description, parameters}`.
fn function_object(f: Function) -> (r: JsonValue)
    ensures
        function_matches(r, f),
{
    let ghost g = f;
    let mut m: Vec<(String, JsonValue)> = Vec::new();
    m.push((text_copy("name"), json_str(f.name)));
    m.push((text_copy("description"), json_str(f.description)));
    m.push((text_copy("parameters"), f.parameters));
    proof {
        reveal_strlit("name");
        reveal_strlit("description");
        reveal_strlit("parameters");
        assert("name"@.len() == 4 && "description"@.len() == 11 && "parameters"@.len() == 10);
        let k = keys_of(m@);
        assert(k[0] == "name"@ && k[1] == "description"@ && k[2] == "parameters"@);
        assert(k.no_duplicates()) by {
            assert forall|a: int, b: int| 0 <= a < b < k.len() implies k[a] != k[b] by {
                assert(k[a].len() != k[b].len());
            }
        }
        lemma_member_at(m@, "name"@);
        lemma_member_at(m@, "description"@);
        lemma_member_at(m@, "parameters"@);
        assert(m@[0].0@ == "name"@);
        assert(m@[1].0@ == "description"@);
        assert(m@[2].0@ == "parameters"@);
    }
    JsonValue::Object(m)
}

/// The JSON form of each function, in order.
fn functions_array(functions: Vec<Function>) -> (r: Vec<JsonValue>)
    ensures
        r@.len() == functions@.len(),
        forall|i: int| 0 <= i < r@.len() ==> function_matches(#[trigger] r@[i], functions@[i]),
{
    let ghost all = functions@;
    let mut functions = functions;
    let mut rev: Vec<JsonValue> = Vec::new();
    while functions.len() > 0
        invariant
            all.len() == rev@.len() + functions@.len(),
            functions@ == all.subrange(0, functions@.len() as int),
            forall|i: int| 0 <= i < rev@.len() ==> function_matches(#[trigger] rev@[i], all[all.len() - 1 - i]),
        decreases functions@.len(),
    {
        let f = functions.pop().unwrap();
        rev.push(function_object(f));
    }
    let mut out: Vec<JsonValue> = Vec::new();
    while rev.len() > 0
        invariant
            all.len() == rev@.len() + out@.len(),
            forall|i: int| 0 <= i < rev@.len() ==> function_matches(#[trigger] rev@[i], all[all.len() - 1 - i]),
            forall|i: int| 0 <= i < out@.len() ==> function_matches(#[trigger] out@[i], all[i]),
        decreases rev@.len(),
    {
        let v = rev.pop().unwrap();
        out.push(v);
    }
    out
}

/// The JSON form of a function-call option: a mode word, or `{name}`.
pub open spec fn option_json_matches(v: JsonValue, o: (bool, Seq<char>)) -> bool {
    if o.0 {
        text_field(v, "name"@) == Some(o.1)
    } else {
        v == JsonValue::Str(v->Str_0) && v->Str_0@ == o.1
    }
}

/// The JSON form of a function-call option.
fn option_json(o: FunctionCallOption) -> (r: JsonValue)
    ensures
        option_json_matches(r, option_model(o)),
{
    match o {
        FunctionCallOption::Mode(m) => JsonValue::Str(m),
        FunctionCallOption::Named { name } => {
            let mut m: Vec<(String, JsonValue)> = Vec::new();
            m.push((text_copy("name"), json_str(name)));
            proof {
                lemma_member_at(m@, "name"@);
            }
            JsonValue::Object(m)
        },
    }
}

/// The body of an OpenAI-style chat request. Functions, when offered, go
/// with the option that the tool choice asks for (the model decides when
/// no choice is given); a request without functions carries neither field.
pub fn openai_request_document(request: CompletionRequest, stream: bool) -> (r: JsonValue)
    ensures
        text_field(r, "model"@) == Some(request.model@),
        field(r, "stream"@) == Some(JsonValue::Bool(stream)),
        match field(r, "messages"@) {
            Some(JsonValue::Array(items)) => items@.len() == request.messages@.len()
                && forall|i: int| 0 <= i < items@.len() ==> openai_message_matches(#[trigger] items@[i], request.messages@[i]),
            _ => false,
        },
        match request.max_tokens {
            Some(n) => match field(r, "max_tokens"@) {
                Some(JsonValue::Number(x)) => crate::json::u64_of(x) == Some(n as u64),
                _ => false,
            },
            None => field(r, "max_tokens"@) == Some(JsonValue::Null),
        },
        match request.functions {
            Some(fs) => {
                &&& match field(r, "functions"@) {
                    Some(JsonValue::Array(items)) => items@.len() == fs@.len()
                        && forall|i: int| 0 <= i < items@.len() ==> function_matches(#[trigger] items@[i], fs@[i]),
                    _ => false,
                }
                &&& match field(r, "function_call"@) {
                    Some(v) => option_json_matches(v, match request.tool_choice {
                        Some(crate::providers::ToolChoice::NoCall) => (false, "none"@),
                        Some(crate::providers::ToolChoice::Function { name }) => (true, name@),
                        _ => (false, "auto"@),
                    }),
                    None => false,
                }
            },
            None => field(r, "functions"@) is None && field(r, "function_call"@) is None,
        },
{
    let msgs = openai_messages(&request.messages);
    let max = match request.max_tokens {
        Some(n) => JsonValue::Number(JsonNumber::PosInt(n as u64)),
        None => JsonValue::Null,
    };
    let mut m: Vec<(String, JsonValue)> = Vec::new();
    m.push((text_copy("model"), json_str(request.model)));
    m.push((text_copy("messages"), JsonValue::Array(msgs)));
    m.push((text_copy("max_tokens"), max));
    m.push((text_copy("stream"), JsonValue::Bool(stream)));
    proof {
        reveal_strlit("model");
        reveal_strlit("messages");
        reveal_strlit("max_tokens");
        reveal_strlit("stream");
        reveal_strlit("functions");
        reveal_strlit("function_call");
        assert("model"@.len() == 5 && "messages"@.len() == 8 && "max_tokens"@.len() == 10);
        assert("stream"@.len() == 6 && "functions"@.len() == 9 && "function_call"@.len() == 13);
    }
    match request.functions {
        Some(fs) => {
            let option = FunctionCallOption::for_choice(request.tool_choice);
            m.push((text_copy("functions"), JsonValue::Array(functions_array(fs))));
            m.push((text_copy("function_call"), option_json(option)));
            proof {
                let k = keys_of(m@);
                assert(k[0] == "model"@ && k[1] == "messages"@ && k[2] == "max_tokens"@);
                assert(k[3] == "stream"@ && k[4] == "functions"@ && k[5] == "function_call"@);
                assert(k.no_duplicates()) by {
                    assert forall|a: int, b: int| 0 <= a < b < k.len() implies k[a] != k[b] by {
                        assert(k[a].len() != k[b].len());
                    }
                }
                lemma_member_at(m@, "model"@);
                lemma_member_at(m@, "messages"@);
                lemma_member_at(m@, "max_tokens"@);
                lemma_member_at(m@, "stream"@);
                lemma_member_at(m@, "functions"@);
                lemma_member_at(m@, "function_call"@);
                assert(m@[0].0@ == "model"@);
                assert(m@[1].0@ == "messages"@);
                assert(m@[2].0@ == "max_tokens"@);
                assert(m@[3].0@ == "stream"@);
                assert(m@[4].0@ == "functions"@);
                assert(m@[5].0@ == "function_call"@);
            }
        },
        None => {
            proof {
                let k = keys_of(m@);
                assert(k[0] == "model"@ && k[1] == "messages"@ && k[2] == "max_tokens"@ && k[3] == "stream"@);
                assert(k.no_duplicates()) by {
                    assert forall|a: int, b: int| 0 <= a < b < k.len() implies k[a] != k[b] by {
                        assert(k[a].len() != k[b].len());
                    }
                }
                assert(!k.contains("functions"@)) by {
                    if k.contains("functions"@) {
                        let j = choose|j: int| 0 <= j < k.len() && k[j] == "functions"@;
                        assert(k[j].len() == 9);
                    }
                }
                assert(!k.contains("function_call"@)) by {
                    if k.contains("function_call"@) {
                        let j = choose|j: int| 0 <= j < k.len() && k[j] == "function_call"@;
                        assert(k[j].len() == 13);
                    }
                }
                lemma_member_at(m@, "model"@);
                lemma_member_at(m@, "messages"@);
                lemma_member_at(m@, "max_tokens"@);
                lemma_member_at(m@, "stream"@);
                lemma_member_at(m@, "functions"@);
                lemma_member_at(m@, "function_call"@);
                assert(m@[0].0@ == "model"@);
                assert(m@[1].0@ == "messages"@);
                assert(m@[2].0@ == "max_tokens"@);
                assert(m@[3].0@ == "stream"@);
            }
        },
    }
    JsonValue::Object(m)
}

/// The body of an Anthropic-style messages request: the conversation
/// without its system text, which goes in a field of its own when there is
/// one, and an output bound of 1024 tokens unless the request sets one.
pub fn anthropic_request_document(request: CompletionRequest, stream: bool) -> (r: JsonValue)
    ensures
        text_field(r, "model"@) == Some(request.model@),
        field(r, "stream"@) == Some(JsonValue::Bool(stream)),
        match field(r, "messages"@) {
            Some(JsonValue::Array(items)) => messages_match(items@, anthropic_split(request.messages@).1),
            _ => false,
        },
        match field(r, "max_tokens"@) {
            Some(JsonValue::Number(x)) => crate::json::u64_of(x) == Some(match request.max_tokens {
                Some(n) => n as u64,
                None => 1024u64,
            }),
            _ => false,
        },
        match anthropic_split(request.messages@).0 {
            Some(sys) => text_field(r, "system"@) == Some(sys),
            None => field(r, "system"@) is None,
        },
{
    let (system, pairs) = anthropic_messages(&request.messages);
    let msgs = messages_array(pairs);
    let max: u64 = match request.max_tokens {
        Some(n) => n as u64,
        None => 1024,
    };
    let mut m: Vec<(String, JsonValue)> = Vec::new();
    m.push((text_copy("model"), json_str(request.model)));
    m.push((text_copy("messages"), JsonValue::Array(msgs)));
    m.push((text_copy("max_tokens"), JsonValue::Number(JsonNumber::PosInt(max))));
    m.push((text_copy("stream"), JsonValue::Bool(stream)));
    proof {
        reveal_strlit("model");
        reveal_strlit("messages");
        reveal_strlit("max_tokens");
        reveal_strlit("stream");
        reveal_strlit("system");
        assert("model"@.len() == 5 && "messages"@.len() == 8 && "max_tokens"@.len() == 10);
        assert("stream"@.len() == 6 && "system"@.len() == 6 && "stream"@[1] != "system"@[1]);
    }
    let has_system = system.is_some();
    match system {
        Some(text) => {
            m.push((text_copy("system"), json_str(text)));
        },
        None => {},
    }
    proof {
        let k = keys_of(m@);
        assert(k[0] == "model"@ && k[1] == "messages"@ && k[2] == "max_tokens"@ && k[3] == "stream"@);
        assert(has_system ==> k[4] == "system"@);
        assert(k.no_duplicates()) by {
            assert forall|a: int, b: int| 0 <= a < b < k.len() implies k[a] != k[b] by {
                if k[a].len() == k[b].len() {
                    assert(k[a][1] != k[b][1]);
                }
            }
        }
        if !has_system {
            assert(!k.contains("system"@)) by {
                if k.contains("system"@) {
                    let j = choose|j: int| 0 <= j < k.len() && k[j] == "system"@;
                    assert(k[j][1] == "system"@[1]);
                }
            }
        }
        lemma_member_at(m@, "model"@);
        lemma_member_at(m@, "messages"@);
        lemma_member_at(m@, "max_tokens"@);
        lemma_member_at(m@, "stream"@);
        lemma_member_at(m@, "system"@);
        assert(m@[0].0@ == "model"@);
        assert(m@[1].0@ == "messages"@);
        assert(m@[2].0@ == "max_tokens"@);
        assert(m@[3].0@ == "stream"@);
        if has_system {
            assert(m@[4].0@ == "system"@);
        }
    }
    JsonValue::Object(m)
}

/// `{k: v}`.
fn object1(k: &str, v: JsonValue) -> (r: JsonValue)
    ensures
        field(r, k@) == Some(v),
{
    let ghost vv = v;
    let mut m: Vec<(String, JsonValue)> = Vec::new();
    m.push((text_copy(k), v));
    proof {
        lemma_member_at(m@, k@);
        assert(m@[0].0@ == k@);
    }
    JsonValue::Object(m)
}

/// `{k1: v1, k2: v2}`.
fn object2(k1: &str, v1: JsonValue, k2: &str, v2: JsonValue) -> (r: JsonValue)
    requires
        k1@ != k2@,
    ensures
        field(r, k1@) == Some(v1),
        field(r, k2@) == Some(v2),
{
    let mut m: Vec<(String, JsonValue)> = Vec::new();
    m.push((text_copy(k1), v1));
    m.push((text_copy(k2), v2));
    proof {
        let k = keys_of(m@);
        assert(k[0] == k1@ && k[1] == k2@);
        assert(k.no_duplicates());
        lemma_member_at(m@, k1@);
        lemma_member_at(m@, k2@);
        assert(m@[0].0@ == k1@);
        assert(m@[1].0@ == k2@);
    }
    JsonValue::Object(m)
}

/// Whether `v` is the sampling form of a message with role `role` and text `text`.
pub open spec fn sampling_message_matches(v: JsonValue, role: Seq<char>, text: Seq<char>) -> bool {
    &&& text_field(v, "role"@) == Some(role)
    &&& match field(v, "content"@) {
        Some(c) => text_field(c, "type"@) == Some("text"@) && text_field(c, "text"@) == Some(text),
        None => false,
    }
}

/// The params of a provider's `sampling/createMessage` request: each message
/// as a text block, the model as a hint, a fixed system prompt, the whole
/// conversation as context, and at most 1000 tokens unless the request sets
/// a bound. Sampling temperature is added by the transport layer.
pub fn sampling_params(request: &CompletionRequest) -> (r: JsonValue)
    ensures
        text_field(r, "systemPrompt"@) == Some("You are a helpful AI assistant"@),
        text_field(r, "includeContext"@) == Some("thisConversation"@),
        match field(r, "maxTokens"@) {
            Some(JsonValue::Number(x)) => crate::json::u64_of(x) == Some(match request.max_tokens {
                Some(n) => n as u64,
                None => 1000u64,
            }),
            _ => false,
        },
        match field(r, "messages"@) {
            Some(JsonValue::Array(items)) => items@.len() == request.messages@.len()
                && forall|i: int| 0 <= i < items@.len() ==> sampling_message_matches(
                    #[trigger] items@[i],
                    role_text(request.messages@[i].role),
                    request.messages@[i].content@,
                ),
            _ => false,
        },
        match field(r, "modelPreferences"@) {
            Some(p) => match field(p, "hints"@) {
                Some(JsonValue::Array(hs)) => hs@.len() == 1 && text_field(hs@[0], "name"@) == Some(request.model@),
                _ => false,
            },
            None => false,
        },
{
    proof {
        reveal_strlit("role");
        reveal_strlit("content");
        reveal_strlit("type");
        reveal_strlit("text");
        assert("role"@.len() == 4 && "content"@.len() == 7 && "type"@.len() == 4 && "text"@.len() == 4);
        assert("type"@[0] != "text"@[0] || "type"@[1] != "text"@[1]);
    }
    let mut items: Vec<JsonValue> = Vec::new();
    let mut i: usize = 0;
    while i < request.messages.len()
        invariant
            "role"@ != "content"@,
            "type"@ != "text"@,
            i <= request.messages@.len(),
            items@.len() == i,
            forall|j: int| 0 <= j < i ==> sampling_message_matches(
                #[trigger] items@[j],
                role_text(request.messages@[j].role),
                request.messages@[j].content@,
            ),
        decreases request.messages@.len() - i,
    {
        let m = &request.messages[i];
        let block = object2("type", json_str(text_copy("text")), "text", json_str(m.content.clone()));
        let msg = object2("role", json_str(text_copy(m.role.wire_name())), "content", block);
        items.push(msg);
        i = i + 1;
    }
    let hint = object1("name", json_str(request.model.clone()));
    let mut hints: Vec<JsonValue> = Vec::new();
    hints.push(hint);
    let prefs = object1("hints", JsonValue::Array(hints));
    let max: u64 = match request.max_tokens {
        Some(n) => n as u64,
        None => 1000,
    };
    let mut m: Vec<(String, JsonValue)> = Vec::new();
    m.push((text_copy("messages"), JsonValue::Array(items)));
    m.push((text_copy("modelPreferences"), prefs));
    m.push((text_copy("systemPrompt"), json_str(text_copy("You are a helpful AI assistant"))));
    m.push((text_copy("includeContext"), json_str(text_copy("thisConversation"))));
    m.push((text_copy("maxTokens"), JsonValue::Number(JsonNumber::PosInt(max))));
    proof {
        reveal_strlit("messages");
        reveal_strlit("modelPreferences");
        reveal_strlit("systemPrompt");
        reveal_strlit("includeContext");
        reveal_strlit("maxTokens");
        assert("messages"@.len() == 8 && "modelPreferences"@.len() == 16 && "systemPrompt"@.len() == 12);
        assert("includeContext"@.len() == 14 && "maxTokens"@.len() == 9);
        let k = keys_of(m@);
        assert(k[0] == "messages"@ && k[1] == "modelPreferences"@ && k[2] == "systemPrompt"@);
        assert(k[3] == "includeContext"@ && k[4] == "maxTokens"@);
        assert(k.no_duplicates()) by {
            assert forall|a: int, b: int| 0 <= a < b < k.len() implies k[a] != k[b] by {
                assert(k[a].len() != k[b].len());
            }
        }
        lemma_member_at(m@, "messages"@);
        lemma_member_at(m@, "modelPreferences"@);
        lemma_member_at(m@, "systemPrompt"@);
        lemma_member_at(m@, "includeContext"@);
        lemma_member_at(m@, "maxTokens"@);
        assert(m@[0].0@ == "messages"@);
        assert(m@[1].0@ == "modelPreferences"@);
        assert(m@[2].0@ == "systemPrompt"@);
        assert(m@[3].0@ == "includeContext"@);
        assert(m@[4].0@ == "maxTokens"@);
    }
    JsonValue::Object(m)
}

/// Whether `v` is the OpenAI-style form of message `m`: its role and
/// content, its function call as `{name, arguments}` when it has one, and
/// for a function result the function's name.
pub open spec fn openai_message_matches(v: JsonValue, m: Message) -> bool {
    &&& text_field(v, "role"@) == Some(role_text(m.role))
    &&& text_field(v, "content"@) == Some(m.content@)
    &&& match m.function_call {
        Some(fc) => match field(v, "function_call"@) {
            Some(o) => text_field(o, "name"@) == Some(fc.name@) && text_field(o, "arguments"@) == Some(fc.arguments@),
            None => false,
        },
        None => field(v, "function_call"@) is None,
    }
    &&& match (m.role, m.function_call) {
        (MessageRole::Function, Some(fc)) => text_field(v, "name"@) == Some(fc.name@),
        _ => field(v, "name"@) is None,
    }
}

proof fn lemma_message_keys()
    ensures
        "role"@ != "content"@,
        "role"@ != "function_call"@,
        "role"@ != "name"@,
        "content"@ != "function_call"@,
        "content"@ != "name"@,
        "function_call"@ != "name"@,
        "name"@ != "arguments"@,
{
    reveal_strlit("role");
    reveal_strlit("content");
    reveal_strlit("function_call");
    reveal_strlit("name");
    reveal_strlit("arguments");
    assert("role"@.len() == 4 && "content"@.len() == 7 && "function_call"@.len() == 13);
    assert("name"@.len() == 4 && "arguments"@.len() == 9);
    assert("role"@[0] != "name"@[0]);
}

/// The OpenAI-style form of one message.
fn openai_message(m: &Message) -> (r: JsonValue)
    ensures
        openai_message_matches(r, *m),
{
    proof {
        lemma_message_keys();
    }
    let mut o: Vec<(String, JsonValue)> = Vec::new();
    o.push((text_copy("role"), json_str(text_copy(m.role.wire_name()))));
    o.push((text_copy("content"), json_str(m.content.clone())));
    match &m.function_call {
        Some(fc) => {
            let call = object2("name", json_str(fc.name.clone()), "arguments", json_str(fc.arguments.clone()));
            o.push((text_copy("function_call"), call));
            match m.role {
                MessageRole::Function => o.push((text_copy("name"), json_str(fc.name.clone()))),
                _ => {},
            }
        },
        None => {},
    }
    proof {
        let k = keys_of(o@);
        assert(k[0] == "role"@ && k[1] == "content"@);
        assert(o@.len() >= 3 ==> k[2] == "function_call"@);
        assert(o@.len() == 4 ==> k[3] == "name"@);
        assert(k.no_duplicates());
        lemma_member_at(o@, "role"@);
        lemma_member_at(o@, "content"@);
        lemma_member_at(o@, "function_call"@);
        lemma_member_at(o@, "name"@);
        assert(o@[0].0@ == "role"@);
        assert(o@[1].0@ == "content"@);
        if o@.len() >= 3 {
            assert(o@[2].0@ == "function_call"@);
        } else {
            assert(!k.contains("function_call"@));
        }
        if o@.len() == 4 {
            assert(o@[3].0@ == "name"@);
        } else {
            assert(!k.contains("name"@));
        }
    }
    JsonValue::Object(o)
}

/// The OpenAI-style form of each message, in order.
fn openai_messages(messages: &Vec<Message>) -> (r: Vec<JsonValue>)
    ensures
        r@.len() == messages@.len(),
        forall|i: int| 0 <= i < r@.len() ==> openai_message_matches(#[trigger] r@[i], messages@[i]),
{
    let mut out: Vec<JsonValue> = Vec::new();
    let mut i: usize = 0;
    while i < messages.len()
        invariant
            i <= messages@.len(),
            out@.len() == i,
            forall|j: int| 0 <= j < i ==> openai_message_matches(#[trigger] out@[j], messages@[j]),
        decreases messages@.len() - i,
    {
        out.push(openai_message(&messages[i]));
        i = i + 1;
    }
    out
}

} // verus!
