//! The answer of a non-streaming completion, decoded from a backend's reply.
use vstd::prelude::*;

use crate::cleanup::{extract_content_without_tools, strip_think, trimmed, without_regions};
use crate::error::BridgeError;
use crate::json::{field, field_opt, first_elem, text_field, text_of, JsonValue};
use crate::providers::{CompletionResponse, FunctionCall, TokenUsage};
use crate::tags::{body_calls, call_models, open_tag, run, start_state, ToolTagFilter};
use crate::text::{contains, contains_text, text_copy};

verus! {

/// The `message` of the first choice of an OpenAI-style reply.
pub open spec fn reply_message(doc: JsonValue) -> Option<JsonValue> {
    field_opt(first_elem(field(doc, "choices"@)), "message"@)
}

/// The native function call of a reply message, when it names one with
/// text arguments.
pub open spec fn native_call(msg: JsonValue) -> Option<(Seq<char>, Seq<char>)> {
    match field(msg, "function_call"@) {
        Some(fc) => match (text_field(fc, "name"@), text_field(fc, "arguments"@)) {
            (Some(n), Some(a)) => Some((n, a)),
            _ => None,
        },
        None => None,
    }
}

/// The text content of a reply message; empty when absent.
pub open spec fn message_text(msg: JsonValue) -> Seq<char> {
    match text_field(msg, "content"@) {
        Some(t) => t,
        None => Seq::empty(),
    }
}

/// A counter of the usage object that fits in 32 bits.
pub open spec fn counter(usage: JsonValue, key: Seq<char>) -> Option<u32> {
    match field(usage, key) {
        Some(JsonValue::Number(n)) => match crate::json::u64_of(n) {
            Some(v) => if v <= u32::MAX as u64 {
                Some(v as u32)
            } else {
                None
            },
            None => None,
        },
        _ => None,
    }
}

/// The token usage of a reply, when it reports all three counters.
pub open spec fn usage_of(doc: JsonValue) -> Option<TokenUsage> {
    match field(doc, "usage"@) {
        Some(u) => match (counter(u, "prompt_tokens"@), counter(u, "completion_tokens"@), counter(u, "total_tokens"@)) {
            (Some(p), Some(c), Some(t)) => Some(TokenUsage { prompt_tokens: p, completion_tokens: c, total_tokens: t }),
            _ => None,
        },
        None => None,
    }
}

/// A 32-bit counter of a usage object.
fn read_counter(usage: &JsonValue, key: &str) -> (r: Option<u32>)
    ensures
        r == counter(*usage, key@),
{
    match usage.get(key) {
        Some(JsonValue::Number(n)) => match n.as_u64() {
            Some(v) => if v <= 4294967295u64 {
                Some(v as u32)
            } else {
                None
            },
            None => None,
        },
        _ => None,
    }
}

/// The token usage that a reply reports.
pub fn read_usage(doc: &JsonValue) -> (r: Option<TokenUsage>)
    ensures
        r == usage_of(*doc),
{
    match doc.get("usage") {
        Some(u) => match (read_counter(u, "prompt_tokens"), read_counter(u, "completion_tokens"), read_counter(u, "total_tokens")) {
            (Some(p), Some(c), Some(t)) => Some(TokenUsage { prompt_tokens: p, completion_tokens: c, total_tokens: t }),
            _ => None,
        },
        None => None,
    }
}

/// The completion that an OpenAI-style reply holds. A native function call
/// comes first; without one, text that holds a bracket-tagged tool region
/// yields the first call found there, and the regions are taken out of the
/// content, as is any thinking block, and the rest is trimmed. A reply
/// without choices is a protocol error.
pub fn completion_from_document(doc: &JsonValue, model: String) -> (r: Result<CompletionResponse, BridgeError>)
    ensures
        match reply_message(*doc) {
            None => r is Err && r->Err_0 is Protocol,
            Some(msg) => r is Ok && r->Ok_0.model@ == model@ && r->Ok_0.usage == usage_of(*doc) && match native_call(msg) {
                Some((n, a)) => r->Ok_0.content@ == message_text(msg)
                    && r->Ok_0.function_call is Some && r->Ok_0.function_call->0.name@ == n
                    && r->Ok_0.function_call->0.arguments@ == a,
                None => if contains(message_text(msg), open_tag()) {
                    let read = run(start_state(), message_text(msg));
                    &&& r->Ok_0.content@ == trimmed(strip_think(trimmed(without_regions(message_text(msg)))))
                    &&& match r->Ok_0.function_call {
                        Some(c) => body_calls(read.bodies).len() > 0 && body_calls(read.bodies)[0] == (c.name@, c.arguments@),
                        None => body_calls(read.bodies).len() == 0,
                    }
                } else {
                    r->Ok_0.content@ == message_text(msg) && r->Ok_0.function_call is None
                },
            },
        },
{
    let msg = match doc.get("choices") {
        Some(cs) => match cs.first() {
            Some(c) => c.get("message"),
            None => None,
        },
        None => None,
    };
    let msg = match msg {
        Some(m) => m,
        None => {
            return Err(BridgeError::Protocol(text_copy("no choices in response")));
        },
    };
    let raw = match msg.text_field("content") {
        Some(t) => t.clone(),
        None => String::new(),
    };
    let native = match msg.get("function_call") {
        Some(fc) => match (fc.text_field("name"), fc.text_field("arguments")) {
            (Some(n), Some(a)) => Some(FunctionCall { name: n.clone(), arguments: a.clone() }),
            _ => None,
        },
        None => None,
    };
    let usage = read_usage(doc);
    proof {
        crate::tags::lemma_tag_literals();
    }
    match native {
        Some(call) => Ok(CompletionResponse { content: raw, model, usage, function_call: Some(call) }),
        None => if contains_text(raw.as_str(), "[TOOL_REQUEST]") {
            let mut filter = ToolTagFilter::new();
            let (_visible, calls) = filter.push(raw.as_str());
            let mut calls = calls;
            let first = if calls.len() > 0 {
                proof {
                    assert(call_models(calls@)[0] == (calls@[0].name@, calls@[0].arguments@));
                }
                Some(calls.remove(0))
            } else {
                None
            };
            Ok(CompletionResponse {
                content: extract_content_without_tools(raw.as_str()),
                model,
                usage,
                function_call: first,
            })
        } else {
            Ok(CompletionResponse { content: raw, model, usage, function_call: None })
        },
    }
}

/// The texts of the content blocks of an Anthropic-style reply, joined;
/// `None` when a block has no text.
pub open spec fn blocks_text(items: Seq<JsonValue>) -> Option<Seq<char>>
    decreases items.len(),
{
    if items.len() == 0 {
        Some(Seq::empty())
    } else {
        match (blocks_text(items.drop_last()), text_field(items.last(), "text"@)) {
            (Some(a), Some(b)) => Some(a + b),
            _ => None,
        }
    }
}

/// The input and output token counts of an Anthropic-style reply.
pub open spec fn anthropic_counts(doc: JsonValue) -> Option<(u32, u32)> {
    match field(doc, "usage"@) {
        Some(u) => match (counter(u, "input_tokens"@), counter(u, "output_tokens"@)) {
            (Some(i), Some(o)) => Some((i, o)),
            _ => None,
        },
        None => None,
    }
}

/// The content blocks of an Anthropic-style reply.
pub open spec fn content_blocks(doc: JsonValue) -> Option<Seq<JsonValue>> {
    match field(doc, "content"@) {
        Some(JsonValue::Array(items)) => Some(items@),
        _ => None,
    }
}

/// A sum of token counts, held at the largest count where it would not fit.
pub open spec fn total_tokens(i: u32, o: u32) -> u32 {
    if i + o <= u32::MAX {
        (i + o) as u32
    } else {
        u32::MAX
    }
}

/// The completion that an Anthropic-style reply holds: its model, its
/// blocks' texts joined, and its token counts. A reply that lacks any of
/// them is a protocol error.
pub fn anthropic_completion_from_document(doc: &JsonValue) -> (r: Result<CompletionResponse, BridgeError>)
    ensures
        match (text_field(*doc, "model"@), content_blocks(*doc), anthropic_counts(*doc)) {
            (Some(m), Some(items), Some((i, o))) => match blocks_text(items) {
                Some(t) => r is Ok && r->Ok_0.model@ == m && r->Ok_0.content@ == t
                    && r->Ok_0.usage == Some(TokenUsage { prompt_tokens: i, completion_tokens: o, total_tokens: total_tokens(i, o) })
                    && r->Ok_0.function_call is None,
                None => r is Err && r->Err_0 is Protocol,
            },
            _ => r is Err && r->Err_0 is Protocol,
        },
{
    let model = match doc.text_field("model") {
        Some(m) => m.clone(),
        None => return Err(BridgeError::Protocol(text_copy("reply without model"))),
    };
    let items = match doc.get("content") {
        Some(JsonValue::Array(items)) => items,
        _ => return Err(BridgeError::Protocol(text_copy("reply without content"))),
    };
    let (input, output) = match doc.get("usage") {
        Some(u) => match (read_counter(u, "input_tokens"), read_counter(u, "output_tokens")) {
            (Some(i), Some(o)) => (i, o),
            _ => return Err(BridgeError::Protocol(text_copy("reply without usage"))),
        },
        None => return Err(BridgeError::Protocol(text_copy("reply without usage"))),
    };
    let mut text = String::new();
    let mut k: usize = 0;
    while k < items.len()
        invariant
            content_blocks(*doc) == Some(items@),
            k <= items@.len(),
            blocks_text(items@.subrange(0, k as int)) == Some(text@),
        decreases items@.len() - k,
    {
        proof {
            let p = items@.subrange(0, k + 1);
            assert(p.drop_last() =~= items@.subrange(0, k as int));
            assert(p.last() == items@[k as int]);
        }
        match items[k].text_field("text") {
            Some(t) => crate::text::push_text(&mut text, t.as_str()),
            None => {
                proof {
                    let p = items@.subrange(0, k + 1);
                    lemma_blocks_text_prefix(items@, k as int + 1);
                }
                return Err(BridgeError::Protocol(text_copy("content block without text")));
            },
        }
        k = k + 1;
    }
    assert(items@.subrange(0, items@.len() as int) =~= items@);
    let total = input.checked_add(output).unwrap_or(4294967295u32);
    Ok(CompletionResponse {
        content: text,
        model,
        usage: Some(TokenUsage { prompt_tokens: input, completion_tokens: output, total_tokens: total }),
        function_call: None,
    })
}

/// A prefix without text makes the whole list lack text.
proof fn lemma_blocks_text_prefix(items: Seq<JsonValue>, k: int)
    requires
        0 <= k <= items.len(),
        blocks_text(items.subrange(0, k)) is None,
    ensures
        blocks_text(items) is None,
    decreases items.len() - k,
{
    if k < items.len() {
        let p = items.subrange(0, k + 1);
        assert(p.drop_last() =~= items.subrange(0, k));
        lemma_blocks_text_prefix(items, k + 1);
    } else {
        assert(items.subrange(0, k) =~= items);
    }
}

/// The completion that a provider's `sampling/createMessage` result holds:
/// the text under `content.text` ("No response" when absent) and the model
/// it names, else the one requested.
pub fn sampling_completion(result: &JsonValue, requested_model: String) -> (r: CompletionResponse)
    ensures
        r.content@ == match text_of(field_opt(field(*result, "content"@), "text"@)) {
            Some(t) => t,
            None => "No response"@,
        },
        r.model@ == match text_field(*result, "model"@) {
            Some(m) => m,
            None => requested_model@,
        },
        r.usage is None,
        r.function_call is None,
{
    let content = match result.get("content") {
        Some(c) => match c.get("text") {
            Some(t) => match t.as_text() {
                Some(x) => x.clone(),
                None => text_copy("No response"),
            },
            None => text_copy("No response"),
        },
        None => text_copy("No response"),
    };
    let model = match result.text_field("model") {
        Some(m) => m.clone(),
        None => requested_model,
    };
    CompletionResponse { content, model, usage: None, function_call: None }
}

} // verus!
