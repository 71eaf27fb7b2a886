//! Server-sent-event frames of the two hosted wire formats, turned into
//! streaming chunks.
use vstd::prelude::*;

use crate::json::{
    decode_json, decoded_json, field, field_opt, first_elem, text_field, text_of, JsonValue,
};
use crate::providers::{CallDeltaModel, ChunkModel, FunctionCallDelta, StreamingResponse};
use crate::text::{has_prefix, starts_with, str_eq, suffix_from};

verus! {

/// The chunk that carries nothing.
pub open spec fn empty_chunk() -> ChunkModel {
    ChunkModel { delta: Seq::empty(), finish_reason: None, call: None }
}

/// The chunk that ends a stream normally.
pub open spec fn stop_chunk() -> ChunkModel {
    ChunkModel { delta: Seq::empty(), finish_reason: Some("stop"@), call: None }
}

/// What follows the `data: ` prefix of an event line, if it has one.
pub open spec fn payload_of(line: Seq<char>) -> Option<Seq<char>> {
    if has_prefix(line, "data: "@) {
        Some(line.subrange("data: "@.len() as int, line.len() as int))
    } else {
        None
    }
}

/// The first choice of an OpenAI-style chunk document.
pub open spec fn first_choice(doc: JsonValue) -> Option<JsonValue> {
    first_elem(field(doc, "choices"@))
}

/// The text under `delta.content` of the first choice; empty when absent.
pub open spec fn content_of(doc: JsonValue) -> Seq<char> {
    match text_of(field_opt(field_opt(first_choice(doc), "delta"@), "content"@)) {
        Some(t) => t,
        None => Seq::empty(),
    }
}

/// The function-call fragment under `delta.function_call` of the first choice.
pub open spec fn call_of(doc: JsonValue) -> Option<CallDeltaModel> {
    match field_opt(field_opt(first_choice(doc), "delta"@), "function_call"@) {
        Some(JsonValue::Null) => None,
        Some(fc) => Some(
            CallDeltaModel { name: text_field(fc, "name"@), arguments: text_field(fc, "arguments"@) },
        ),
        None => None,
    }
}

/// The chunk for one decoded OpenAI-style document.
pub open spec fn openai_doc_chunk(doc: JsonValue) -> ChunkModel {
    ChunkModel {
        delta: content_of(doc),
        finish_reason: text_of(field_opt(first_choice(doc), "finish_reason"@)),
        call: call_of(doc),
    }
}

/// The chunk for one OpenAI-style event line: `[DONE]` ends the stream,
/// other payloads are decoded as JSON; anything else is a no-op chunk.
pub open spec fn openai_chunk(line: Seq<char>) -> ChunkModel {
    match payload_of(line) {
        None => empty_chunk(),
        Some(p) => if p == "[DONE]"@ {
            stop_chunk()
        } else {
            match decoded_json(p) {
                Some(doc) => openai_doc_chunk(doc),
                None => empty_chunk(),
            }
        },
    }
}

/// The chunk for one Anthropic-style event line: the text of a
/// `content_block_delta`, the end of the stream at `message_stop`, and a
/// no-op chunk for every other line.
pub open spec fn anthropic_chunk(line: Seq<char>) -> ChunkModel {
    match payload_of(line) {
        None => empty_chunk(),
        Some(p) => match decoded_json(p) {
            Some(doc) => if text_field(doc, "type"@) == Some("content_block_delta"@) {
                match text_of(field_opt(field(doc, "delta"@), "text"@)) {
                    Some(t) => ChunkModel { delta: t, finish_reason: None, call: None },
                    None => empty_chunk(),
                }
            } else if text_field(doc, "type"@) == Some("message_stop"@) {
                stop_chunk()
            } else {
                empty_chunk()
            },
            None => empty_chunk(),
        },
    }
}

/// The payload of an event line, without its `data: ` prefix.
fn payload(line: &str) -> (r: Option<&str>)
    ensures
        match r {
            Some(p) => payload_of(line@) == Some(p@),
            None => payload_of(line@) is None,
        },
{
    if starts_with(line, "data: ") {
        proof {
            reveal_strlit("data: ");
        }
        Some(suffix_from(line, 6))
    } else {
        None
    }
}

/// A copy of an optional text.
fn copy_opt(t: Option<&String>) -> (r: Option<String>)
    ensures
        match t {
            Some(s) => r is Some && r->0@ == s@,
            None => r is None,
        },
{
    match t {
        Some(s) => Some(s.clone()),
        None => None,
    }
}

/// The chunk for a decoded OpenAI-style document.
pub fn openai_document(doc: &JsonValue) -> (r: StreamingResponse)
    ensures
        r@ == openai_doc_chunk(*doc),
{
    let choice = match doc.get("choices") {
        Some(cs) => cs.first(),
        None => None,
    };
    let delta = match choice {
        Some(c) => c.get("delta"),
        None => None,
    };
    let content = match delta {
        Some(d) => match d.get("content") {
            Some(c) => c.as_text(),
            None => None,
        },
        None => None,
    };
    let text = match content {
        Some(t) => t.clone(),
        None => String::new(),
    };
    let finish = match choice {
        Some(c) => match c.get("finish_reason") {
            Some(f) => copy_opt(f.as_text()),
            None => None,
        },
        None => None,
    };
    let call = match delta {
        Some(d) => match d.get("function_call") {
            Some(JsonValue::Null) => None,
            Some(fc) => Some(
                FunctionCallDelta {
                    name: copy_opt(fc.text_field("name")),
                    arguments: copy_opt(fc.text_field("arguments")),
                },
            ),
            None => None,
        },
        None => None,
    };
    StreamingResponse { delta: text, finish_reason: finish, function_call_delta: call }
}

/// The chunk for one OpenAI-style event line. A frame that does not decode
/// gives an empty chunk and the stream goes on.
pub fn openai_line(line: &str) -> (r: StreamingResponse)
    ensures
        r@ == openai_chunk(line@),
{
    match payload(line) {
        None => StreamingResponse::empty(),
        Some(p) => if str_eq(p, "[DONE]") {
            StreamingResponse::stop()
        } else {
            match decode_json(p) {
                Some(doc) => openai_document(&doc),
                None => StreamingResponse::empty(),
            }
        },
    }
}

/// The chunk for a decoded Anthropic-style event document.
pub fn anthropic_document(doc: &JsonValue) -> (r: StreamingResponse)
    ensures
        r@ == (if text_field(*doc, "type"@) == Some("content_block_delta"@) {
            match text_of(field_opt(field(*doc, "delta"@), "text"@)) {
                Some(t) => ChunkModel { delta: t, finish_reason: None, call: None },
                None => empty_chunk(),
            }
        } else if text_field(*doc, "type"@) == Some("message_stop"@) {
            stop_chunk()
        } else {
            empty_chunk()
        }),
{
    let kind = doc.text_field("type");
    let is_delta = match kind {
        Some(k) => str_eq(k.as_str(), "content_block_delta"),
        None => false,
    };
    let is_stop = match kind {
        Some(k) => str_eq(k.as_str(), "message_stop"),
        None => false,
    };
    if is_delta {
        let text = match doc.get("delta") {
            Some(d) => match d.get("text") {
                Some(t) => t.as_text(),
                None => None,
            },
            None => None,
        };
        match text {
            Some(t) => StreamingResponse {
                delta: t.clone(),
                finish_reason: None,
                function_call_delta: None,
            },
            None => StreamingResponse::empty(),
        }
    } else if is_stop {
        StreamingResponse::stop()
    } else {
        StreamingResponse::empty()
    }
}

/// The chunk for one Anthropic-style event line.
pub fn anthropic_line(line: &str) -> (r: StreamingResponse)
    ensures
        r@ == anthropic_chunk(line@),
{
    match payload(line) {
        None => StreamingResponse::empty(),
        Some(p) => match decode_json(p) {
            Some(doc) => anthropic_document(&doc),
            None => StreamingResponse::empty(),
        },
    }
}

} // verus!
