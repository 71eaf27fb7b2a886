//! Tools offered by provider processes: their descriptors, the calls and
//! results that travel to and from them, and the registry that routes a
//! model's function call to the provider that offers the tool.
use vstd::prelude::*;

use crate::error::BridgeError;
use crate::json::{decode_json, decoded_json, field, member_of, text_field, JsonValue};
use crate::providers::{Function, FunctionCall};
use crate::text::{push_char, push_text, str_eq, text_copy};

verus! {

/// A tool as a provider describes it.
pub struct MCPTool {
    pub name: String,
    pub description: String,
    pub input_schema: JsonValue,
}

/// A call of a tool: its name and its arguments object.
pub struct MCPToolCall {
    pub name: String,
    pub arguments: JsonValue,
}

/// A resource embedded in a tool result.
pub struct MCPResource {
    pub uri: String,
    pub name: Option<String>,
    pub description: Option<String>,
    pub mime_type: Option<String>,
}

/// One block of a tool result.
pub enum MCPContent {
    Text { text: String },
    Image { data: String, mime_type: String },
    Resource { resource: MCPResource },
}

/// What a tool call returned: its blocks in order, and whether it failed.
pub struct MCPToolResult {
    pub content: Vec<MCPContent>,
    pub is_error: Option<bool>,
}

/// How to start a provider process.
pub struct MCPServerConfig {
    pub name: String,
    pub command: String,
    pub args: Vec<String>,
    pub env: Option<Vec<(String, String)>>,
    pub capabilities: Vec<String>,
}

/// The schema of a descriptor: `input_schema`, or else `inputSchema`.
pub open spec fn schema_of(v: JsonValue) -> Option<JsonValue> {
    match field(v, "input_schema"@) {
        Some(s) => Some(s),
        None => field(v, "inputSchema"@),
    }
}

/// Whether `v` describes a tool: a name, a description and a schema.
pub open spec fn describes_tool(v: JsonValue) -> bool {
    text_field(v, "name"@) is Some && text_field(v, "description"@) is Some && schema_of(v) is Some
}

/// Whether `t` is the tool that `v` describes.
pub open spec fn tool_matches(v: JsonValue, t: MCPTool) -> bool {
    &&& text_field(v, "name"@) == Some(t.name@)
    &&& text_field(v, "description"@) == Some(t.description@)
    &&& schema_of(v) == Some(t.input_schema)
}

/// The tool that one element of a `tools/list` reply describes.
pub fn tool_from_json(v: JsonValue) -> (r: Option<MCPTool>)
    ensures
        match r {
            Some(t) => describes_tool(v) && tool_matches(v, t),
            None => !describes_tool(v),
        },
{
    let name = match v.text_field("name") {
        Some(n) => n.clone(),
        None => return None,
    };
    let description = match v.text_field("description") {
        Some(d) => d.clone(),
        None => return None,
    };
    let has_snake = v.get("input_schema").is_some();
    let schema = if has_snake {
        v.into_field("input_schema")
    } else {
        v.into_field("inputSchema")
    };
    match schema {
        Some(s) => Some(MCPTool { name, description, input_schema: s }),
        None => None,
    }
}

/// The descriptors of a `tools/list` result, in order: an element that
/// does not describe a tool is skipped; a result without a `tools` array
/// is a protocol error.
pub fn tools_from_list_result(result: JsonValue) -> (r: Result<Vec<MCPTool>, BridgeError>)
    ensures
        match field(result, "tools"@) {
            Some(JsonValue::Array(items)) => r is Ok && tools_described(items@, r->Ok_0@),
            _ => r is Err && r->Err_0 is Protocol,
        },
{
    match result.into_field("tools") {
        Some(JsonValue::Array(items)) => {
            let ghost all = items@;
            let mut items = items;
            let mut out: Vec<MCPTool> = Vec::new();
            // Taken from the back, so the kept ones are pushed in reverse.
            while items.len() > 0
                invariant
                    items@ == all.subrange(0, items@.len() as int),
                    items@.len() <= all.len(),
                    tools_described(all.subrange(items@.len() as int, all.len() as int), out@.reverse()),
                decreases items@.len(),
            {
                let ghost n = items@.len();
                let v = items.pop().unwrap();
                proof {
                    let tail = all.subrange(n - 1, all.len() as int);
                    assert(tail.drop_first() =~= all.subrange(n as int, all.len() as int));
                    assert(tail[0] == v);
                }
                let ghost prev = out@;
                let ghost tail = all.subrange(n - 1, all.len() as int);
                match tool_from_json(v) {
                    Some(t) => {
                        out.push(t);
                        proof {
                            let r = out@.reverse();
                            assert(r =~= seq![out@.last()] + prev.reverse());
                            assert(r.drop_first() =~= prev.reverse());
                            assert(r[0] == t);
                            assert(tools_described(tail, r));
                        }
                    },
                    None => {
                        assert(tools_described(tail, out@.reverse()));
                    },
                }
            }
            let mut fwd: Vec<MCPTool> = Vec::new();
            let ghost rev = out@.reverse();
            while out.len() > 0
                invariant
                    fwd@ + out@.reverse() == rev,
                decreases out@.len(),
            {
                let ghost before = out@;
                let t = out.pop().unwrap();
                fwd.push(t);
                proof {
                    assert(before.reverse() =~= seq![t] + out@.reverse());
                    assert(fwd@ + out@.reverse() =~= fwd@.drop_last() + before.reverse());
                }
            }
            assert(fwd@ =~= fwd@ + out@.reverse());
            assert(all.subrange(0, all.len() as int) =~= all);
            Ok(fwd)
        },
        _ => Err(BridgeError::Protocol(text_copy("invalid tools response format"))),
    }
}

/// `tools` are the tools that `items` describe, in order, skipping the
/// elements that describe none.
pub open spec fn tools_described(items: Seq<JsonValue>, tools: Seq<MCPTool>) -> bool
    decreases items.len(),
{
    if items.len() == 0 {
        tools.len() == 0
    } else if describes_tool(items[0]) {
        tools.len() > 0 && tool_matches(items[0], tools[0]) && tools_described(items.drop_first(), tools.drop_first())
    } else {
        tools_described(items.drop_first(), tools)
    }
}

/// The function that offers a tool to a model: the same name, description
/// and parameter schema.
pub fn function_from_tool(tool: MCPTool) -> (r: Function)
    ensures
        r.name@ == tool.name@,
        r.description@ == tool.description@,
        r.parameters == tool.input_schema,
{
    Function { name: tool.name, description: tool.description, parameters: tool.input_schema }
}

/// The arguments object of a model's call: its arguments text decoded,
/// or an empty object where that text is not a JSON object.
pub open spec fn arguments_of(text: Seq<char>) -> Option<JsonValue> {
    match decoded_json(text) {
        Some(JsonValue::Object(m)) => Some(JsonValue::Object(m)),
        _ => None,
    }
}

/// The tool call for a model's function call.
pub fn tool_call_from_function_call(call: FunctionCall) -> (r: MCPToolCall)
    ensures
        r.name@ == call.name@,
        match arguments_of(call.arguments@) {
            Some(v) => r.arguments == v,
            None => r.arguments == JsonValue::Object(r.arguments->Object_0) && r.arguments->Object_0@.len() == 0,
        },
{
    let arguments = match decode_json(call.arguments.as_str()) {
        Some(JsonValue::Object(m)) => JsonValue::Object(m),
        _ => JsonValue::Object(Vec::new()),
    };
    MCPToolCall { name: call.name, arguments }
}

/// The params of a `tools/call` request: `{name, arguments}`.
pub fn tool_call_params(call: MCPToolCall) -> (r: JsonValue)
    ensures
        text_field(r, "name"@) == Some(call.name@),
        field(r, "arguments"@) == Some(call.arguments),
        r == JsonValue::Object(r->Object_0),
        r->Object_0@.len() == 2,
        r->Object_0@[0].0@ == "name"@ && r->Object_0@[0].1 == JsonValue::Str(call.name),
        r->Object_0@[1].0@ == "arguments"@ && r->Object_0@[1].1 == call.arguments,
{
    let mut m: Vec<(String, JsonValue)> = Vec::new();
    m.push((text_copy("name"), JsonValue::Str(call.name)));
    m.push((text_copy("arguments"), call.arguments));
    proof {
        reveal_strlit("name");
        reveal_strlit("arguments");
        assert("name"@.len() == 4 && "arguments"@.len() == 9);
        let s = m@;
        assert(s.drop_first()[0] == s[1]);
        assert(member_of(s, "arguments"@) == member_of(s.drop_first(), "arguments"@));
    }
    JsonValue::Object(m)
}

/// The text blocks of a result, joined with newlines.
pub open spec fn joined_text(blocks: Seq<MCPContent>) -> Seq<char>
    decreases blocks.len(),
{
    if blocks.len() == 0 {
        Seq::empty()
    } else {
        let before = joined_text(blocks.drop_last());
        match blocks.last() {
            MCPContent::Text { text } => if text_count(blocks.drop_last()) == 0 {
                before + text@
            } else {
                before.push('\n') + text@
            },
            _ => before,
        }
    }
}

/// How many text blocks there are.
pub open spec fn text_count(blocks: Seq<MCPContent>) -> nat
    decreases blocks.len(),
{
    if blocks.len() == 0 {
        0
    } else {
        text_count(blocks.drop_last()) + if blocks.last() is Text {
            1nat
        } else {
            0nat
        }
    }
}

/// The text of a tool result: its text blocks joined with newlines (other
/// blocks are not shown); a result flagged as an error becomes a tool
/// execution error carrying that text.
pub fn flatten_tool_result(result: &MCPToolResult) -> (r: Result<String, BridgeError>)
    ensures
        result.is_error == Some(true) ==> r is Err && r->Err_0 is ToolExecution
            && r->Err_0->ToolExecution_0@ == joined_text(result.content@),
        result.is_error != Some(true) ==> r is Ok && r->Ok_0@ == joined_text(result.content@),
{
    let mut text = String::new();
    let mut count: usize = 0;
    let mut i: usize = 0;
    while i < result.content.len()
        invariant
            i <= result.content@.len(),
            text@ == joined_text(result.content@.subrange(0, i as int)),
            count == text_count(result.content@.subrange(0, i as int)),
            count <= i,
        decreases result.content@.len() - i,
    {
        proof {
            let p = result.content@.subrange(0, i + 1);
            assert(p.drop_last() =~= result.content@.subrange(0, i as int));
            assert(p.last() == result.content@[i as int]);
        }
        match &result.content[i] {
            MCPContent::Text { text: t } => {
                if count > 0 {
                    push_char(&mut text, '\n');
                }
                push_text(&mut text, t.as_str());
                count = count + 1;
            },
            _ => {},
        }
        i = i + 1;
    }
    assert(result.content@.subrange(0, result.content@.len() as int) =~= result.content@);
    match result.is_error {
        Some(true) => Err(BridgeError::ToolExecution(text)),
        _ => Ok(text),
    }
}

/// An optional text field: absent or `null` is `None`; any other non-text
/// value makes the block unreadable.
pub open spec fn opt_text_ok(v: JsonValue, key: Seq<char>) -> bool {
    match field(v, key) {
        None => true,
        Some(JsonValue::Null) => true,
        Some(JsonValue::Str(_)) => true,
        _ => false,
    }
}

/// Whether `v` is a readable content block.
pub open spec fn block_readable(v: JsonValue) -> bool {
    if text_field(v, "type"@) == Some("text"@) {
        text_field(v, "text"@) is Some
    } else if text_field(v, "type"@) == Some("image"@) {
        text_field(v, "data"@) is Some && text_field(v, "mime_type"@) is Some
    } else if text_field(v, "type"@) == Some("resource"@) {
        match field(v, "resource"@) {
            Some(r) => text_field(r, "uri"@) is Some && opt_text_ok(r, "name"@) && opt_text_ok(r, "description"@)
                && opt_text_ok(r, "mime_type"@),
            None => false,
        }
    } else {
        false
    }
}

/// Whether block `b` is what `v` holds, as far as the caller sees it: the
/// kind of block, and the text of a text block.
pub open spec fn block_matches(v: JsonValue, b: MCPContent) -> bool {
    match b {
        MCPContent::Text { text } => text_field(v, "type"@) == Some("text"@) && text_field(v, "text"@) == Some(text@),
        MCPContent::Image { data, mime_type } => text_field(v, "type"@) == Some("image"@)
            && text_field(v, "data"@) == Some(data@) && text_field(v, "mime_type"@) == Some(mime_type@),
        MCPContent::Resource { resource } => text_field(v, "type"@) == Some("resource"@)
            && text_field(field(v, "resource"@)->0, "uri"@) == Some(resource.uri@),
    }
}

/// A copy of an optional text field.
fn opt_text_field(v: &JsonValue, key: &str) -> (r: Result<Option<String>, ()>)
    ensures
        r is Ok == opt_text_ok(*v, key@),
        r is Ok ==> match r->Ok_0 {
            Some(s) => text_field(*v, key@) == Some(s@),
            None => text_field(*v, key@) is None,
        },
{
    match v.get(key) {
        None => Ok(None),
        Some(JsonValue::Null) => Ok(None),
        Some(JsonValue::Str(s)) => Ok(Some(s.clone())),
        _ => Err(()),
    }
}

/// The content block that `v` holds.
pub fn block_from_json(v: &JsonValue) -> (r: Option<MCPContent>)
    ensures
        r is Some == block_readable(*v),
        r is Some ==> block_matches(*v, r->0),
{
    let kind = match v.text_field("type") {
        Some(k) => k,
        None => return None,
    };
    if crate::text::str_eq(kind.as_str(), "text") {
        match v.text_field("text") {
            Some(t) => Some(MCPContent::Text { text: t.clone() }),
            None => None,
        }
    } else if crate::text::str_eq(kind.as_str(), "image") {
        match (v.text_field("data"), v.text_field("mime_type")) {
            (Some(d), Some(m)) => Some(MCPContent::Image { data: d.clone(), mime_type: m.clone() }),
            _ => None,
        }
    } else if crate::text::str_eq(kind.as_str(), "resource") {
        let r = match v.get("resource") {
            Some(r) => r,
            None => return None,
        };
        let uri = match r.text_field("uri") {
            Some(u) => u.clone(),
            None => return None,
        };
        match (opt_text_field(r, "name"), opt_text_field(r, "description"), opt_text_field(r, "mime_type")) {
            (Ok(name), Ok(description), Ok(mime_type)) => Some(
                MCPContent::Resource { resource: MCPResource { uri, name, description, mime_type } },
            ),
            _ => None,
        }
    } else {
        None
    }
}

/// The error flag of a result: `isError`, or else `is_error`.
pub open spec fn error_flag(v: JsonValue) -> Option<bool> {
    match field(v, "isError"@) {
        Some(JsonValue::Bool(b)) => Some(b),
        _ => match field(v, "is_error"@) {
            Some(JsonValue::Bool(b)) => Some(b),
            _ => None,
        },
    }
}

/// The elements of the `content` array of `v`.
pub open spec fn content_items(v: JsonValue) -> Option<Seq<JsonValue>> {
    match field(v, "content"@) {
        Some(JsonValue::Array(items)) => Some(items@),
        _ => None,
    }
}

/// Whether every element is a readable content block.
pub open spec fn all_readable(items: Seq<JsonValue>) -> bool {
    forall|i: int| 0 <= i < items.len() ==> block_readable(#[trigger] items[i])
}

/// The result of a `tools/call` request: every block of its `content`
/// array must be readable, or the whole result is a protocol error.
pub fn tool_result_from_json(v: &JsonValue) -> (r: Result<MCPToolResult, BridgeError>)
    ensures
        match content_items(*v) {
            Some(items) => if all_readable(items) {
                &&& r is Ok
                &&& r->Ok_0.content@.len() == items.len()
                &&& forall|i: int| 0 <= i < items.len() ==> block_matches(#[trigger] items[i], r->Ok_0.content@[i])
                &&& r->Ok_0.is_error == error_flag(*v)
            } else {
                r is Err && r->Err_0 is Protocol
            },
            None => r is Err && r->Err_0 is Protocol,
        },
{
    let items = match v.get("content") {
        Some(JsonValue::Array(items)) => items,
        _ => return Err(BridgeError::Protocol(text_copy("tool result without content"))),
    };
    let mut content: Vec<MCPContent> = Vec::new();
    let mut i: usize = 0;
    while i < items.len()
        invariant
            field(*v, "content"@) == Some(JsonValue::Array(*items)),
            i <= items@.len(),
            content@.len() == i,
            forall|j: int| 0 <= j < i ==> block_readable(#[trigger] items@[j]),
            forall|j: int| 0 <= j < i ==> block_matches(#[trigger] items@[j], content@[j]),
        decreases items@.len() - i,
    {
        match block_from_json(&items[i]) {
            Some(b) => content.push(b),
            None => {
                assert(!block_readable(items@[i as int]));
                return Err(BridgeError::Protocol(text_copy("unreadable tool result block")));
            },
        }
        i = i + 1;
    }
    let flag = match v.get("isError") {
        Some(JsonValue::Bool(b)) => Some(*b),
        _ => match v.get("is_error") {
            Some(JsonValue::Bool(b)) => Some(*b),
            _ => None,
        },
    };
    Ok(MCPToolResult { content, is_error: flag })
}

} // verus!
