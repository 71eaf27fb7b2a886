//! The decisions of the tool-enhancing decorator: which functions a request
//! offers, how a streamed function call is put together, and how a tool's
//! outcome is added to a completion.
use vstd::prelude::*;

use crate::error::BridgeError;
use crate::providers::{CompletionRequest, CompletionResponse, Function, FunctionCall, StreamingResponse, ToolChoice};
use crate::text::{push_text, text_copy};

verus! {

/// Offers the tool catalogue to a request that names no functions of its
/// own, when the backend can call functions and the catalogue is not empty;
/// the model then decides, unless the request already says otherwise.
/// Any other request is left as it is.
pub fn enhance_request(request: CompletionRequest, supports_functions: bool, catalogue: Vec<Function>) -> (r: CompletionRequest)
    ensures
        r.messages == request.messages,
        r.model == request.model,
        r.max_tokens == request.max_tokens,
        r.stream == request.stream,
        if request.functions is None && supports_functions && catalogue@.len() > 0 {
            &&& r.functions == Some(catalogue)
            &&& match request.tool_choice {
                Some(c) => r.tool_choice == Some(c),
                None => r.tool_choice == Some(ToolChoice::Auto),
            }
        } else {
            r.functions == request.functions && r.tool_choice == request.tool_choice
        },
{
    let mut request = request;
    if request.functions.is_none() && supports_functions && catalogue.len() > 0 {
        request.functions = Some(catalogue);
        if request.tool_choice.is_none() {
            request.tool_choice = Some(ToolChoice::Auto);
        }
    }
    request
}

/// The text of a failure, as shown to a model or a user.
pub open spec fn error_text(e: BridgeError) -> Seq<char> {
    match e {
        BridgeError::Auth(m) => "authentication failed: "@ + m@,
        BridgeError::Transport(m) => "transport error: "@ + m@,
        BridgeError::Protocol(m) => "protocol error: "@ + m@,
        BridgeError::RpcTimeout => "timeout waiting for tool provider response"@,
        BridgeError::Rpc { code: _, message } => "tool provider error: "@ + message@,
        BridgeError::ProcessExited(_) => "tool provider process exited"@,
        BridgeError::UnknownTool(name) => "no tool provider found for tool: "@ + name@,
        BridgeError::ToolExecution(m) => "tool execution failed: "@ + m@,
    }
}

impl BridgeError {
    /// The text of the failure.
    pub fn message(&self) -> (r: String)
        ensures
            r@ == error_text(*self),
    {
        let (head, tail): (&str, Option<&String>) = match self {
            BridgeError::Auth(m) => ("authentication failed: ", Some(m)),
            BridgeError::Transport(m) => ("transport error: ", Some(m)),
            BridgeError::Protocol(m) => ("protocol error: ", Some(m)),
            BridgeError::RpcTimeout => ("timeout waiting for tool provider response", None),
            BridgeError::Rpc { code: _, message } => ("tool provider error: ", Some(message)),
            BridgeError::ProcessExited(_) => ("tool provider process exited", None),
            BridgeError::UnknownTool(name) => ("no tool provider found for tool: ", Some(name)),
            BridgeError::ToolExecution(m) => ("tool execution failed: ", Some(m)),
        };
        let mut r = text_copy(head);
        match tail {
            Some(t) => push_text(&mut r, t.as_str()),
            None => {},
        }
        r
    }
}

/// The content of a completion after its function call ran: the tool's
/// text, or `Tool execution failed: ` and the failure, after the model's own
/// text when there is any.
pub open spec fn content_with_outcome(content: Seq<char>, outcome: Result<Seq<char>, Seq<char>>) -> Seq<char> {
    match outcome {
        Ok(text) => if content.len() == 0 {
            text
        } else {
            content + "\n\nTool Result:\n"@ + text
        },
        Err(failure) => if content.len() == 0 {
            "Tool execution failed: "@ + failure
        } else {
            content + "\n\nTool Error:\n"@ + ("Tool execution failed: "@ + failure)
        },
    }
}

/// The outcome of a tool call as text.
pub open spec fn outcome_text(outcome: Result<String, BridgeError>) -> Result<Seq<char>, Seq<char>> {
    match outcome {
        Ok(t) => Ok(t@),
        Err(e) => Err(error_text(e)),
    }
}

/// Adds the outcome of the completion's function call to its content. The
/// tool's result is not sent back to the model for another turn.
pub fn attach_tool_outcome(response: CompletionResponse, outcome: Result<String, BridgeError>) -> (r: CompletionResponse)
    ensures
        r.content@ == content_with_outcome(response.content@, outcome_text(outcome)),
        r.model == response.model,
        r.usage == response.usage,
        r.function_call == response.function_call,
{
    let mut response = response;
    let ok = outcome.is_ok();
    let text = match outcome {
        Ok(t) => t,
        Err(e) => {
            let mut m = text_copy("Tool execution failed: ");
            push_text(&mut m, e.message().as_str());
            m
        },
    };
    let empty = response.content.unicode_len() == 0;
    if empty {
        response.content = text;
    } else {
        if ok {
            push_text(&mut response.content, "\n\nTool Result:\n");
        } else {
            push_text(&mut response.content, "\n\nTool Error:\n");
        }
        push_text(&mut response.content, text.as_str());
    }
    response
}

/// A function call put together from the fragments of a stream.
pub struct CallAccumulator {
    pub name: Option<String>,
    pub arguments: Option<String>,
    pub finished: bool,
}

/// The accumulator's content as plain text.
pub struct AccumulatorModel {
    pub name: Option<Seq<char>>,
    pub arguments: Option<Seq<char>>,
    pub finished: bool,
}

impl View for CallAccumulator {
    type V = AccumulatorModel;

    open spec fn view(&self) -> AccumulatorModel {
        AccumulatorModel {
            name: crate::providers::opt_text(self.name),
            arguments: crate::providers::opt_text(self.arguments),
            finished: self.finished,
        }
    }
}

/// The accumulator after one more chunk: the latest name fragment wins,
/// argument fragments are appended in order, and a terminal chunk finishes
/// it. Chunks after the end change nothing.
pub open spec fn absorb_chunk(acc: AccumulatorModel, chunk: crate::providers::ChunkModel) -> AccumulatorModel {
    if acc.finished {
        acc
    } else {
        let (name, arguments) = match chunk.call {
            Some(d) => (
                match d.name {
                    Some(n) => Some(n),
                    None => acc.name,
                },
                match d.arguments {
                    Some(a) => match acc.arguments {
                        Some(b) => Some(b + a),
                        None => Some(a),
                    },
                    None => acc.arguments,
                },
            ),
            None => (acc.name, acc.arguments),
        };
        AccumulatorModel { name, arguments, finished: chunk.finish_reason is Some }
    }
}

impl CallAccumulator {
    /// An accumulator at the start of a stream.
    pub fn new() -> (r: CallAccumulator)
        ensures
            r@ == (AccumulatorModel { name: None, arguments: None, finished: false }),
    {
        CallAccumulator { name: None, arguments: None, finished: false }
    }

    /// Takes in one chunk of the stream.
    pub fn absorb(&mut self, chunk: &StreamingResponse)
        ensures
            final(self)@ == absorb_chunk(old(self)@, chunk@),
    {
        if self.finished {
            return;
        }
        match &chunk.function_call_delta {
            Some(d) => {
                match &d.name {
                    Some(n) => {
                        self.name = Some(n.clone());
                    },
                    None => {},
                }
                match &d.arguments {
                    Some(a) => {
                        match &mut self.arguments {
                            Some(b) => push_text(b, a.as_str()),
                            None => {
                                self.arguments = Some(a.clone());
                            },
                        }
                    },
                    None => {},
                }
            },
            None => {},
        }
        self.finished = chunk.finish_reason.is_some();
    }

    /// The call to run: only once the stream has ended, and only when both
    /// the name and the arguments are non-empty.
    pub fn ready_call(&self) -> (r: Option<FunctionCall>)
        ensures
            match r {
                Some(c) => self@.finished && self@.name == Some(c.name@) && self@.arguments == Some(c.arguments@)
                    && c.name@.len() > 0 && c.arguments@.len() > 0,
                None => !(self@.finished && self@.name is Some && self@.arguments is Some
                    && self@.name->0.len() > 0 && self@.arguments->0.len() > 0),
            },
    {
        if !self.finished {
            return None;
        }
        match (&self.name, &self.arguments) {
            (Some(n), Some(a)) => if n.unicode_len() > 0 && a.unicode_len() > 0 {
                Some(FunctionCall { name: n.clone(), arguments: a.clone() })
            } else {
                None
            },
            _ => None,
        }
    }
}

} // verus!
