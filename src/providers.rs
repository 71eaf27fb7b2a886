//! The request, response and streaming-chunk types shared by every backend.
use vstd::prelude::*;

use crate::json::JsonValue;

verus! {

/// Who wrote a message.
#[derive(Clone, Copy, Debug, PartialEq, Eq, Structural)]
pub enum MessageRole {
    System,
    User,
    Assistant,
    Function,
}

/// A model-issued call: the function's name and its JSON-encoded arguments.
pub struct FunctionCall {
    pub name: String,
    pub arguments: String,
}

/// One message of a conversation.
pub struct Message {
    pub role: MessageRole,
    pub content: String,
    pub function_call: Option<FunctionCall>,
}

/// A function that a model may call: name, description, JSON-schema parameters.
pub struct Function {
    pub name: String,
    pub description: String,
    pub parameters: JsonValue,
}

/// Which functions a model is allowed to call.
pub enum ToolChoice {
    NoCall,
    Auto,
    Function { name: String },
}

/// A completion request. Sampling temperature is carried by the transport
/// layer, which owns the floating-point value.
pub struct CompletionRequest {
    pub messages: Vec<Message>,
    pub model: String,
    pub max_tokens: Option<u32>,
    pub stream: bool,
    pub functions: Option<Vec<Function>>,
    pub tool_choice: Option<ToolChoice>,
}

/// Token counts reported by a backend.
#[derive(Clone, Copy, Debug, PartialEq, Eq, Structural)]
pub struct TokenUsage {
    pub prompt_tokens: u32,
    pub completion_tokens: u32,
    pub total_tokens: u32,
}

/// The answer to a non-streaming completion.
pub struct CompletionResponse {
    pub content: String,
    pub model: String,
    pub usage: Option<TokenUsage>,
    pub function_call: Option<FunctionCall>,
}

/// A fragment of a function call that arrives while a response streams.
pub struct FunctionCallDelta {
    pub name: Option<String>,
    pub arguments: Option<String>,
}

/// One chunk of a streamed response.
pub struct StreamingResponse {
    pub delta: String,
    pub finish_reason: Option<String>,
    pub function_call_delta: Option<FunctionCallDelta>,
}

/// A model that a backend offers.
pub struct ModelInfo {
    pub id: String,
    pub name: String,
    pub context_window: u32,
}

/// What a backend can do.
pub struct ProviderCapabilities {
    pub models: Vec<ModelInfo>,
    pub supports_streaming: bool,
    pub supports_functions: bool,
    pub supports_system_messages: bool,
}

/// How to reach a hosted backend.
pub struct ProviderConfig {
    pub api_key: Option<String>,
    pub base_url: Option<String>,
    pub timeout_secs: Option<u64>,
    pub max_retries: Option<u32>,
}

/// Failures of a backend adapter.
pub enum ProviderError {
    MissingApiKey,
    InvalidConfig(String),
    ModelNotFound(String),
    RateLimit,
    Network(String),
    ApiError(String),
}

/// The text of an optional string.
pub open spec fn opt_text(o: Option<String>) -> Option<Seq<char>> {
    match o {
        Some(s) => Some(s@),
        None => None,
    }
}

/// A function-call fragment as plain text.
pub struct CallDeltaModel {
    pub name: Option<Seq<char>>,
    pub arguments: Option<Seq<char>>,
}

/// A streaming chunk as plain text.
pub struct ChunkModel {
    pub delta: Seq<char>,
    pub finish_reason: Option<Seq<char>>,
    pub call: Option<CallDeltaModel>,
}

impl View for FunctionCallDelta {
    type V = CallDeltaModel;

    open spec fn view(&self) -> CallDeltaModel {
        CallDeltaModel { name: opt_text(self.name), arguments: opt_text(self.arguments) }
    }
}

impl View for StreamingResponse {
    type V = ChunkModel;

    open spec fn view(&self) -> ChunkModel {
        ChunkModel {
            delta: self.delta@,
            finish_reason: opt_text(self.finish_reason),
            call: match self.function_call_delta {
                Some(d) => Some(d@),
                None => None,
            },
        }
    }
}

/// The wire name of a role.
pub open spec fn role_text(role: MessageRole) -> Seq<char> {
    match role {
        MessageRole::System => "system"@,
        MessageRole::User => "user"@,
        MessageRole::Assistant => "assistant"@,
        MessageRole::Function => "function"@,
    }
}

impl MessageRole {
    /// The wire name of the role.
    pub fn wire_name(&self) -> (r: &'static str)
        ensures
            r@ == role_text(*self),
    {
        match self {
            MessageRole::System => "system",
            MessageRole::User => "user",
            MessageRole::Assistant => "assistant",
            MessageRole::Function => "function",
        }
    }
}

impl FunctionCall {
    /// A copy of this call.
    pub fn duplicate(&self) -> (r: FunctionCall)
        ensures
            r.name@ == self.name@,
            r.arguments@ == self.arguments@,
    {
        FunctionCall { name: self.name.clone(), arguments: self.arguments.clone() }
    }
}

impl StreamingResponse {
    /// A chunk that carries nothing and does not end the stream.
    pub fn empty() -> (r: StreamingResponse)
        ensures
            r@ == (ChunkModel { delta: Seq::empty(), finish_reason: None, call: None }),
    {
        StreamingResponse { delta: String::new(), finish_reason: None, function_call_delta: None }
    }

    /// The chunk that ends a stream normally.
    pub fn stop() -> (r: StreamingResponse)
        ensures
            r@ == (ChunkModel { delta: Seq::empty(), finish_reason: Some("stop"@), call: None }),
    {
        StreamingResponse {
            delta: String::new(),
            finish_reason: Some(crate::text::text_copy("stop")),
            function_call_delta: None,
        }
    }

    /// Whether this chunk ends its stream.
    pub fn is_terminal(&self) -> (r: bool)
        ensures
            r == (self@.finish_reason is Some),
    {
        self.finish_reason.is_some()
    }
}

/// How a request tells an OpenAI-style backend which functions it may call.
pub enum FunctionCallOption {
    Mode(String),
    Named { name: String },
}

/// A function-call option as plain text: a mode word or a function's name.
pub open spec fn option_model(o: FunctionCallOption) -> (bool, Seq<char>) {
    match o {
        FunctionCallOption::Mode(m) => (false, m@),
        FunctionCallOption::Named { name } => (true, name@),
    }
}

impl FunctionCallOption {
    /// No function may be called.
    pub fn none() -> (r: FunctionCallOption)
        ensures
            option_model(r) == (false, "none"@),
    {
        FunctionCallOption::Mode(crate::text::text_copy("none"))
    }

    /// The model decides.
    pub fn auto() -> (r: FunctionCallOption)
        ensures
            option_model(r) == (false, "auto"@),
    {
        FunctionCallOption::Mode(crate::text::text_copy("auto"))
    }

    /// The named function must be called.
    pub fn function(name: String) -> (r: FunctionCallOption)
        ensures
            option_model(r) == (true, name@),
    {
        FunctionCallOption::Named { name }
    }

    /// The option sent for a request's tool choice; a request that offers
    /// functions without a choice lets the model decide.
    pub fn for_choice(choice: Option<ToolChoice>) -> (r: FunctionCallOption)
        ensures
            option_model(r) == match choice {
                Some(ToolChoice::NoCall) => (false, "none"@),
                Some(ToolChoice::Function { name }) => (true, name@),
                _ => (false, "auto"@),
            },
    {
        match choice {
            Some(ToolChoice::NoCall) => FunctionCallOption::none(),
            Some(ToolChoice::Function { name }) => FunctionCallOption::function(name),
            _ => FunctionCallOption::auto(),
        }
    }
}

/// A rough token count: one token for every four bytes of UTF-8 text, held
/// at the largest count.
pub fn estimate_tokens(text: &str) -> (r: u32)
    ensures
        r as int == (if text.len() / 4 <= u32::MAX as int {
            (text.len() / 4) as int
        } else {
            u32::MAX as int
        }),
{
    let q = text.len() / 4;
    if q <= 4294967295usize {
        q as u32
    } else {
        4294967295u32
    }
}

/// The name of a backend once the tool catalogue is added to it.
pub fn enhanced_name(base: &str) -> (r: String)
    ensures
        r@ == base@ + "_with_mcp"@,
{
    let mut r = crate::text::text_copy(base);
    crate::text::push_text(&mut r, "_with_mcp");
    r
}

} // verus!
