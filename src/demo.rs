//! A built-in backend that answers from a fixed set of replies, for use
//! without any hosted or local model.
use vstd::prelude::*;

use crate::providers::{Message, MessageRole};
use crate::text::{contains, contains_text, lower_of, lowercase, push_text, text_copy};

verus! {

/// The replies of the demo backend, each chosen by a keyword.
pub struct DemoProvider {
    pub responses: Vec<(&'static str, &'static str)>,
}

/// The keywords of the replies, in order.
pub open spec fn keywords(rs: Seq<(&'static str, &'static str)>) -> Seq<Seq<char>> {
    rs.map_values(|r: (&'static str, &'static str)| r.0@)
}

/// The reply to a message whose lower-case form is `lower`: the first reply
/// whose keyword it contains, else the fallback that quotes the message.
pub open spec fn demo_reply(rs: Seq<(&'static str, &'static str)>, input: Seq<char>, lower: Seq<char>) -> Seq<char>
    decreases rs.len(),
{
    if rs.len() == 0 {
        fallback_reply(input)
    } else if contains(lower, rs[0].0@) {
        rs[0].1@
    } else {
        demo_reply(rs.drop_first(), input, lower)
    }
}

/// The reply when no keyword matches.
pub open spec fn fallback_reply(input: Seq<char>) -> Seq<char> {
    "I'm running in demo mode with limited capabilities. Your message: \""@ + input
        + "\"\n\nI can answer basic questions about programming, Rust, and AgentX. For full AI capabilities, please set up a real LLM provider (OpenAI, Anthropic, or Ollama)."@
}

/// The text of the last user message, or empty when there is none.
pub open spec fn last_user_text(ms: Seq<Message>) -> Seq<char>
    decreases ms.len(),
{
    if ms.len() == 0 {
        Seq::empty()
    } else if ms.last().role == MessageRole::User {
        ms.last().content@
    } else {
        last_user_text(ms.drop_last())
    }
}

impl DemoProvider {
    /// The demo backend with its replies.
    pub fn new() -> (r: DemoProvider)
        ensures
            r.responses@.len() == 5,
            r.responses@[0].0@ == "hello"@,
            r.responses@[1].0@ == "help"@,
            r.responses@[2].0@ == "rust"@,
            r.responses@[3].0@ == "setup"@,
            r.responses@[4].0@ == "agentx"@,
    {
        let mut responses: Vec<(&'static str, &'static str)> = Vec::new();
        responses.push(("hello", "Hello! I'm AgentX Demo Mode. I'm a built-in assistant that works without any external API keys or services."));
        responses.push(("help", "I can help you with:\n• Basic programming questions\n• Explaining AgentX features\n• Setting up real LLM providers\n\nTo use real AI models, set up OpenAI, Anthropic, or Ollama."));
        responses.push(("rust", "Rust is a systems programming language focused on safety, speed, and concurrency. Here's a simple example:\n\n```rust\nfn main() {\n    println!(\"Hello from Rust!\");\n}\n```"));
        responses.push(("setup", "To set up real LLM providers:\n\n1. **OpenAI**: Set OPENAI_API_KEY environment variable\n2. **Anthropic**: Set ANTHROPIC_API_KEY environment variable\n3. **Ollama**: Install from https://ollama.ai and run `ollama pull llama2`\n\nThen restart AgentX!"));
        responses.push(("agentx", "AgentX is an AI IDE for agentic software development. Features include:\n• Multi-provider LLM support\n• Streaming responses\n• Progressive UI (Simple → Mission Control → Pro)\n• Keyboard shortcuts (F1 for help)\n• MCP protocol support"));
        DemoProvider { responses }
    }

    /// The reply to `input`, given its lower-case form.
    pub fn reply_lowered(&self, input: &str, lower: &str) -> (r: String)
        ensures
            r@ == demo_reply(self.responses@, input@, lower@),
    {
        let mut k: usize = 0;
        assert(self.responses@.subrange(0, self.responses@.len() as int) =~= self.responses@);
        while k < self.responses.len()
            invariant
                k <= self.responses@.len(),
                demo_reply(self.responses@, input@, lower@) == demo_reply(
                    self.responses@.subrange(k as int, self.responses@.len() as int),
                    input@,
                    lower@,
                ),
            decreases self.responses@.len() - k,
        {
            let ghost rest = self.responses@.subrange(k as int, self.responses@.len() as int);
            proof {
                assert(rest.drop_first() =~= self.responses@.subrange(k + 1, self.responses@.len() as int));
                assert(rest[0] == self.responses@[k as int]);
            }
            let (keyword, response) = self.responses[k];
            if contains_text(lower, keyword) {
                return text_copy(response);
            }
            k = k + 1;
        }
        let mut r = text_copy("I'm running in demo mode with limited capabilities. Your message: \"");
        push_text(&mut r, input);
        push_text(&mut r, "\"\n\nI can answer basic questions about programming, Rust, and AgentX. For full AI capabilities, please set up a real LLM provider (OpenAI, Anthropic, or Ollama).");
        r
    }

    /// The reply to `input`.
    pub fn find_response(&self, input: &str) -> (r: String)
        ensures
            r@ == demo_reply(self.responses@, input@, lower_of(input@)),
    {
        let lower = lowercase(input);
        self.reply_lowered(input, lower.as_str())
    }
}

/// The last message that the user wrote, or empty text.
pub fn last_user_message(messages: &Vec<Message>) -> (r: &str)
    ensures
        r@ == last_user_text(messages@),
{
    let mut k: usize = messages.len();
    assert(messages@.subrange(0, k as int) =~= messages@);
    while k > 0
        invariant
            k <= messages@.len(),
            last_user_text(messages@) == last_user_text(messages@.subrange(0, k as int)),
        decreases k,
    {
        let ghost pre = messages@.subrange(0, k as int);
        proof {
            assert(pre.drop_last() =~= messages@.subrange(0, k - 1));
            assert(pre.last() == messages@[k - 1]);
        }
        if messages[k - 1].role == MessageRole::User {
            return messages[k - 1].content.as_str();
        }
        k = k - 1;
    }
    proof {
        reveal_strlit("");
        assert(messages@.subrange(0, 0).len() == 0);
    }
    ""
}

} // verus!
