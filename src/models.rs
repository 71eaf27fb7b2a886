//! What is known of locally hosted models: which of them can call functions.
//! The table is fixed; a model missing from it falls back on its family
//! name, and otherwise on "no".
use vstd::prelude::*;

use crate::text::{contains, contains_text, lower_of, lowercase, str_eq};

verus! {

/// A known model: whether it calls functions, its context window, and a note.
pub struct OllamaModelInfo {
    pub supports_functions: bool,
    pub context_window: usize,
    pub description: &'static str,
}

/// The known models: function support and context window.
pub open spec fn known_model(name: Seq<char>) -> Option<(bool, nat)> {
    if name == "mistral"@ {
        Some((true, 8192))
    } else if name == "mixtral"@ {
        Some((true, 32768))
    } else if name == "llama3.1"@ {
        Some((true, 8192))
    } else if name == "qwen2.5"@ {
        Some((true, 32768))
    } else if name == "command-r"@ {
        Some((true, 128000))
    } else if name == "llama2"@ {
        Some((false, 4096))
    } else if name == "codellama"@ {
        Some((false, 4096))
    } else if name == "deepseek-coder"@ {
        Some((false, 16384))
    } else {
        None
    }
}

/// The part of a model name before its first `:` (the tag), or all of it.
pub open spec fn base_name(name: Seq<char>) -> Seq<char> {
    if exists|i: int| 0 <= i < name.len() && name[i] == ':' {
        name.subrange(0, choose|i: int| 0 <= i < name.len() && name[i] == ':'
            && forall|j: int| 0 <= j < i ==> name[j] != ':')
    } else {
        name
    }
}

/// Whether a lower-cased model name names a family known to call functions.
pub open spec fn family_calls_functions(lower: Seq<char>) -> bool {
    contains(lower, "mistral"@) || contains(lower, "mixtral"@) || contains(lower, "llama3.1"@)
        || contains(lower, "llama-3.1"@) || contains(lower, "qwen2.5"@) || contains(lower, "qwen-2.5"@)
        || contains(lower, "command-r"@)
}

/// Whether model `name`, whose lower-case form is `lower`, calls functions:
/// by the table, else by the table under its base name, else by its family.
pub open spec fn calls_functions(name: Seq<char>, lower: Seq<char>) -> bool {
    match known_model(name) {
        Some((f, _)) => f,
        None => match known_model(base_name(name)) {
            Some((f, _)) => f,
            None => family_calls_functions(lower),
        },
    }
}

/// What the table says of `name`.
pub fn lookup_model(name: &str) -> (r: Option<OllamaModelInfo>)
    ensures
        match known_model(name@) {
            Some((f, w)) => r is Some && r->0.supports_functions == f && r->0.context_window == w,
            None => r is None,
        },
{
    let (f, w, d): (bool, usize, &'static str) = if str_eq(name, "mistral") {
        (true, 8192, "Mistral 7B - Good function calling support")
    } else if str_eq(name, "mixtral") {
        (true, 32768, "Mixtral 8x7B - Excellent function calling")
    } else if str_eq(name, "llama3.1") {
        (true, 8192, "Llama 3.1 - Best function calling support")
    } else if str_eq(name, "qwen2.5") {
        (true, 32768, "Qwen 2.5 - Good function support")
    } else if str_eq(name, "command-r") {
        (true, 128000, "Command-R - Designed for tool use")
    } else if str_eq(name, "llama2") {
        (false, 4096, "Llama 2 - No function calling")
    } else if str_eq(name, "codellama") {
        (false, 4096, "Code Llama - No function calling")
    } else if str_eq(name, "deepseek-coder") {
        (false, 16384, "DeepSeek Coder - No function calling")
    } else {
        return None;
    };
    Some(OllamaModelInfo { supports_functions: f, context_window: w, description: d })
}

/// The part of `name` before its first `:`.
pub fn model_base_name(name: &str) -> (r: &str)
    ensures
        r@ == base_name(name@),
{
    let n = name.unicode_len();
    let mut i: usize = 0;
    while i < n
        invariant
            n == name@.len(),
            i <= n,
            forall|j: int| 0 <= j < i ==> name@[j] != ':',
        decreases n - i,
    {
        if name.get_char(i) == ':' {
            proof {
                let s = name@;
                let c = choose|x: int| 0 <= x < s.len() && s[x] == ':' && forall|j: int| 0 <= j < x ==> s[j] != ':';
                assert(0 <= i < s.len() && s[i as int] == ':');
                assert(c == i);
            }
            return name.substring_char(0, i);
        }
        i = i + 1;
    }
    name
}

/// Whether model `name` calls functions, given its lower-case form.
pub fn calls_functions_lowered(name: &str, lower: &str) -> (r: bool)
    ensures
        r == calls_functions(name@, lower@),
{
    match lookup_model(name) {
        Some(info) => return info.supports_functions,
        None => {},
    }
    match lookup_model(model_base_name(name)) {
        Some(info) => return info.supports_functions,
        None => {},
    }
    contains_text(lower, "mistral") || contains_text(lower, "mixtral") || contains_text(lower, "llama3.1")
        || contains_text(lower, "llama-3.1") || contains_text(lower, "qwen2.5") || contains_text(lower, "qwen-2.5")
        || contains_text(lower, "command-r")
}

/// Whether model `model_name` calls functions.
pub fn model_supports_functions(model_name: &str) -> (r: bool)
    ensures
        r == calls_functions(model_name@, lower_of(model_name@)),
{
    let lower = lowercase(model_name);
    calls_functions_lowered(model_name, lower.as_str())
}

} // verus!
