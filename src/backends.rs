//! Decisions that hosted and local backends share: credentials and what a
//! backend reports it can do.
use vstd::prelude::*;

use crate::error::BridgeError;
use crate::json::{field, text_field, JsonValue};
use crate::models::{calls_functions, model_supports_functions};
use crate::providers::{ModelInfo, ProviderCapabilities};
use crate::text::{contains, contains_text, lower_of, text_copy};

verus! {

/// The credential of a backend that needs one; its absence is an
/// authentication error, raised before any request.
pub fn require_api_key(api_key: &Option<String>) -> (r: Result<&String, BridgeError>)
    ensures
        match api_key {
            Some(k) => r == Ok::<&String, BridgeError>(k),
            None => r is Err && r->Err_0 is Auth,
        },
{
    match api_key {
        Some(k) => Ok(k),
        None => Err(BridgeError::Auth(text_copy("API key not configured"))),
    }
}

/// The ids of some models.
pub open spec fn model_ids(ms: Seq<ModelInfo>) -> Seq<Seq<char>> {
    ms.map_values(|m: ModelInfo| m.id@)
}

/// The names of some models.
pub open spec fn model_names(ms: Seq<ModelInfo>) -> Seq<Seq<char>> {
    ms.map_values(|m: ModelInfo| m.name@)
}

/// The models a local server offers when it cannot list them.
pub open spec fn fallback_ids() -> Seq<Seq<char>> {
    seq!["llama2"@, "mistral"@, "codellama"@]
}

/// Whether some model of `ids` calls functions.
pub open spec fn any_calls_functions(ids: Seq<Seq<char>>) -> bool {
    exists|i: int| 0 <= i < ids.len() && calls_functions(#[trigger] ids[i], lower_of(ids[i]))
}

fn model_info(id: &str, name: &str, window: u32) -> (r: ModelInfo)
    ensures
        r.id@ == id@,
        r.name@ == name@,
        r.context_window == window,
{
    ModelInfo { id: text_copy(id), name: text_copy(name), context_window: window }
}

/// What an OpenAI-compatible local server can do. The models are the ones
/// it listed, or a fixed fallback when listing failed. A server on Ollama's
/// port calls functions when one of its models does; other servers are
/// taken to call functions.
pub fn local_capabilities(listed: Result<Vec<String>, BridgeError>, base_url: &str) -> (r: ProviderCapabilities)
    ensures
        model_ids(r.models@) == match listed {
            Ok(ids) => ids@.map_values(|s: String| s@),
            Err(_) => fallback_ids(),
        },
        match listed {
            Ok(_) => forall|i: int| 0 <= i < r.models@.len() ==> (#[trigger] r.models@[i]).name@ == r.models@[i].id@
                && r.models@[i].context_window == 4096,
            Err(_) => model_names(r.models@) == seq!["Llama 2"@, "Mistral"@, "Code Llama"@]
                && r.models@[0].context_window == 4096 && r.models@[1].context_window == 8192
                && r.models@[2].context_window == 4096,
        },
        r.supports_functions == (if contains(base_url@, "11434"@) {
            any_calls_functions(model_ids(r.models@))
        } else {
            true
        }),
        r.supports_streaming,
        r.supports_system_messages,
{
    let mut models: Vec<ModelInfo> = Vec::new();
    match listed {
        Ok(ids) => {
            let ghost all = ids@.map_values(|s: String| s@);
            let mut k: usize = 0;
            while k < ids.len()
                invariant
                    k <= ids@.len(),
                    all == ids@.map_values(|s: String| s@),
                    model_ids(models@) == all.subrange(0, k as int),
                    forall|i: int| 0 <= i < models@.len() ==> (#[trigger] models@[i]).name@ == models@[i].id@
                        && models@[i].context_window == 4096,
                decreases ids@.len() - k,
            {
                let ghost prev = models@;
                models.push(ModelInfo { id: ids[k].clone(), name: ids[k].clone(), context_window: 4096 });
                proof {
                    assert(model_ids(models@) =~= model_ids(prev).push(ids@[k as int]@));
                    assert(all.subrange(0, k + 1) =~= all.subrange(0, k as int).push(all[k as int]));
                }
                k = k + 1;
            }
            assert(all.subrange(0, all.len() as int) =~= all);
        },
        Err(_) => {
            models.push(model_info("llama2", "Llama 2", 4096));
            models.push(model_info("mistral", "Mistral", 8192));
            models.push(model_info("codellama", "Code Llama", 4096));
            assert(model_ids(models@) =~= fallback_ids());
            assert(model_names(models@) =~= seq!["Llama 2"@, "Mistral"@, "Code Llama"@]);
        },
    }
    let supports_functions = if contains_text(base_url, "11434") {
        let mut any = false;
        let mut k: usize = 0;
        while k < models.len()
            invariant
                k <= models@.len(),
                any == exists|i: int| 0 <= i < k && calls_functions(#[trigger] model_ids(models@)[i], lower_of(model_ids(models@)[i])),
            decreases models@.len() - k,
        {
            let f = model_supports_functions(models[k].id.as_str());
            proof {
                assert(model_ids(models@)[k as int] == models@[k as int].id@);
                if f {
                    assert(calls_functions(model_ids(models@)[k as int], lower_of(model_ids(models@)[k as int])));
                }
            }
            any = any || f;
            k = k + 1;
        }
        any
    } else {
        true
    };
    ProviderCapabilities { models, supports_streaming: true, supports_functions, supports_system_messages: true }
}

/// The base URL of a local server: the configured one, else Ollama's.
pub fn base_url_or_default(base_url: &Option<String>) -> (r: &str)
    ensures
        r@ == match base_url {
            Some(u) => u@,
            None => "http://localhost:11434"@,
        },
{
    match base_url {
        Some(u) => u.as_str(),
        None => "http://localhost:11434",
    }
}

/// Whether `ids` are the `id` texts of the elements of `items`, in order.
pub open spec fn ids_listed(items: Seq<JsonValue>, ids: Seq<Seq<char>>) -> bool {
    &&& items.len() == ids.len()
    &&& forall|i: int| 0 <= i < items.len() ==> text_field(#[trigger] items[i], "id"@) == Some(ids[i])
}

/// The model ids of a `/v1/models` reply: every element of its `data`
/// array must carry a text `id`, else the reply is a protocol error.
pub fn model_ids_from_list(doc: &JsonValue) -> (r: Result<Vec<String>, BridgeError>)
    ensures
        match field(*doc, "data"@) {
            Some(JsonValue::Array(items)) => if forall|i: int| 0 <= i < items@.len() ==> (#[trigger] text_field(items@[i], "id"@)) is Some {
                r is Ok && ids_listed(items@, r->Ok_0@.map_values(|s: String| s@))
            } else {
                r is Err && r->Err_0 is Protocol
            },
            _ => r is Err && r->Err_0 is Protocol,
        },
{
    let items = match doc.get("data") {
        Some(JsonValue::Array(items)) => items,
        _ => return Err(BridgeError::Protocol(text_copy("model list without data"))),
    };
    let mut ids: Vec<String> = Vec::new();
    let mut k: usize = 0;
    while k < items.len()
        invariant
            field(*doc, "data"@) == Some(JsonValue::Array(*items)),
            k <= items@.len(),
            ids@.len() == k,
            forall|i: int| 0 <= i < k ==> text_field(#[trigger] items@[i], "id"@) == Some(ids@[i]@),
        decreases items@.len() - k,
    {
        match items[k].text_field("id") {
            Some(id) => ids.push(id.clone()),
            None => {
                assert(text_field(items@[k as int], "id"@) is None);
                return Err(BridgeError::Protocol(text_copy("model without id")));
            },
        }
        k = k + 1;
    }
    proof {
        let v = ids@.map_values(|s: String| s@);
        assert forall|i: int| 0 <= i < items@.len() implies text_field(#[trigger] items@[i], "id"@) == Some(v[i]) by {
            assert(v[i] == ids@[i]@);
        }
    }
    Ok(ids)
}

/// What a tool-provider process offers as a backend: one model, and
/// streaming, functions and system messages.
pub fn mcp_capabilities() -> (r: ProviderCapabilities)
    ensures
        model_ids(r.models@) == seq!["mcp-default"@],
        r.models@[0].context_window == 128000,
        r.supports_streaming && r.supports_functions && r.supports_system_messages,
{
    let mut models: Vec<ModelInfo> = Vec::new();
    models.push(model_info("mcp-default", "MCP Default Model", 128000));
    assert(model_ids(models@) =~= seq!["mcp-default"@]);
    ProviderCapabilities { models, supports_streaming: true, supports_functions: true, supports_system_messages: true }
}

/// What the demo backend offers: one model, streaming only.
pub fn demo_capabilities() -> (r: ProviderCapabilities)
    ensures
        model_ids(r.models@) == seq!["demo-assistant"@],
        r.supports_streaming && !r.supports_functions && !r.supports_system_messages,
{
    let mut models: Vec<ModelInfo> = Vec::new();
    models.push(model_info("demo-assistant", "Demo Assistant", 1000));
    assert(model_ids(models@) =~= seq!["demo-assistant"@]);
    ProviderCapabilities { models, supports_streaming: true, supports_functions: false, supports_system_messages: false }
}

/// The backend a chat goes to, with the settings to reach it.
pub enum BackendChoice {
    OpenAi(crate::providers::ProviderConfig),
    Anthropic(crate::providers::ProviderConfig),
    Local(crate::providers::ProviderConfig),
    Demo,
}

/// The kinds of backend, as plain values.
pub enum BackendKind {
    OpenAi,
    Anthropic,
    Local,
    Demo,
}

/// Which backend serves provider `id`: a hosted one when it is configured
/// with a key, the local one when it is configured (under `local`, else
/// `ollama`), and otherwise the demo backend.
pub open spec fn backend_kind(ps: Seq<(String, crate::config::ProviderConfig)>, id: Seq<char>) -> BackendKind {
    if id == "openai"@ && crate::config::provider_index(ps, "openai"@) is Some
        && ps[crate::config::provider_index(ps, "openai"@)->0].1.api_key is Some {
        BackendKind::OpenAi
    } else if id == "anthropic"@ && crate::config::provider_index(ps, "anthropic"@) is Some
        && ps[crate::config::provider_index(ps, "anthropic"@)->0].1.api_key is Some {
        BackendKind::Anthropic
    } else if (id == "local"@ || id == "ollama"@) && (crate::config::provider_index(ps, "local"@) is Some
        || crate::config::provider_index(ps, "ollama"@) is Some) {
        BackendKind::Local
    } else {
        BackendKind::Demo
    }
}

/// Whether `c` carries the key and address configured for provider `name`,
/// with 30 seconds and 3 retries.
pub open spec fn hosted_from(
    c: crate::providers::ProviderConfig,
    ps: Seq<(String, crate::config::ProviderConfig)>,
    name: Seq<char>,
) -> bool {
    let p = ps[crate::config::provider_index(ps, name)->0].1;
    &&& c.api_key is Some && p.api_key is Some && c.api_key->0@ == p.api_key->0@
    &&& c.base_url is Some && c.base_url->0@ == p.base_url@
    &&& c.timeout_secs == Some(30u64)
    &&& c.max_retries == Some(3u32)
}

/// The settings of a hosted backend: its key and address, 30 seconds, 3 retries.
fn hosted_settings(p: &crate::config::ProviderConfig, key: &String) -> (r: crate::providers::ProviderConfig)
    ensures
        r.api_key is Some && r.api_key->0@ == key@,
        r.base_url is Some && r.base_url->0@ == p.base_url@,
        r.timeout_secs == Some(30u64),
        r.max_retries == Some(3u32),
{
    crate::providers::ProviderConfig {
        api_key: Some(key.clone()),
        base_url: Some(p.base_url.clone()),
        timeout_secs: Some(30),
        max_retries: Some(3),
    }
}

/// The backend for a chat with `provider_id`, or with the default provider.
pub fn choose_backend(config: &crate::config::AgentXConfig, provider_id: Option<&str>) -> (r: BackendChoice)
    ensures
        ({
            let id = match provider_id {
                Some(p) => p@,
                None => config.default_provider@,
            };
            match (backend_kind(config.providers@, id), r) {
                (BackendKind::OpenAi, BackendChoice::OpenAi(c)) => hosted_from(c, config.providers@, "openai"@),
                (BackendKind::Anthropic, BackendChoice::Anthropic(c)) => hosted_from(c, config.providers@, "anthropic"@),
                (BackendKind::Local, BackendChoice::Local(c)) => {
                    let key = if crate::config::provider_index(config.providers@, "local"@) is Some {
                        "local"@
                    } else {
                        "ollama"@
                    };
                    let p = config.providers@[crate::config::provider_index(config.providers@, key)->0].1;
                    &&& c.api_key is None
                    &&& c.base_url is Some && c.base_url->0@ == p.base_url@
                    &&& c.timeout_secs == Some(300u64)
                    &&& c.max_retries == Some(3u32)
                },
                (BackendKind::Demo, BackendChoice::Demo) => true,
                _ => false,
            }
        }),
{
    let id: &str = match provider_id {
        Some(p) => p,
        None => config.default_provider.as_str(),
    };
    if crate::text::str_eq(id, "openai") {
        match config.get_provider("openai") {
            Some(p) => match &p.api_key {
                Some(k) => return BackendChoice::OpenAi(hosted_settings(p, k)),
                None => {},
            },
            None => {},
        }
    } else if crate::text::str_eq(id, "anthropic") {
        match config.get_provider("anthropic") {
            Some(p) => match &p.api_key {
                Some(k) => return BackendChoice::Anthropic(hosted_settings(p, k)),
                None => {},
            },
            None => {},
        }
    } else if crate::text::str_eq(id, "local") || crate::text::str_eq(id, "ollama") {
        let found = match config.get_provider("local") {
            Some(p) => Some(p),
            None => config.get_provider("ollama"),
        };
        match found {
            Some(p) => {
                return BackendChoice::Local(crate::providers::ProviderConfig {
                    api_key: None,
                    base_url: Some(p.base_url.clone()),
                    timeout_secs: Some(300),
                    max_retries: Some(3),
                });
            },
            None => {},
        }
    }
    proof {
        reveal_strlit("openai");
        reveal_strlit("anthropic");
        reveal_strlit("local");
        reveal_strlit("ollama");
        assert("openai"@.len() == 6 && "anthropic"@.len() == 9 && "local"@.len() == 5 && "ollama"@.len() == 6);
        assert("openai"@[1] != "ollama"@[1]);
        assert("openai"@ != "ollama"@);
        assert("openai"@ != "anthropic"@ && "openai"@ != "local"@);
        assert("anthropic"@ != "local"@ && "anthropic"@ != "ollama"@);
    }
    BackendChoice::Demo
}

} // verus!
