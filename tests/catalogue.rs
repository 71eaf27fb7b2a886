use agentx_bridge::commands::{ContextManager, ProjectMarkers, ProjectType, ShellCommand};
use agentx_bridge::backends::{base_url_or_default, choose_backend, BackendChoice, local_capabilities, model_ids_from_list, require_api_key};
use agentx_bridge::completion::{anthropic_completion_from_document, completion_from_document, sampling_completion};
use agentx_bridge::config::{AgentXConfig, ModelConfig, ProviderConfig, ProviderStatus, ProviderType, UIConfig};
use agentx_bridge::decorator::{attach_tool_outcome, enhance_request};
use agentx_bridge::demo::{last_user_message, DemoProvider};
use agentx_bridge::error::BridgeError;
use agentx_bridge::history::HistoryAnalyzer;
use agentx_bridge::json::{parse_document, JsonValue};
use agentx_bridge::models::{lookup_model, model_base_name, model_supports_functions};
use agentx_bridge::providers::{
    CompletionRequest, CompletionResponse, Function, Message, MessageRole, ToolChoice,
};
use agentx_bridge::requests::{anthropic_messages, anthropic_request_document, openai_request_document};

fn msg(role: MessageRole, content: &str) -> Message {
    Message { role, content: content.to_string(), function_call: None }
}

fn model(name: &str) -> ModelConfig {
    ModelConfig {
        name: name.to_string(),
        display_name: name.to_uppercase(),
        context_size: 4096,
        supports_streaming: true,
        description: None,
    }
}

fn config() -> AgentXConfig {
    AgentXConfig {
        default_provider: "ollama".to_string(),
        default_model: "llama2".to_string(),
        providers: vec![
            (
                "openai".to_string(),
                ProviderConfig {
                    name: "OpenAI".to_string(),
                    provider_type: ProviderType::OpenAI,
                    base_url: "https://api.openai.com/v1".to_string(),
                    api_key: None,
                    models: vec![model("gpt-4"), model("gpt-3.5-turbo")],
                },
            ),
            (
                "ollama".to_string(),
                ProviderConfig {
                    name: "Ollama".to_string(),
                    provider_type: ProviderType::Ollama,
                    base_url: "http://localhost:11434".to_string(),
                    api_key: None,
                    models: vec![model("mistral"), model("llama2"), model("codellama")],
                },
            ),
        ],
        ui: UIConfig { show_model_selector: true, auto_stream: true, theme: "default".to_string() },
        mcp_servers: vec![],
    }
}

fn request(functions: Option<Vec<Function>>, choice: Option<ToolChoice>) -> CompletionRequest {
    CompletionRequest {
        messages: vec![msg(MessageRole::System, "be brief"), msg(MessageRole::User, "hi")],
        model: "mistral".to_string(),
        max_tokens: Some(1000),
        stream: true,
        functions,
        tool_choice: choice,
    }
}

fn weather_function() -> Function {
    Function {
        name: "get_weather".to_string(),
        description: "weather".to_string(),
        parameters: parse_document("{\"type\":\"object\"}").unwrap(),
    }
}

fn encode(v: &JsonValue) -> serde_json::Value {
    match v {
        JsonValue::Null => serde_json::Value::Null,
        JsonValue::Bool(b) => serde_json::Value::Bool(*b),
        JsonValue::Number(agentx_bridge::json::JsonNumber::PosInt(u)) => serde_json::Value::from(*u),
        JsonValue::Number(agentx_bridge::json::JsonNumber::NegInt(i)) => serde_json::Value::from(*i),
        JsonValue::Number(agentx_bridge::json::JsonNumber::Float(n)) => serde_json::Value::Number(n.clone()),
        JsonValue::Str(s) => serde_json::Value::String(s.clone()),
        JsonValue::Array(a) => serde_json::Value::Array(a.iter().map(encode).collect()),
        JsonValue::Object(m) => serde_json::Value::Object(m.iter().map(|(k, x)| (k.clone(), encode(x))).collect()),
    }
}

#[test]
fn provider_lookups() {
    let c = config();
    assert_eq!(c.get_provider("ollama").unwrap().name, "Ollama");
    assert!(c.get_provider("anthropic").is_none());
    assert_eq!(c.get_default_provider().unwrap().name, "Ollama");
    assert_eq!(c.get_model("openai", "gpt-4").unwrap().display_name, "GPT-4");
    assert!(c.get_model("openai", "llama2").is_none());
    assert_eq!(c.get_default_model().unwrap().name, "llama2");
}

#[test]
fn set_default_model_checks_the_pair() {
    let mut c = config();
    assert!(c.set_default_model("openai".to_string(), "gpt-4".to_string()).is_ok());
    assert_eq!(c.default_provider, "openai");
    assert_eq!(c.default_model, "gpt-4");
    assert!(c.set_default_model("openai".to_string(), "mistral".to_string()).is_err());
    assert_eq!(c.default_model, "gpt-4");
}

#[test]
fn listing_is_sorted_by_provider_and_model() {
    let keys: Vec<String> = config().list_available_models().into_iter().map(|(k, _)| k).collect();
    assert_eq!(
        keys,
        vec!["ollama/codellama", "ollama/llama2", "ollama/mistral", "openai/gpt-3.5-turbo", "openai/gpt-4"]
    );
}

#[test]
fn status_icons_and_descriptions() {
    assert_eq!(ProviderStatus::Online.icon(), "🟢");
    assert_eq!(ProviderStatus::Unknown.icon(), "⚪");
    assert_eq!(ProviderStatus::Offline.description(), "Not available");
    assert_eq!(ProviderStatus::ConfigError("no key".to_string()).description(), "Configuration issue: no key");
}

#[test]
fn model_function_support() {
    assert!(model_supports_functions("mistral"));
    assert!(model_supports_functions("llama3.1:70b"));
    assert!(!model_supports_functions("llama2:latest"));
    assert!(model_supports_functions("My-MIXTRAL-Finetune"));
    assert!(!model_supports_functions("phi3"));
    assert_eq!(model_base_name("qwen2.5:7b"), "qwen2.5");
    assert_eq!(lookup_model("command-r").unwrap().context_window, 128000);
}

#[test]
fn demo_replies_by_keyword() {
    let d = DemoProvider::new();
    assert!(d.find_response("HELLO there").starts_with("Hello! I'm AgentX Demo Mode."));
    assert!(d.find_response("tell me about Rust").starts_with("Rust is a systems programming language"));
    let fallback = d.find_response("what time is it?");
    assert!(fallback.contains("Your message: \"what time is it?\""));
    let ms = vec![msg(MessageRole::User, "first"), msg(MessageRole::Assistant, "ok"), msg(MessageRole::User, "second"), msg(MessageRole::Assistant, "ok")];
    assert_eq!(last_user_message(&ms), "second");
    assert_eq!(last_user_message(&vec![]), "");
}

#[test]
fn shell_command_builder() {
    let c = ShellCommand::new("cargo", vec!["test", "--all"]).with_description("run all tests");
    assert_eq!(c.command, "cargo");
    assert_eq!(c.args, vec!["test".to_string(), "--all".to_string()]);
    assert_eq!(c.description, "run all tests");
}

#[test]
fn project_type_by_markers() {
    let m = ContextManager::new();
    assert!(m.project_root.is_none());
    let none = ProjectMarkers { cargo_toml: false, package_json: false, requirements_txt: false, setup_py: false, pyproject_toml: false, go_mod: false };
    assert_eq!(m.project_type_from_markers(&none), ProjectType::Unknown);
    let py = ProjectMarkers { pyproject_toml: true, go_mod: true, ..none };
    assert_eq!(m.project_type_from_markers(&py), ProjectType::Python);
    let rs = ProjectMarkers { cargo_toml: true, package_json: true, ..none };
    assert_eq!(m.project_type_from_markers(&rs), ProjectType::Rust);
}

#[test]
fn history_keeps_the_most_recent() {
    let mut h = HistoryAnalyzer::new(2);
    h.add_command("cargo build".to_string(), true, 1, 10);
    h.add_command("cargo test".to_string(), true, 2, 10);
    h.add_command("cargo build".to_string(), false, 3, 10);
    assert_eq!(h.command_history.len(), 2);
    assert_eq!(h.command_history[0].command, "cargo test");
    assert_eq!(h.frequency("cargo build"), 1);
    let mut z = HistoryAnalyzer::new(0);
    z.add_command("ls".to_string(), true, 1, 1);
    assert!(z.command_history.is_empty());
}

#[test]
fn anthropic_conversation_split() {
    let ms = vec![
        msg(MessageRole::System, "sys"),
        msg(MessageRole::User, "u"),
        msg(MessageRole::Function, "42"),
        msg(MessageRole::Assistant, "a"),
    ];
    let (system, out) = anthropic_messages(&ms);
    assert_eq!(system.as_deref(), Some("sys"));
    assert_eq!(
        out,
        vec![
            ("user".to_string(), "u".to_string()),
            ("user".to_string(), "Function result: 42".to_string()),
            ("assistant".to_string(), "a".to_string()),
        ]
    );
}

#[test]
fn openai_body_with_and_without_functions() {
    let body = encode(&openai_request_document(request(None, None), true));
    assert_eq!(body["model"], "mistral");
    assert_eq!(body["stream"], true);
    assert_eq!(body["max_tokens"], 1000);
    assert_eq!(body["messages"][0]["role"], "system");
    assert_eq!(body["messages"][1]["content"], "hi");
    assert!(body.get("functions").is_none());
    assert!(body.get("function_call").is_none());
    let body = encode(&openai_request_document(request(Some(vec![weather_function()]), None), false));
    assert_eq!(body["functions"][0]["name"], "get_weather");
    assert_eq!(body["function_call"], "auto");
    let body = encode(&openai_request_document(
        request(Some(vec![weather_function()]), Some(ToolChoice::Function { name: "get_weather".to_string() })),
        false,
    ));
    assert_eq!(body["function_call"]["name"], "get_weather");
}

#[test]
fn decorator_offers_tools_only_when_it_should() {
    let r = enhance_request(request(None, None), true, vec![weather_function()]);
    assert_eq!(r.functions.as_ref().unwrap().len(), 1);
    assert!(matches!(r.tool_choice, Some(ToolChoice::Auto)));
    let r = enhance_request(request(None, Some(ToolChoice::NoCall)), true, vec![weather_function()]);
    assert!(matches!(r.tool_choice, Some(ToolChoice::NoCall)));
    let r = enhance_request(request(None, None), false, vec![weather_function()]);
    assert!(r.functions.is_none());
    assert!(r.tool_choice.is_none());
    let r = enhance_request(request(None, None), true, vec![]);
    assert!(r.functions.is_none());
}

#[test]
fn tool_outcome_is_appended() {
    let resp = CompletionResponse { content: "Checking.".to_string(), model: "m".to_string(), usage: None, function_call: None };
    let r = attach_tool_outcome(resp, Ok("Sunny".to_string()));
    assert_eq!(r.content, "Checking.\n\nTool Result:\nSunny");
    let resp = CompletionResponse { content: String::new(), model: "m".to_string(), usage: None, function_call: None };
    let r = attach_tool_outcome(resp, Err(BridgeError::UnknownTool("x".to_string())));
    assert_eq!(r.content, "Tool execution failed: no tool provider found for tool: x");
    let resp = CompletionResponse { content: "Checking.".to_string(), model: "m".to_string(), usage: None, function_call: None };
    let r = attach_tool_outcome(resp, Err(BridgeError::RpcTimeout));
    assert_eq!(r.content, "Checking.\n\nTool Error:\nTool execution failed: timeout waiting for tool provider response");
}

#[test]
fn completion_with_native_call_and_usage() {
    let doc = parse_document(
        "{\"id\":\"c1\",\"choices\":[{\"message\":{\"role\":\"assistant\",\"content\":null,\"function_call\":{\"name\":\"get_weather\",\"arguments\":\"{}\"}},\"finish_reason\":\"function_call\"}],\"usage\":{\"prompt_tokens\":5,\"completion_tokens\":7,\"total_tokens\":12}}",
    )
    .unwrap();
    let r = completion_from_document(&doc, "gpt-4".to_string()).ok().unwrap();
    assert_eq!(r.content, "");
    assert_eq!(r.function_call.as_ref().unwrap().name, "get_weather");
    assert_eq!(r.usage.unwrap().total_tokens, 12);
    assert_eq!(r.model, "gpt-4");
}

#[test]
fn completion_with_bracket_tagged_call() {
    let doc = parse_document(
        "{\"choices\":[{\"message\":{\"role\":\"assistant\",\"content\":\"One moment.[TOOL_REQUEST]{\\\"name\\\":\\\"get_time\\\",\\\"arguments\\\":{\\\"tz\\\":\\\"UTC\\\"}}[END_TOOL_REQUEST]\"}}]}",
    )
    .unwrap();
    let r = completion_from_document(&doc, "deepseek".to_string()).ok().unwrap();
    assert_eq!(r.content, "One moment.");
    let call = r.function_call.unwrap();
    assert_eq!(call.name, "get_time");
    assert_eq!(call.arguments, "{\"tz\":\"UTC\"}");
    assert!(r.usage.is_none());
}

#[test]
fn completion_without_choices_is_a_protocol_error() {
    let doc = parse_document("{\"choices\":[]}").unwrap();
    assert!(matches!(completion_from_document(&doc, "m".to_string()), Err(BridgeError::Protocol(_))));
}

#[test]
fn anthropic_reply_joins_blocks_and_counts_tokens() {
    let doc = parse_document(
        "{\"id\":\"m1\",\"model\":\"haiku-3-20240307\",\"content\":[{\"type\":\"text\",\"text\":\"Hello\"},{\"type\":\"text\",\"text\":\", world\"}],\"usage\":{\"input_tokens\":3,\"output_tokens\":4}}",
    )
    .unwrap();
    let r = anthropic_completion_from_document(&doc).ok().unwrap();
    assert_eq!(r.content, "Hello, world");
    assert_eq!(r.model, "haiku-3-20240307");
    let u = r.usage.unwrap();
    assert_eq!((u.prompt_tokens, u.completion_tokens, u.total_tokens), (3, 4, 7));
    let bad = parse_document("{\"model\":\"m\",\"content\":[{\"type\":\"image\"}],\"usage\":{\"input_tokens\":1,\"output_tokens\":1}}").unwrap();
    assert!(matches!(anthropic_completion_from_document(&bad), Err(BridgeError::Protocol(_))));
}

#[test]
fn sampling_result_falls_back() {
    let r = sampling_completion(&parse_document("{\"content\":{\"type\":\"text\",\"text\":\"ok\"},\"model\":\"x\"}").unwrap(), "req".to_string());
    assert_eq!(r.content, "ok");
    assert_eq!(r.model, "x");
    let r = sampling_completion(&parse_document("{}").unwrap(), "req".to_string());
    assert_eq!(r.content, "No response");
    assert_eq!(r.model, "req");
}

#[test]
fn local_capabilities_fallback_and_ollama_rule() {
    let c = local_capabilities(Err(BridgeError::Transport("down".to_string())), "http://localhost:11434");
    let ids: Vec<&str> = c.models.iter().map(|m| m.id.as_str()).collect();
    assert_eq!(ids, vec!["llama2", "mistral", "codellama"]);
    assert!(c.supports_functions);
    let c = local_capabilities(Ok(vec!["llama2".to_string(), "phi3".to_string()]), "http://localhost:11434");
    assert!(!c.supports_functions);
    let c = local_capabilities(Ok(vec!["phi3".to_string()]), "http://localhost:1234");
    assert!(c.supports_functions);
    assert_eq!(c.models[0].context_window, 4096);
}

#[test]
fn missing_key_is_an_auth_error() {
    assert!(matches!(require_api_key(&None), Err(BridgeError::Auth(_))));
    assert_eq!(require_api_key(&Some("k".to_string())).ok().unwrap(), "k");
}

#[test]
fn default_configuration() {
    let c = AgentXConfig::default();
    assert_eq!(c.default_provider, "ollama");
    assert_eq!(c.get_default_model().unwrap().display_name, "Llama 2 7B");
    assert_eq!(c.list_available_models().len(), 5);
}

#[test]
fn initialize_params_shape() {
    let v = encode(&agentx_bridge::rpc::initialize_params());
    assert_eq!(v["protocolVersion"], "0.1.0");
    assert_eq!(v["clientInfo"]["name"], "AgentX");
    assert_eq!(v["capabilities"]["roots"]["listChanged"], true);
}

#[test]
fn tag_halves_around_a_dropped_region_never_join() {
    let mut f = agentx_bridge::tags::ToolTagFilter::new();
    let (v, calls) = f.push("[TOOL_[TOOL_REQUEST]x[END_TOOL_REQUEST]REQUEST]");
    assert_eq!(v, "[TOOL_");
    assert!(calls.is_empty());
    assert_eq!(f.finish(), "");
    let mut g = agentx_bridge::tags::ToolTagFilter::new();
    let (v, _) = g.push("[TOOL_[END_TOOL_REQUEST]REQUEST]");
    assert_eq!(v, "[TOOL_");
    assert!(!v.contains("[TOOL_REQUEST]"));
    let mut h = agentx_bridge::tags::ToolTagFilter::new();
    let (v, _) = h.push("arr[[0]] and [x]");
    assert_eq!(format!("{}{}", v, h.finish()), "arr[[0]] and [x]");
}

#[test]
fn model_list_reply_and_base_url() {
    let ids = model_ids_from_list(&parse_document("{\"data\":[{\"id\":\"mistral\"},{\"id\":\"llama3.1\"}]}").unwrap()).ok().unwrap();
    assert_eq!(ids, vec!["mistral".to_string(), "llama3.1".to_string()]);
    assert!(matches!(model_ids_from_list(&parse_document("{\"data\":[{\"name\":\"x\"}]}").unwrap()), Err(BridgeError::Protocol(_))));
    assert_eq!(base_url_or_default(&None), "http://localhost:11434");
    assert_eq!(base_url_or_default(&Some("http://localhost:1234".to_string())), "http://localhost:1234");
}

#[test]
fn chat_model_choice() {
    let c = config();
    assert_eq!(c.model_for(Some("openai")), "gpt-4");
    assert_eq!(c.model_for(Some("nowhere")), "llama2");
    assert_eq!(c.model_for(None), "llama2");
}

#[test]
fn anthropic_body() {
    let mut req = request(None, None);
    req.max_tokens = None;
    let body = encode(&anthropic_request_document(req, false));
    assert_eq!(body["system"], "be brief");
    assert_eq!(body["max_tokens"], 1024);
    assert_eq!(body["messages"].as_array().unwrap().len(), 1);
    assert_eq!(body["messages"][0]["role"], "user");
    let mut req = request(None, None);
    req.messages.remove(0);
    let body = encode(&anthropic_request_document(req, true));
    assert!(body.get("system").is_none());
    assert_eq!(body["max_tokens"], 1000);
    assert_eq!(body["stream"], true);
}

#[test]
fn fixed_capability_lists() {
    let m = agentx_bridge::backends::mcp_capabilities();
    assert_eq!(m.models[0].id, "mcp-default");
    assert!(m.supports_functions);
    let d = agentx_bridge::backends::demo_capabilities();
    assert_eq!(d.models[0].id, "demo-assistant");
    assert!(!d.supports_functions);
}

#[test]
fn test_privacy_filter() {
    let filter = agentx_bridge::privacy::PrivacyFilter;
    let vars = vec![
        ("PATH".to_string(), "/usr/bin".to_string()),
        ("API_KEY".to_string(), "secret123".to_string()),
        ("DATABASE_PASSWORD".to_string(), "password123".to_string()),
    ];
    let kept = filter.filter_env_vars(&vars);
    assert!(kept.iter().any(|(k, _)| k == "PATH"));
    assert!(!kept.iter().any(|(k, _)| k == "API_KEY"));
    assert!(!kept.iter().any(|(k, _)| k == "DATABASE_PASSWORD"));
}

#[test]
fn secret_values_and_safe_keys() {
    let filter = agentx_bridge::privacy::PrivacyFilter;
    assert!(filter.might_contain_secret("abcdefghij-klmnopqrstu"));
    assert!(!filter.might_contain_secret("abcdefghijklmnopqrstuvwxyz"));
    assert!(!filter.might_contain_secret("short-1"));
    let redacted = filter.filter_env_vars(&vec![("EDITOR".to_string(), "/usr/local/bin/very-long-editor".to_string())]);
    assert_eq!(redacted[0].1, "[REDACTED]");
    let env = agentx_bridge::privacy::EnvironmentDetector;
    assert!(env.is_safe_env_var("RUST_LOG"));
    assert!(env.is_safe_env_var("PATH"));
    assert!(!env.is_safe_env_var("HOME"));
}

#[test]
fn backend_choice_by_provider_and_key() {
    let mut c = config();
    assert!(matches!(choose_backend(&c, Some("openai")), BackendChoice::Demo));
    c.providers[0].1.api_key = Some("sk".to_string());
    match choose_backend(&c, Some("openai")) {
        BackendChoice::OpenAi(p) => {
            assert_eq!(p.api_key.as_deref(), Some("sk"));
            assert_eq!(p.base_url.as_deref(), Some("https://api.openai.com/v1"));
            assert_eq!(p.timeout_secs, Some(30));
        }
        _ => panic!("expected the hosted backend"),
    }
    match choose_backend(&c, None) {
        BackendChoice::Local(p) => {
            assert!(p.api_key.is_none());
            assert_eq!(p.base_url.as_deref(), Some("http://localhost:11434"));
            assert_eq!(p.timeout_secs, Some(300));
        }
        _ => panic!("expected the local backend"),
    }
    assert!(matches!(choose_backend(&c, Some("anthropic")), BackendChoice::Demo));
    assert!(matches!(choose_backend(&c, Some("elsewhere")), BackendChoice::Demo));
}

#[test]
fn token_estimate_and_enhanced_name() {
    assert_eq!(agentx_bridge::providers::estimate_tokens("abcdefgh"), 2);
    assert_eq!(agentx_bridge::providers::estimate_tokens("abc"), 0);
    assert_eq!(agentx_bridge::providers::estimate_tokens("é"), 0);
    assert_eq!(agentx_bridge::providers::estimate_tokens("éééé"), 2);
    assert_eq!(agentx_bridge::providers::enhanced_name("ollama"), "ollama_with_mcp");
}

#[test]
fn default_configuration_details() {
    let c = AgentXConfig::default();
    let m = c.get_default_model().unwrap();
    assert_eq!((m.name.as_str(), m.context_size), ("llama2", 4096));
    assert_eq!(c.get_provider("ollama").map(|p| p.base_url.as_str()), Some("http://localhost:11434"));
    assert!(c.get_provider("anthropic").is_none());
}

#[test]
fn sampling_request_params() {
    let v = encode(&agentx_bridge::requests::sampling_params(&request(None, None)));
    assert_eq!(v["systemPrompt"], "You are a helpful AI assistant");
    assert_eq!(v["includeContext"], "thisConversation");
    assert_eq!(v["maxTokens"], 1000);
    assert_eq!(v["modelPreferences"]["hints"][0]["name"], "mistral");
    assert_eq!(v["messages"][1]["role"], "user");
    assert_eq!(v["messages"][1]["content"]["type"], "text");
    assert_eq!(v["messages"][1]["content"]["text"], "hi");
    let mut r = request(None, None);
    r.max_tokens = None;
    assert_eq!(encode(&agentx_bridge::requests::sampling_params(&r))["maxTokens"], 1000);
}

#[test]
fn all_tools_joins_successful_listings() {
    let t = |n: &str| agentx_bridge::tools::MCPTool { name: n.to_string(), description: String::new(), input_schema: JsonValue::Null };
    let joined = agentx_bridge::manager::all_tools(vec![Ok(vec![t("a"), t("b")]), Err(BridgeError::RpcTimeout), Ok(vec![t("c")])]);
    let names: Vec<&str> = joined.iter().map(|x| x.name.as_str()).collect();
    assert_eq!(names, vec!["a", "b", "c"]);
}

#[test]
fn call_from_a_decoded_region() {
    let doc = parse_document("{\"name\":\"get_weather\",\"arguments\":{\"location\":\"Paris\"}}").unwrap();
    let c = agentx_bridge::tags::call_from_document(&doc).unwrap();
    assert_eq!(c.name, "get_weather");
    assert_eq!(c.arguments, "{\"location\":\"Paris\"}");
    assert!(agentx_bridge::tags::call_from_document(&parse_document("{\"name\":\"x\"}").unwrap()).is_none());
}

#[test]
fn local_capability_names_and_windows() {
    let c = local_capabilities(Err(BridgeError::Transport("down".to_string())), "http://localhost:1234");
    let v: Vec<(&str, u32)> = c.models.iter().map(|m| (m.name.as_str(), m.context_window)).collect();
    assert_eq!(v, vec![("Llama 2", 4096), ("Mistral", 8192), ("Code Llama", 4096)]);
}

#[test]
fn unicode_white_space_matches_std() {
    for s in ["\u{3000}x\u{a0}", "\u{85}\u{2028} y \u{205f}", "\u{200b}z\u{200b}", "\t\r\nw\u{1680}"] {
        assert_eq!(agentx_bridge::cleanup::trim_text(s), s.trim());
    }
}

#[test]
fn openai_body_carries_function_calls_and_names() {
    let mut req = request(None, None);
    req.messages.push(Message {
        role: MessageRole::Assistant,
        content: String::new(),
        function_call: Some(agentx_bridge::providers::FunctionCall { name: "get_time".to_string(), arguments: "{}".to_string() }),
    });
    req.messages.push(Message {
        role: MessageRole::Function,
        content: "12:00".to_string(),
        function_call: Some(agentx_bridge::providers::FunctionCall { name: "get_time".to_string(), arguments: "{}".to_string() }),
    });
    let body = encode(&openai_request_document(req, false));
    assert_eq!(body["messages"][2]["function_call"]["name"], "get_time");
    assert!(body["messages"][2].get("name").is_none());
    assert_eq!(body["messages"][3]["name"], "get_time");
    assert!(body["messages"][0].get("function_call").is_none());
}

#[test]
fn openai_stream_ending_with_length() {
    let lines: Vec<String> = vec![
        "data: {\"choices\":[{\"delta\":{\"content\":\"ab\"},\"finish_reason\":\"length\"}]}".to_string(),
        "data: [DONE]".to_string(),
    ];
    let chunks = agentx_bridge::stream::normalize_lines(agentx_bridge::stream::WireFormat::OpenAi, &lines);
    assert_eq!(chunks.len(), 1);
    assert_eq!(chunks[0].finish_reason.as_deref(), Some("length"));
    assert_eq!(chunks[0].delta, "ab");
}
