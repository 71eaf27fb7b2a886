//! The configuration that the bridge reads: providers, their models, the
//! default choice, and the tool-provider processes to start.
use vstd::prelude::*;

use crate::error::BridgeError;
use crate::text::{push_text, str_eq, text_copy};
use crate::tools::MCPServerConfig;

verus! {

/// The kind of backend a provider is.
#[derive(Clone, Copy, Debug, PartialEq, Eq, Structural)]
pub enum ProviderType {
    OpenAICompatible,
    OpenAI,
    Anthropic,
    Ollama,
    MCP,
}

/// A model that a provider offers.
pub struct ModelConfig {
    pub name: String,
    pub display_name: String,
    pub context_size: usize,
    pub supports_streaming: bool,
    pub description: Option<String>,
}

/// A configured provider.
pub struct ProviderConfig {
    pub name: String,
    pub provider_type: ProviderType,
    pub base_url: String,
    pub api_key: Option<String>,
    pub models: Vec<ModelConfig>,
}

/// Display settings.
pub struct UIConfig {
    pub show_model_selector: bool,
    pub auto_stream: bool,
    pub theme: String,
}

/// Whether a provider can be used right now.
pub enum ProviderStatus {
    Online,
    Offline,
    ConfigError(String),
    Unknown,
}

/// The outcome of a health check: the status, how long the check took in
/// milliseconds, when it ran in seconds since the epoch, and the models seen.
pub struct ProviderHealth {
    pub status: ProviderStatus,
    pub response_time_ms: Option<u64>,
    pub last_checked_secs: u64,
    pub available_models: Vec<String>,
}

/// The whole configuration. Providers are keyed by a unique name.
pub struct AgentXConfig {
    pub default_provider: String,
    pub default_model: String,
    pub providers: Vec<(String, ProviderConfig)>,
    pub ui: UIConfig,
    pub mcp_servers: Vec<MCPServerConfig>,
}

/// The keys of the providers.
pub open spec fn provider_keys(ps: Seq<(String, ProviderConfig)>) -> Seq<Seq<char>> {
    ps.map_values(|p: (String, ProviderConfig)| p.0@)
}

/// Where provider `name` first stands, if it is configured.
pub open spec fn provider_index(ps: Seq<(String, ProviderConfig)>, name: Seq<char>) -> Option<int> {
    if exists|j: int| 0 <= j < ps.len() && ps[j].0@ == name {
        Some(choose|j: int| 0 <= j < ps.len() && ps[j].0@ == name
            && forall|k: int| 0 <= k < j ==> ps[k].0@ != name)
    } else {
        None
    }
}

/// Where the first model named `name` stands among `models`, if any.
pub open spec fn model_index(models: Seq<ModelConfig>, name: Seq<char>) -> Option<int> {
    if exists|j: int| 0 <= j < models.len() && models[j].name@ == name {
        Some(choose|j: int| 0 <= j < models.len() && models[j].name@ == name
            && forall|k: int| 0 <= k < j ==> models[k].name@ != name)
    } else {
        None
    }
}


/// Strict lexicographic order of texts by character code, as `String`'s
/// `Ord` orders them.
pub open spec fn text_lt(a: Seq<char>, b: Seq<char>) -> bool
    decreases a.len(),
{
    if a.len() == 0 {
        b.len() > 0
    } else if b.len() == 0 {
        false
    } else if a[0] != b[0] {
        (a[0] as u32) < (b[0] as u32)
    } else {
        text_lt(a.drop_first(), b.drop_first())
    }
}

/// The order is transitive.
pub proof fn lemma_text_lt_transitive(a: Seq<char>, b: Seq<char>, c: Seq<char>)
    requires
        text_lt(a, b),
        text_lt(b, c),
    ensures
        text_lt(a, c),
    decreases a.len(),
{
    if a.len() > 0 && b.len() > 0 && c.len() > 0 && a[0] == b[0] && b[0] == c[0] {
        lemma_text_lt_transitive(a.drop_first(), b.drop_first(), c.drop_first());
    }
}

/// No text sorts before itself.
pub proof fn lemma_text_lt_irreflexive(a: Seq<char>)
    ensures
        !text_lt(a, a),
    decreases a.len(),
{
    if a.len() > 0 {
        lemma_text_lt_irreflexive(a.drop_first());
    }
}

/// A model's settings as plain values.
pub struct ModelView {
    pub name: Seq<char>,
    pub display_name: Seq<char>,
    pub context_size: usize,
    pub supports_streaming: bool,
    pub description: Option<Seq<char>>,
}

/// The settings of `m` as plain values.
pub open spec fn model_view(m: ModelConfig) -> ModelView {
    ModelView {
        name: m.name@,
        display_name: m.display_name@,
        context_size: m.context_size,
        supports_streaming: m.supports_streaming,
        description: crate::providers::opt_text(m.description),
    }
}

/// The listing key of a provider's model: `provider/model`.
pub open spec fn listing_key(provider: Seq<char>, model: Seq<char>) -> Seq<char> {
    provider + "/"@ + model
}

/// The listings of one provider's models, in its order.
pub open spec fn provider_listings(p: (String, ProviderConfig)) -> Seq<(Seq<char>, ModelView)> {
    p.1.models@.map_values(|m: ModelConfig| (listing_key(p.0@, m.name@), model_view(m)))
}

/// The listings of all providers' models, provider by provider.
pub open spec fn all_listings(ps: Seq<(String, ProviderConfig)>) -> Seq<(Seq<char>, ModelView)>
    decreases ps.len(),
{
    if ps.len() == 0 {
        seq![]
    } else {
        all_listings(ps.drop_last()) + provider_listings(ps.last())
    }
}

/// Listings as plain values.
pub open spec fn listing_views(out: Seq<(String, ModelConfig)>) -> Seq<(Seq<char>, ModelView)> {
    out.map_values(|o: (String, ModelConfig)| (o.0@, model_view(o.1)))
}

/// Listings in order of their keys.
pub open spec fn sorted_by_key(v: Seq<(Seq<char>, ModelView)>) -> bool {
    forall|i: int, j: int| 0 <= i < j < v.len() ==> !text_lt(#[trigger] v[j].0, #[trigger] v[i].0)
}

/// Whether `a` sorts before `b`.
fn text_before(a: &Vec<char>, b: &Vec<char>) -> (r: bool)
    ensures
        r == text_lt(a@, b@),
{
    let mut i: usize = 0;
    assert(a@.subrange(0, a@.len() as int) =~= a@);
    assert(b@.subrange(0, b@.len() as int) =~= b@);
    while i < a.len() && i < b.len() && a[i] == b[i]
        invariant
            i <= a@.len(),
            i <= b@.len(),
            text_lt(a@, b@) == text_lt(a@.subrange(i as int, a@.len() as int), b@.subrange(i as int, b@.len() as int)),
        decreases a@.len() - i,
    {
        proof {
            let x = a@.subrange(i as int, a@.len() as int);
            let y = b@.subrange(i as int, b@.len() as int);
            assert(x.drop_first() =~= a@.subrange(i + 1, a@.len() as int));
            assert(y.drop_first() =~= b@.subrange(i + 1, b@.len() as int));
        }
        i = i + 1;
    }
    proof {
        let x = a@.subrange(i as int, a@.len() as int);
        let y = b@.subrange(i as int, b@.len() as int);
        if i < a.len() && i < b.len() {
            assert(x[0] == a@[i as int] && y[0] == b@[i as int]);
        }
    }
    if i == a.len() {
        i < b.len()
    } else if i == b.len() {
        false
    } else {
        (a[i] as u32) < (b[i] as u32)
    }
}

/// A copy of a model's settings.
fn copy_model(m: &ModelConfig) -> (r: ModelConfig)
    ensures
        model_view(r) == model_view(*m),
{
    let description = match &m.description {
        Some(d) => Some(d.clone()),
        None => None,
    };
    ModelConfig {
        name: m.name.clone(),
        display_name: m.display_name.clone(),
        context_size: m.context_size,
        supports_streaming: m.supports_streaming,
        description,
    }
}

/// Puts a listing into a list sorted by key, after the listings with an
/// equal key.
fn insert_sorted(out: &mut Vec<(String, ModelConfig)>, keys: &mut Vec<Vec<char>>, key: String, model: ModelConfig)
    requires
        old(keys)@.len() == old(out)@.len(),
        forall|i: int| 0 <= i < old(out)@.len() ==> #[trigger] old(keys)@[i]@ == old(out)@[i].0@,
        sorted_by_key(listing_views(old(out)@)),
    ensures
        final(keys)@.len() == final(out)@.len(),
        forall|i: int| 0 <= i < final(out)@.len() ==> #[trigger] final(keys)@[i]@ == final(out)@[i].0@,
        sorted_by_key(listing_views(final(out)@)),
        listing_views(final(out)@).to_multiset() == listing_views(old(out)@).to_multiset().insert((key@, model_view(model))),
{
    let kc = crate::text::chars_of(key.as_str());
    let mut p: usize = 0;
    while p < out.len() && !text_before(&kc, &keys[p])
        invariant
            keys@.len() == out@.len(),
            p <= out@.len(),
            kc@ == key@,
            forall|i: int| 0 <= i < out@.len() ==> #[trigger] keys@[i]@ == out@[i].0@,
            forall|i: int| 0 <= i < p ==> !text_lt(key@, #[trigger] out@[i].0@),
        decreases out@.len() - p,
    {
        p = p + 1;
    }
    let ghost before = listing_views(out@);
    let ghost x = (key@, model_view(model));
    assert(forall|i: int| 0 <= i < p ==> !text_lt(x.0, #[trigger] before[i].0));
    assert(sorted_by_key(before));
    proof {
        if p < out@.len() {
            assert(keys@[p as int]@ == out@[p as int].0@);
            assert(text_lt(key@, out@[p as int].0@));
        }
    }
    out.insert(p, (key, model));
    keys.insert(p, kc);
    proof {
        let after = listing_views(out@);
        assert(after =~= before.insert(p as int, x));
        vstd::seq_lib::to_multiset_insert(before, p as int, x);
        assert forall|i: int| 0 <= i < out@.len() implies #[trigger] keys@[i]@ == out@[i].0@ by {
            if i < p {
            } else if i > p {
                assert(out@[i] == old(out)@[i - 1]);
                assert(keys@[i] == old(keys)@[i - 1]);
            }
        }
        assert forall|i: int, j: int| 0 <= i < j < after.len() implies !text_lt(#[trigger] after[j].0, #[trigger] after[i].0) by {
            if j < p {
                assert(after[i] == before[i] && after[j] == before[j]);
            } else if j == p {
                assert(after[i] == before[i]);
                assert(after[j] == x);
            } else if i == p {
                assert(after[j] == before[j - 1]);
                assert(after[i] == x);
                assert(text_lt(x.0, before[p as int].0));
                if text_lt(before[j - 1].0, x.0) {
                    lemma_text_lt_transitive(before[j - 1].0, x.0, before[p as int].0);
                    if j - 1 > p {
                        assert(!text_lt(before[j - 1].0, before[p as int].0));
                    } else {
                        lemma_text_lt_irreflexive(before[p as int].0);
                    }
                }
            } else if i < p {
                assert(after[i] == before[i] && after[j] == before[j - 1]);
            } else {
                assert(after[i] == before[i - 1] && after[j] == before[j - 1]);
            }
        }
    }
}

impl ProviderStatus {
    /// A one-character badge for the status.
    pub fn icon(&self) -> (r: &'static str)
        ensures
            r@ == match self {
                ProviderStatus::Online => "🟢"@,
                ProviderStatus::Offline => "🔴"@,
                ProviderStatus::ConfigError(_) => "🟡"@,
                ProviderStatus::Unknown => "⚪"@,
            },
    {
        match self {
            ProviderStatus::Online => "🟢",
            ProviderStatus::Offline => "🔴",
            ProviderStatus::ConfigError(_) => "🟡",
            ProviderStatus::Unknown => "⚪",
        }
    }

    /// The status in words.
    pub fn description(&self) -> (r: String)
        ensures
            r@ == match self {
                ProviderStatus::Online => "Available"@,
                ProviderStatus::Offline => "Not available"@,
                ProviderStatus::ConfigError(msg) => "Configuration issue: "@ + msg@,
                ProviderStatus::Unknown => "Status unknown"@,
            },
    {
        match self {
            ProviderStatus::Online => text_copy("Available"),
            ProviderStatus::Offline => text_copy("Not available"),
            ProviderStatus::ConfigError(msg) => {
                let mut r = text_copy("Configuration issue: ");
                push_text(&mut r, msg.as_str());
                r
            },
            ProviderStatus::Unknown => text_copy("Status unknown"),
        }
    }
}

/// Where the first model named `name` stands.
fn find_model(models: &Vec<ModelConfig>, name: &str) -> (r: Option<usize>)
    ensures
        match r {
            Some(j) => j < models@.len() && model_index(models@, name@) == Some(j as int),
            None => model_index(models@, name@) is None,
        },
{
    let mut j: usize = 0;
    while j < models.len()
        invariant
            j <= models@.len(),
            forall|k: int| 0 <= k < j ==> models@[k].name@ != name@,
        decreases models@.len() - j,
    {
        if str_eq(models[j].name.as_str(), name) {
            proof {
                let jj = j as int;
                assert(exists|x: int| 0 <= x < models@.len() && models@[x].name@ == name@);
                let c = choose|x: int| 0 <= x < models@.len() && models@[x].name@ == name@
                    && forall|k: int| 0 <= k < x ==> models@[k].name@ != name@;
                assert(0 <= jj < models@.len() && models@[jj].name@ == name@
                    && forall|k: int| 0 <= k < jj ==> models@[k].name@ != name@);
                if c < jj {
                } else if c > jj {
                }
                assert(c == jj);
            }
            return Some(j);
        }
        j = j + 1;
    }
    None
}

impl AgentXConfig {
    /// Provider keys are unique.
    pub open spec fn wf(&self) -> bool {
        provider_keys(self.providers@).no_duplicates()
    }

    /// The provider configured under `name`.
    pub fn get_provider(&self, name: &str) -> (r: Option<&ProviderConfig>)
        ensures
            match provider_index(self.providers@, name@) {
                Some(k) => r == Some(&self.providers@[k].1),
                None => r is None,
            },
    {
        let mut k: usize = 0;
        while k < self.providers.len()
            invariant
                k <= self.providers@.len(),
                forall|j: int| 0 <= j < k ==> self.providers@[j].0@ != name@,
            decreases self.providers@.len() - k,
        {
            if str_eq(self.providers[k].0.as_str(), name) {
                proof {
                    let ps = self.providers@;
                    let kk = k as int;
                    assert(exists|x: int| 0 <= x < ps.len() && ps[x].0@ == name@);
                    let c = choose|x: int| 0 <= x < ps.len() && ps[x].0@ == name@
                        && forall|j: int| 0 <= j < x ==> ps[j].0@ != name@;
                    assert(0 <= kk < ps.len() && ps[kk].0@ == name@
                        && forall|j: int| 0 <= j < kk ==> ps[j].0@ != name@);
                    assert(c == kk);
                }
                return Some(&self.providers[k].1);
            }
            k = k + 1;
        }
        None
    }

    /// The provider named as the default.
    pub fn get_default_provider(&self) -> (r: Option<&ProviderConfig>)
        ensures
            match provider_index(self.providers@, self.default_provider@) {
                Some(k) => r == Some(&self.providers@[k].1),
                None => r is None,
            },
    {
        self.get_provider(self.default_provider.as_str())
    }

    /// The first model named `model_name` of the provider `provider_name`.
    pub fn get_model(&self, provider_name: &str, model_name: &str) -> (r: Option<&ModelConfig>)
        ensures
            match provider_index(self.providers@, provider_name@) {
                Some(k) => match model_index(self.providers@[k].1.models@, model_name@) {
                    Some(j) => r == Some(&self.providers@[k].1.models@[j]),
                    None => r is None,
                },
                None => r is None,
            },
    {
        match self.get_provider(provider_name) {
            Some(p) => match find_model(&p.models, model_name) {
                Some(j) => Some(&p.models[j]),
                None => None,
            },
            None => None,
        }
    }

    /// The default model of the default provider.
    pub fn get_default_model(&self) -> (r: Option<&ModelConfig>)
        ensures
            match provider_index(self.providers@, self.default_provider@) {
                Some(k) => match model_index(self.providers@[k].1.models@, self.default_model@) {
                    Some(j) => r == Some(&self.providers@[k].1.models@[j]),
                    None => r is None,
                },
                None => r is None,
            },
    {
        self.get_model(self.default_provider.as_str(), self.default_model.as_str())
    }

    /// Every model of every provider, keyed `provider/model`, sorted by key.
    pub fn list_available_models(&self) -> (r: Vec<(String, ModelConfig)>)
        ensures
            sorted_by_key(listing_views(r@)),
            listing_views(r@).to_multiset() == all_listings(self.providers@).to_multiset(),
    {
        let mut out: Vec<(String, ModelConfig)> = Vec::new();
        let mut keys: Vec<Vec<char>> = Vec::new();
        let mut k: usize = 0;
        proof {
            assert(listing_views(out@) =~= Seq::<(Seq<char>, ModelView)>::empty());
            assert(self.providers@.subrange(0, 0) =~= Seq::<(String, ProviderConfig)>::empty());
            assert(all_listings(self.providers@.subrange(0, 0)) =~= Seq::<(Seq<char>, ModelView)>::empty());
        }
        while k < self.providers.len()
            invariant
                k <= self.providers@.len(),
                keys@.len() == out@.len(),
                forall|i: int| 0 <= i < out@.len() ==> #[trigger] keys@[i]@ == out@[i].0@,
                sorted_by_key(listing_views(out@)),
                listing_views(out@).to_multiset() == all_listings(self.providers@.subrange(0, k as int)).to_multiset(),
            decreases self.providers@.len() - k,
        {
            let ghost pre = self.providers@.subrange(0, k as int);
            let (pname, provider) = (&self.providers[k].0, &self.providers[k].1);
            let mut j: usize = 0;
            while j < provider.models.len()
                invariant
                    k < self.providers@.len(),
                    pre == self.providers@.subrange(0, k as int),
                    self.providers@[k as int].0 == *pname,
                    self.providers@[k as int].1 == *provider,
                    j <= provider.models@.len(),
                    keys@.len() == out@.len(),
                    forall|i: int| 0 <= i < out@.len() ==> #[trigger] keys@[i]@ == out@[i].0@,
                    sorted_by_key(listing_views(out@)),
                    listing_views(out@).to_multiset() == (all_listings(pre) + provider_listings(self.providers@[k as int]).subrange(0, j as int)).to_multiset(),
                decreases provider.models@.len() - j,
            {
                let m = &provider.models[j];
                let mut key = pname.clone();
                push_text(&mut key, "/");
                push_text(&mut key, m.name.as_str());
                let copy = copy_model(m);
                let ghost x = (key@, model_view(copy));
                let ghost prev = listing_views(out@).to_multiset();
                insert_sorted(&mut out, &mut keys, key, copy);
                proof {
                    let pl = provider_listings(self.providers@[k as int]);
                    assert(pl[j as int] == x);
                    let a = all_listings(pre) + pl.subrange(0, j as int);
                    let b = all_listings(pre) + pl.subrange(0, j + 1);
                    assert(b =~= a.push(x));
                    vstd::seq_lib::to_multiset_build(a, x);
                }
                j = j + 1;
            }
            proof {
                let whole = self.providers@.subrange(0, k + 1);
                assert(whole.drop_last() =~= pre);
                assert(whole.last() == self.providers@[k as int]);
                let pl = provider_listings(self.providers@[k as int]);
                assert(pl.subrange(0, pl.len() as int) =~= pl);
            }
            k = k + 1;
        }
        assert(self.providers@.subrange(0, self.providers@.len() as int) =~= self.providers@);
        out
    }

    /// Makes `model` of `provider` the default, when that provider offers
    /// that model; otherwise nothing changes and the error names both.
    pub fn set_default_model(&mut self, provider: String, model: String) -> (r: Result<(), BridgeError>)
        ensures
            r is Ok == (provider_index(old(self).providers@, provider@) is Some
                && model_index(old(self).providers@[provider_index(old(self).providers@, provider@)->0].1.models@, model@) is Some),
            r is Ok ==> final(self).default_provider@ == provider@ && final(self).default_model@ == model@,
            r is Err ==> final(self).default_provider == old(self).default_provider
                && final(self).default_model == old(self).default_model,
            final(self).providers == old(self).providers,
            final(self).mcp_servers == old(self).mcp_servers,
    {
        let found = match self.get_provider(provider.as_str()) {
            Some(p) => find_model(&p.models, model.as_str()).is_some(),
            None => false,
        };
        if found {
            self.default_provider = provider;
            self.default_model = model;
            Ok(())
        } else {
            let mut msg = text_copy("provider ");
            push_text(&mut msg, provider.as_str());
            push_text(&mut msg, " or model ");
            push_text(&mut msg, model.as_str());
            push_text(&mut msg, " not found");
            Err(BridgeError::Protocol(msg))
        }
    }
}

fn model_config(name: &str, display_name: &str, context_size: usize, description: &str) -> (r: ModelConfig)
    ensures
        r.name@ == name@,
        r.display_name@ == display_name@,
        r.context_size == context_size,
        r.supports_streaming,
        r.description is Some && r.description->0@ == description@,
{
    ModelConfig {
        name: text_copy(name),
        display_name: text_copy(display_name),
        context_size,
        supports_streaming: true,
        description: Some(text_copy(description)),
    }
}

impl Default for AgentXConfig {
    /// A local Ollama provider with three models, chosen as the default,
    /// and an OpenAI provider without a key.
    fn default() -> (r: AgentXConfig)
        ensures
            r.wf(),
            r.default_provider@ == "ollama"@,
            r.default_model@ == "llama2"@,
            provider_keys(r.providers@) == seq!["ollama"@, "openai"@],
            r.providers@[0].1.base_url@ == "http://localhost:11434"@,
            r.providers@[0].1.api_key is None,
            r.providers@[0].1.provider_type == ProviderType::Ollama,
            r.providers@[0].1.models@.len() == 3,
            r.providers@[0].1.models@[0].name@ == "llama2"@,
            r.providers@[0].1.models@[0].context_size == 4096,
            r.providers@[0].1.models@[1].name@ == "codellama"@,
            r.providers@[0].1.models@[1].context_size == 4096,
            r.providers@[0].1.models@[2].name@ == "mistral"@,
            r.providers@[0].1.models@[2].context_size == 8192,
            r.providers@[1].1.base_url@ == "https://api.openai.com/v1"@,
            r.providers@[1].1.api_key is None,
            r.providers@[1].1.provider_type == ProviderType::OpenAI,
            r.providers@[1].1.models@.len() == 2,
            r.providers@[1].1.models@[0].name@ == "gpt-3.5-turbo"@,
            r.providers@[1].1.models@[0].context_size == 4096,
            r.providers@[1].1.models@[1].name@ == "gpt-4"@,
            r.providers@[1].1.models@[1].context_size == 8192,
            provider_index(r.providers@, "ollama"@) == Some(0int),
            provider_index(r.providers@, "anthropic"@) is None,
            model_index(r.providers@[0].1.models@, "llama2"@) == Some(0int),
            r.ui.show_model_selector && r.ui.auto_stream && r.ui.theme@ == "default"@,
            r.mcp_servers@.len() == 0,
    {
        let mut ollama_models: Vec<ModelConfig> = Vec::new();
        ollama_models.push(model_config("llama2", "Llama 2 7B", 4096, "Meta's Llama 2 7B model - good for general tasks"));
        ollama_models.push(model_config("codellama", "Code Llama 7B", 4096, "Code-focused Llama model for programming tasks"));
        ollama_models.push(model_config("mistral", "Mistral 7B", 8192, "Efficient and fast 7B parameter model"));
        let mut openai_models: Vec<ModelConfig> = Vec::new();
        openai_models.push(model_config("gpt-3.5-turbo", "GPT-3.5 Turbo", 4096, "Fast and efficient for most tasks"));
        openai_models.push(model_config("gpt-4", "GPT-4", 8192, "Most capable model for complex reasoning"));
        let mut providers: Vec<(String, ProviderConfig)> = Vec::new();
        providers.push((text_copy("ollama"), ProviderConfig {
            name: text_copy("Ollama"),
            provider_type: ProviderType::Ollama,
            base_url: text_copy("http://localhost:11434"),
            api_key: None,
            models: ollama_models,
        }));
        providers.push((text_copy("openai"), ProviderConfig {
            name: text_copy("OpenAI"),
            provider_type: ProviderType::OpenAI,
            base_url: text_copy("https://api.openai.com/v1"),
            api_key: None,
            models: openai_models,
        }));
        proof {
            reveal_strlit("ollama");
            reveal_strlit("openai");
            let k = provider_keys(providers@);
            assert(k =~= seq!["ollama"@, "openai"@]);
            assert("ollama"@[1] != "openai"@[1]);
            assert(k.no_duplicates());
            reveal_strlit("anthropic");
            reveal_strlit("llama2");
            let ps = providers@;
            assert(ps[0].0@ == "ollama"@);
            let c = choose|j: int| 0 <= j < ps.len() && ps[j].0@ == "ollama"@
                && forall|x: int| 0 <= x < j ==> ps[x].0@ != "ollama"@;
            assert(c == 0);
            assert forall|j: int| 0 <= j < ps.len() implies ps[j].0@ != "anthropic"@ by {
                assert(ps[j].0@ == k[j]);
                assert("anthropic"@.len() == 9);
            }
            let ms = ps[0].1.models@;
            assert(ms[0].name@ == "llama2"@);
            let c2 = choose|j: int| 0 <= j < ms.len() && ms[j].name@ == "llama2"@
                && forall|x: int| 0 <= x < j ==> ms[x].name@ != "llama2"@;
            assert(c2 == 0);
        }
        AgentXConfig {
            default_provider: text_copy("ollama"),
            default_model: text_copy("llama2"),
            providers,
            ui: UIConfig { show_model_selector: true, auto_stream: true, theme: text_copy("default") },
            mcp_servers: Vec::new(),
        }
    }
}

impl AgentXConfig {
    /// The model a chat with provider `provider_id` uses: that provider's
    /// first model, else the default model.
    pub fn model_for(&self, provider_id: Option<&str>) -> (r: String)
        ensures
            r@ == match provider_id {
                Some(pid) => match provider_index(self.providers@, pid@) {
                    Some(k) => if self.providers@[k].1.models@.len() > 0 {
                        self.providers@[k].1.models@[0].name@
                    } else {
                        self.default_model@
                    },
                    None => self.default_model@,
                },
                None => self.default_model@,
            },
    {
        match provider_id {
            Some(pid) => match self.get_provider(pid) {
                Some(p) => if p.models.len() > 0 {
                    p.models[0].name.clone()
                } else {
                    self.default_model.clone()
                },
                None => self.default_model.clone(),
            },
            None => self.default_model.clone(),
        }
    }
}

} // verus!
