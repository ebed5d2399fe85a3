//! The configuration of the orchestrator in a project.

use vstd::prelude::*;
use vstd::utf8::*;

use crate::identity;
use crate::identity::{Identity, IdentityView};
use crate::model;
use crate::paths;
use crate::project_config;
use crate::text;

verus! {

/// The name of the orchestrator.
pub const BENDER_NAME: &'static str = "Bender";

/// What the orchestrator says of itself.
pub const BENDER_BIO: &'static str = "I bend things";

/// Where the picture of the orchestrator's profile is.
pub const BENDER_PROFILE_PICTURE_URL: &'static str = "https://raw.githubusercontent.com/lnbits/bender/main/profile.png";

/// Where the banner of the orchestrator's profile is.
pub const BENDER_PROFILE_BANNER_URL: &'static str = "https://raw.githubusercontent.com/lnbits/bender/main/bender.gif";

/// Who provides a model.
#[derive(Debug, Clone, Copy, PartialEq, Eq, Structural)]
pub enum Provider {
    Openai,
    Anthropic,
    Deepseek,
    Ollama,
    LlamaCpp,
}

/// A directory of tools.
#[derive(Debug)]
pub struct ToolPathConfig {
    pub path: String,
    pub enabled: bool,
}

/// The configuration of the orchestrator in a project.
#[derive(Debug)]
pub struct Config {
    pub name: String,
    pub secret_key: String,
    pub public_key: String,
    pub controller_npub: Option<String>,
    pub openai_api_key: Option<String>,
    pub anthropic_api_key: Option<String>,
    pub deepseek_api_key: Option<String>,
    pub provider: Provider,
    pub model: String,
    pub ollama_base_url: String,
    pub llama_cpp_base_url: String,
    pub llama_cpp_api_key: Option<String>,
    pub bind: String,
    pub relays: Vec<String>,
    pub tool_paths: Vec<ToolPathConfig>,
    pub auth_salt: Option<String>,
    pub auth_password_hash: Option<String>,
    pub auth_session_hash: Option<String>,
}

/// What is wrong with a configuration.
#[derive(Debug, Clone, Copy, PartialEq, Eq, Structural)]
pub enum ConfigError {
    InvalidSecretKey,
    InvalidController,
    MissingApiKey(Provider),
    MissingOpenaiKey,
}

impl ConfigError {
    /// The message of the error.
    pub open spec fn text(self) -> Seq<char> {
        match self {
            ConfigError::InvalidSecretKey => "invalid Bender secret_key"@,
            ConfigError::InvalidController => "invalid controller_npub"@,
            ConfigError::MissingApiKey(provider) => "missing API key for "@ + provider.title(),
            ConfigError::MissingOpenaiKey => "missing openai_api_key in .bender/config.toml or OPENAI_API_KEY"@,
        }
    }

    /// The message of the error.
    pub fn message(&self) -> (message: String)
        ensures
            message@ == self.text(),
    {
        match self {
            ConfigError::InvalidSecretKey => "invalid Bender secret_key".to_string(),
            ConfigError::InvalidController => "invalid controller_npub".to_string(),
            ConfigError::MissingApiKey(provider) => "missing API key for ".to_string().concat(provider.label()),
            ConfigError::MissingOpenaiKey => "missing openai_api_key in .bender/config.toml or OPENAI_API_KEY".to_string(),
        }
    }
}

impl Provider {
    /// The name of the provider, as it is shown.
    pub open spec fn title(self) -> Seq<char> {
        match self {
            Provider::Openai => "OpenAI / Codex"@,
            Provider::Anthropic => "Anthropic"@,
            Provider::Deepseek => "DeepSeek"@,
            Provider::Ollama => "Ollama"@,
            Provider::LlamaCpp => "llama.cpp"@,
        }
    }

    /// The name of the provider, as it is stored.
    pub open spec fn key(self) -> Seq<char> {
        match self {
            Provider::Openai => "openai"@,
            Provider::Anthropic => "anthropic"@,
            Provider::Deepseek => "deepseek"@,
            Provider::Ollama => "ollama"@,
            Provider::LlamaCpp => "llama_cpp"@,
        }
    }

    /// The name of the provider, as it is shown.
    pub fn label(self) -> (label: &'static str)
        ensures
            label@ == self.title(),
    {
        match self {
            Provider::Openai => "OpenAI / Codex",
            Provider::Anthropic => "Anthropic",
            Provider::Deepseek => "DeepSeek",
            Provider::Ollama => "Ollama",
            Provider::LlamaCpp => "llama.cpp",
        }
    }

    /// The name of the provider, as it is stored.
    pub fn as_str(self) -> (name: &'static str)
        ensures
            name@ == self.key(),
    {
        match self {
            Provider::Openai => "openai",
            Provider::Anthropic => "anthropic",
            Provider::Deepseek => "deepseek",
            Provider::Ollama => "ollama",
            Provider::LlamaCpp => "llama_cpp",
        }
    }

    /// The provider with the stored name, where there is one.
    pub fn from_name(name: &str) -> (provider: Option<Provider>)
        ensures
            provider matches Some(found) ==> found.key() == name@,
            provider is None ==> forall|other: Provider| #[trigger] other.key() != name@,
    {
        let found = if text::same(name, "openai") {
            Some(Provider::Openai)
        } else if text::same(name, "anthropic") {
            Some(Provider::Anthropic)
        } else if text::same(name, "deepseek") {
            Some(Provider::Deepseek)
        } else if text::same(name, "ollama") {
            Some(Provider::Ollama)
        } else if text::same(name, "llama_cpp") {
            Some(Provider::LlamaCpp)
        } else {
            None
        };
        found
    }
}

/// All providers.
pub fn providers() -> (list: Vec<Provider>)
    ensures
        list@ == seq![Provider::Openai, Provider::Anthropic, Provider::Deepseek, Provider::Ollama, Provider::LlamaCpp],
{
    vec![Provider::Openai, Provider::Anthropic, Provider::Deepseek, Provider::Ollama, Provider::LlamaCpp]
}

/// The models of Anthropic, whose names are not built in: how all of them start and which are known.
#[derive(Debug)]
pub struct ModelFamily {
    pub prefix: String,
    pub models: Vec<String>,
}

impl Default for ModelFamily {
    fn default() -> (family: Self)
        ensures
            family.prefix@ == Seq::<char>::empty(),
            family.models@.len() == 0,
    {
        ModelFamily { prefix: String::new(), models: Vec::new() }
    }
}

/// The models of a provider that are known.
pub open spec fn known_models(provider: Provider, family: ModelFamily) -> Seq<Seq<char>> {
    match provider {
        Provider::Openai => seq![
            "gpt-5.2-codex"@,
            "gpt-5.1-codex"@,
            "gpt-5.1-codex-max"@,
            "gpt-5.1-codex-mini"@,
            "gpt-5-codex"@,
            "gpt-5.2"@,
            "gpt-5.1"@,
            "gpt-5-mini"@,
        ],
        Provider::Anthropic => text::texts(family.models@),
        Provider::Deepseek => seq!["deepseek-chat"@, "deepseek-reasoner"@],
        Provider::Ollama => seq!["qwen2.5-coder:7b"@, "qwen2.5-coder:14b"@, "deepseek-coder-v2:16b"@, "llama3.1:8b"@],
        Provider::LlamaCpp => seq!["local-model"@],
    }
}

/// The models of the provider that are known.
pub fn available_models(provider: Provider, family: &ModelFamily) -> (models: Vec<String>)
    ensures
        text::texts(models@) == known_models(provider, *family),
{
    let models = match provider {
        Provider::Openai => project_config::argv_of(
            &[
                "gpt-5.2-codex",
                "gpt-5.1-codex",
                "gpt-5.1-codex-max",
                "gpt-5.1-codex-mini",
                "gpt-5-codex",
                "gpt-5.2",
                "gpt-5.1",
                "gpt-5-mini",
            ],
        ),
        Provider::Anthropic => model::copy_texts(&family.models),
        Provider::Deepseek => project_config::argv_of(&["deepseek-chat", "deepseek-reasoner"]),
        Provider::Ollama => project_config::argv_of(
            &["qwen2.5-coder:7b", "qwen2.5-coder:14b", "deepseek-coder-v2:16b", "llama3.1:8b"],
        ),
        Provider::LlamaCpp => project_config::argv_of(&["local-model"]),
    };
    assert(text::texts(models@) =~= known_models(provider, *family));
    models
}

/// Whether a text can be the name of a model of the provider.
pub open spec fn model_allowed(provider: Provider, family: ModelFamily, model: Seq<char>) -> bool {
    let name = text::trimmed(model);
    &&& name.len() > 0
    &&& encode_utf8(name).len() <= 128
    &&& known_models(provider, family).contains(name) || match provider {
        Provider::Openai => "gpt-"@.is_prefix_of(name) || "codex-"@.is_prefix_of(name),
        Provider::Anthropic => family.prefix@.len() > 0 && family.prefix@.is_prefix_of(name),
        Provider::Deepseek => "deepseek-"@.is_prefix_of(name),
        Provider::Ollama => text::plain(name, ".-_:/"@),
        Provider::LlamaCpp => text::plain(name, ".-_:/"@),
    }
}

/// Whether the text can be the name of a model of the provider.
pub fn is_allowed_model_id(provider: Provider, family: &ModelFamily, model: &str) -> (answer: bool)
    ensures
        answer == model_allowed(provider, *family, model@),
{
    let name = text::trim(model);
    if name.as_str().is_empty() || name.as_str().as_bytes().len() > 128 {
        return false;
    }
    let known = available_models(provider, family);
    if paths::holds_text(&known, name.as_str()) {
        return true;
    }
    match provider {
        Provider::Openai => text::starts_with(name.as_str(), "gpt-") || text::starts_with(name.as_str(), "codex-"),
        Provider::Anthropic => !family.prefix.as_str().is_empty() && text::starts_with(name.as_str(), family.prefix.as_str()),
        Provider::Deepseek => text::starts_with(name.as_str(), "deepseek-"),
        Provider::Ollama => text::is_plain(name.as_str(), ".-_:/"),
        Provider::LlamaCpp => text::is_plain(name.as_str(), ".-_:/"),
    }
}

/// The relays that are used where none are configured.
pub open spec fn default_relay_list() -> Seq<Seq<char>> {
    seq![
        "wss://relay.damus.io"@,
        "wss://nos.lol"@,
        "wss://relay.primal.net"@,
        "wss://relay.nostr.band"@,
        "wss://relay.snort.social"@,
        "wss://nostr.mom"@,
        "wss://offchain.pub"@,
        "wss://relay.current.fyi"@,
        "wss://nostr.wine"@,
        "wss://relayable.org"@,
    ]
}

/// The name that is used where none is configured.
pub fn default_name() -> (name: String)
    ensures
        name@ == "Bender"@,
{
    "Bender".to_string()
}

/// The provider that is used where none is configured.
pub fn default_provider() -> (provider: Provider)
    ensures
        provider is Openai,
{
    Provider::Openai
}

/// The model that is used where none is configured.
pub fn default_model() -> (model: String)
    ensures
        model@ == "gpt-5.1-codex-mini"@,
{
    "gpt-5.1-codex-mini".to_string()
}

/// Where a local model is asked where nothing else is configured.
pub fn default_ollama_base_url() -> (url: String)
    ensures
        url@ == "http://127.0.0.1:11434"@,
{
    "http://127.0.0.1:11434".to_string()
}

/// Where a local server is asked where nothing else is configured.
pub fn default_llama_cpp_base_url() -> (url: String)
    ensures
        url@ == "http://127.0.0.1:8080"@,
{
    "http://127.0.0.1:8080".to_string()
}

/// Where the web interface listens where nothing else is configured.
pub fn default_bind() -> (address: String)
    ensures
        address@ == "127.0.0.1:7331"@,
{
    "127.0.0.1:7331".to_string()
}

/// The relays that are used where none are configured.
pub fn default_relays() -> (relays: Vec<String>)
    ensures
        text::texts(relays@) == default_relay_list(),
{
    let relays = project_config::argv_of(
        &[
            "wss://relay.damus.io",
            "wss://nos.lol",
            "wss://relay.primal.net",
            "wss://relay.nostr.band",
            "wss://relay.snort.social",
            "wss://nostr.mom",
            "wss://offchain.pub",
            "wss://relay.current.fyi",
            "wss://nostr.wine",
            "wss://relayable.org",
        ],
    );
    assert(text::texts(relays@) =~= default_relay_list());
    relays
}

/// The value of a setting, where it is set to something that is not blank.
pub open spec fn set_value(value: Option<String>) -> Option<Seq<char>> {
    match value {
        Some(inner) => if text::blank(inner@) {
            None
        } else {
            Some(inner@)
        },
        None => None,
    }
}

fn given(value: &Option<String>) -> (found: Option<&str>)
    ensures
        model::view_of(found) == set_value(*value),
{
    match value {
        Some(inner) => if text::is_blank(inner.as_str()) {
            None
        } else {
            Some(inner.as_str())
        },
        None => None,
    }
}

impl Config {
    /// Whether nothing is set but the pair of keys: neither who controls the orchestrator, nor the
    /// provider, nor a key of an API, nor a directory of tools.
    pub open spec fn is_unset(self, keys: IdentityView) -> bool {
        &&& self.name@ == "Bender"@
        &&& self.secret_key@ == keys.secret_key
        &&& self.public_key@ == keys.public_key
        &&& self.controller_npub is None
        &&& self.openai_api_key is None
        &&& self.anthropic_api_key is None
        &&& self.deepseek_api_key is None
        &&& self.provider is Openai
        &&& self.model@ == "gpt-5.1-codex-mini"@
        &&& self.ollama_base_url@ == "http://127.0.0.1:11434"@
        &&& self.llama_cpp_base_url@ == "http://127.0.0.1:8080"@
        &&& self.llama_cpp_api_key is None
        &&& self.tool_paths@.len() == 0
    }

    /// Whether this is the configuration of a project that was just set up for a pair of keys.
    pub open spec fn is_fresh(self, keys: IdentityView) -> bool {
        &&& self.is_unset(keys)
        &&& self.bind@ == "127.0.0.1:7331"@
        &&& text::texts(self.relays@) == default_relay_list()
        &&& self.auth_salt is None
        &&& self.auth_password_hash is None
        &&& self.auth_session_hash is None
    }

    /// The configuration of a project for the keys that a secret key gives.
    pub fn new(secret: &str) -> (result: Result<Config, ConfigError>)
        ensures
            match identity::identity_of(secret@) {
                Some(keys) => result is Ok && result->Ok_0.is_fresh(keys),
                None => result == Err::<Config, ConfigError>(ConfigError::InvalidSecretKey),
            },
    {
        match identity::parse_identity(secret) {
            Some(keys) => Ok(Config::for_keys(keys)),
            None => Err(ConfigError::InvalidSecretKey),
        }
    }

    /// The configuration of a project for a pair of keys.
    pub fn for_keys(keys: Identity) -> (config: Config)
        ensures
            config.is_fresh(keys@),
    {
        Config {
            name: default_name(),
            secret_key: keys.secret_key,
            public_key: keys.public_key,
            controller_npub: None,
            openai_api_key: None,
            anthropic_api_key: None,
            deepseek_api_key: None,
            provider: default_provider(),
            model: default_model(),
            ollama_base_url: default_ollama_base_url(),
            llama_cpp_base_url: default_llama_cpp_base_url(),
            llama_cpp_api_key: None,
            bind: default_bind(),
            relays: default_relays(),
            tool_paths: Vec::new(),
            auth_salt: None,
            auth_password_hash: None,
            auth_session_hash: None,
        }
    }

    /// Where the configuration of a project is stored.
    pub fn path(project_root: &str) -> (path: String)
        ensures
            path@ == paths::joined_path(paths::joined_path(project_root@, ".bender"@), "config.toml"@),
    {
        paths::join(paths::join(project_root, ".bender").as_str(), "config.toml")
    }

    /// Gives the configuration the one name that it may have, as it is done on each load and save.
    pub fn settle_name(&mut self)
        ensures
            final(self).name@ == "Bender"@,
            *final(self) == (Config { name: final(self).name, ..*old(self) }),
    {
        self.name = default_name();
    }

    /// The keys of the orchestrator.
    pub fn keys(&self) -> (result: Result<Identity, ConfigError>)
        ensures
            match identity::identity_of(self.secret_key@) {
                Some(keys) => result is Ok && result->Ok_0@ == keys,
                None => result == Err::<Identity, ConfigError>(ConfigError::InvalidSecretKey),
            },
    {
        match identity::parse_identity(self.secret_key.as_str()) {
            Some(keys) => Ok(keys),
            None => Err(ConfigError::InvalidSecretKey),
        }
    }

    /// The key of who may control the orchestrator, in hexadecimal form, where one is configured.
    pub fn controller(&self) -> (result: Result<Option<String>, ConfigError>)
        ensures
            match set_value(self.controller_npub) {
                None => result matches Ok(None),
                Some(npub) => match identity::key_of_npub(npub) {
                    Some(key) => result matches Ok(Some(found)) && found@ == key,
                    None => result == Err::<Option<String>, ConfigError>(ConfigError::InvalidController),
                },
            },
    {
        match given(&self.controller_npub) {
            None => Ok(None),
            Some(npub) => match identity::parse_npub(npub) {
                Some(key) => Ok(Some(key)),
                None => Err(ConfigError::InvalidController),
            },
        }
    }

    /// The key of the API of the configured provider.
    pub open spec fn provider_key(self) -> Option<String> {
        match self.provider {
            Provider::Openai => self.openai_api_key,
            Provider::Anthropic => self.anthropic_api_key,
            Provider::Deepseek => self.deepseek_api_key,
            Provider::Ollama => None,
            Provider::LlamaCpp => self.llama_cpp_api_key,
        }
    }

    /// The key of the API of the configured provider, where it needs one.
    pub fn api_key(&self) -> (result: Result<Option<&str>, ConfigError>)
        ensures
            if self.provider is Ollama {
                result matches Ok(None)
            } else {
                match set_value(self.provider_key()) {
                    Some(key) => result matches Ok(Some(found)) && found@ == key,
                    None => result == Err::<Option<&str>, ConfigError>(ConfigError::MissingApiKey(self.provider)),
                }
            },
    {
        let found = match self.provider {
            Provider::Openai => given(&self.openai_api_key),
            Provider::Anthropic => given(&self.anthropic_api_key),
            Provider::Deepseek => given(&self.deepseek_api_key),
            Provider::Ollama => {
                return Ok(None);
            },
            Provider::LlamaCpp => given(&self.llama_cpp_api_key),
        };
        match found {
            Some(key) => Ok(Some(key)),
            None => Err(ConfigError::MissingApiKey(self.provider)),
        }
    }

    /// The key of the OpenAI API.
    pub fn openai_api_key(&self) -> (result: Result<&str, ConfigError>)
        ensures
            match set_value(self.openai_api_key) {
                Some(key) => result is Ok && result->Ok_0@ == key,
                None => result == Err::<&str, ConfigError>(ConfigError::MissingOpenaiKey),
            },
    {
        match given(&self.openai_api_key) {
            Some(key) => Ok(key),
            None => Err(ConfigError::MissingOpenaiKey),
        }
    }

    /// Whether the configured provider can be asked as far as keys go.
    pub fn has_provider_auth(&self) -> (answer: bool)
        ensures
            answer == match self.provider {
                Provider::Openai => set_value(self.openai_api_key) is Some,
                Provider::Anthropic => set_value(self.anthropic_api_key) is Some,
                Provider::Deepseek => set_value(self.deepseek_api_key) is Some,
                Provider::Ollama => true,
                Provider::LlamaCpp => true,
            },
    {
        match self.provider {
            Provider::Openai => has_value(&self.openai_api_key),
            Provider::Anthropic => has_value(&self.anthropic_api_key),
            Provider::Deepseek => has_value(&self.deepseek_api_key),
            Provider::Ollama => true,
            Provider::LlamaCpp => true,
        }
    }
}

/// Whether a setting is set to something that is not blank.
pub fn has_value(value: &Option<String>) -> (answer: bool)
    ensures
        answer == (set_value(*value) is Some),
{
    given(value).is_some()
}

/// Which models a provider takes besides those that are known: those of its own family by their name, and
/// local services every plain name; never a blank name, nor one of more than 128 bytes.
pub proof fn models_belong_to_their_provider(family: ModelFamily, model: Seq<char>)
    ensures
        ({
            let name = text::trimmed(model);
            let fits = name.len() > 0 && encode_utf8(name).len() <= 128;
            &&& fits && "gpt-"@.is_prefix_of(name) ==> model_allowed(Provider::Openai, family, model)
            &&& fits && "codex-"@.is_prefix_of(name) ==> model_allowed(Provider::Openai, family, model)
            &&& fits && "deepseek-"@.is_prefix_of(name) ==> model_allowed(Provider::Deepseek, family, model)
            &&& fits && family.prefix@.len() > 0 && family.prefix@.is_prefix_of(name) ==> model_allowed(
                Provider::Anthropic,
                family,
                model,
            )
            &&& fits && (forall|i: int| 0 <= i < name.len() ==> text::alphanumeric(#[trigger] name[i]) || name[i] == ':') ==> {
                &&& model_allowed(Provider::Ollama, family, model)
                &&& model_allowed(Provider::LlamaCpp, family, model)
            }
            &&& !fits ==> !model_allowed(Provider::Openai, family, model) && !model_allowed(Provider::Ollama, family, model)
                && !model_allowed(Provider::Anthropic, family, model)
            &&& model_allowed(Provider::Openai, family, model) && !"gpt-"@.is_prefix_of(name) ==> "codex-"@.is_prefix_of(name)
            &&& model_allowed(Provider::Deepseek, family, model) ==> "deepseek-"@.is_prefix_of(name)
        }),
{
    reveal_strlit(".-_:/");
    assert(".-_:/"@[3] == ':');
    reveal_strlit("gpt-");
    reveal_strlit("gpt-5.2-codex");
    reveal_strlit("gpt-5.1-codex");
    reveal_strlit("gpt-5.1-codex-max");
    reveal_strlit("gpt-5.1-codex-mini");
    reveal_strlit("gpt-5-codex");
    reveal_strlit("gpt-5.2");
    reveal_strlit("gpt-5.1");
    reveal_strlit("gpt-5-mini");
    reveal_strlit("deepseek-");
    reveal_strlit("deepseek-chat");
    reveal_strlit("deepseek-reasoner");
    let name = text::trimmed(model);
    let known = known_models(Provider::Openai, family);
    assert forall|i: int| 0 <= i < known.len() implies "gpt-"@.is_prefix_of(#[trigger] known[i]) by {
        assert("gpt-"@ =~= known[i].subrange(0, 4));
    }
    let other = known_models(Provider::Deepseek, family);
    assert forall|i: int| 0 <= i < other.len() implies "deepseek-"@.is_prefix_of(#[trigger] other[i]) by {
        assert("deepseek-"@ =~= other[i].subrange(0, 9));
    }
}

/// Each provider is asked with its own key, and the local service without one.
pub proof fn providers_get_their_own_key(config: Config)
    ensures
        config.provider is Openai ==> config.provider_key() == config.openai_api_key,
        config.provider is Anthropic ==> config.provider_key() == config.anthropic_api_key,
        config.provider is Deepseek ==> config.provider_key() == config.deepseek_api_key,
        config.provider is LlamaCpp ==> config.provider_key() == config.llama_cpp_api_key,
        config.provider is Ollama ==> config.provider_key() is None,
{
}

/// A fresh configuration listens to this machine only, names nobody as its controller, has no key of any
/// service and no password, and speaks to ten relays.
pub proof fn fresh_configurations_trust_nobody(config: Config, keys: IdentityView)
    requires
        config.is_fresh(keys),
    ensures
        config.bind@ == "127.0.0.1:7331"@,
        config.controller_npub is None,
        config.openai_api_key is None,
        config.anthropic_api_key is None,
        config.deepseek_api_key is None,
        config.llama_cpp_api_key is None,
        config.auth_salt is None,
        config.auth_password_hash is None,
        config.auth_session_hash is None,
        config.tool_paths@.len() == 0,
        config.relays@.len() == 10,
        config.secret_key@ == keys.secret_key,
        config.public_key@ == keys.public_key,
        config.provider is Openai,
        config.model@ == "gpt-5.1-codex-mini"@,
        config.ollama_base_url@ == "http://127.0.0.1:11434"@,
        config.llama_cpp_base_url@ == "http://127.0.0.1:8080"@,
{
    assert(text::texts(config.relays@).len() == config.relays@.len());
}

} // verus!
