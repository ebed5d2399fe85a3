use bender::config::{
    available_models, has_value, is_allowed_model_id, providers, Config, ConfigError, ModelFamily, Provider,
};

const SECRET: &str = "9571a568a42b9e05646a349c783159b906b498119390df9a5a02667155128028";
const NSEC: &str = "nsec1j4c6269y9w0q2er2xjw8sv2ehyrtfxq3jwgdlxj6qfn8z4gjsq5qfvfk99";
const NPUB: &str = "npub14f8usejl26twx0dhuxjh9cas7keav9vr0v8nvtwtrjqx3vycc76qqh9nsy";
const HEX: &str = "aa4fc8665f5696e33db7e1a572e3b0f5b3d615837b0f362dcb1c8068b098c7b4";

#[test]
fn keys_follow_from_the_secret() {
    let config = Config::new(SECRET).unwrap();
    assert_eq!(config.secret_key, NSEC);
    assert_eq!(config.public_key, NPUB);
    let keys = config.keys().unwrap();
    assert_eq!(keys.public_hex, HEX);
    assert_eq!(Config::new(NSEC).unwrap().public_key, NPUB);
    assert_eq!(Config::new("nothing").unwrap_err(), ConfigError::InvalidSecretKey);
}

#[test]
fn new_configurations_have_the_defaults() {
    let config = Config::new(SECRET).unwrap();
    assert_eq!(config.name, "Bender");
    assert_eq!(config.provider, Provider::Openai);
    assert_eq!(config.model, "gpt-5.1-codex-mini");
    assert_eq!(config.relays.len(), 10);
    assert!(config.tool_paths.is_empty());
    assert_eq!(Config::path("/w"), "/w/.bender/config.toml");
}

#[test]
fn controllers_are_read_from_their_npub() {
    let mut config = Config::new(SECRET).unwrap();
    assert_eq!(config.controller().unwrap(), None);
    config.controller_npub = Some(" ".into());
    assert_eq!(config.controller().unwrap(), None);
    config.controller_npub = Some(NPUB.into());
    assert_eq!(config.controller().unwrap().as_deref(), Some(HEX));
    config.controller_npub = Some(HEX.into());
    assert_eq!(config.controller().unwrap_err(), ConfigError::InvalidController);
}

#[test]
fn keys_of_providers_are_needed_where_they_are_used() {
    let mut config = Config::new(SECRET).unwrap();
    assert_eq!(config.api_key().unwrap_err().message(), "missing API key for OpenAI / Codex");
    assert_eq!(
        config.openai_api_key().unwrap_err().message(),
        "missing openai_api_key in .bender/config.toml or OPENAI_API_KEY"
    );
    assert!(!config.has_provider_auth());
    config.openai_api_key = Some("sk-x".into());
    assert_eq!(config.api_key().unwrap(), Some("sk-x"));
    assert!(config.has_provider_auth());
    config.provider = Provider::Ollama;
    assert_eq!(config.api_key().unwrap(), None);
    config.provider = Provider::LlamaCpp;
    assert_eq!(config.api_key().unwrap_err(), ConfigError::MissingApiKey(Provider::LlamaCpp));
    assert!(config.has_provider_auth());
    config.provider = Provider::Deepseek;
    assert!(!config.has_provider_auth());
    assert!(has_value(&Some("x".into())));
    assert!(!has_value(&Some(" ".into())));
    assert!(!has_value(&None));
}

#[test]
fn model_names_follow_their_provider() {
    let none = ModelFamily::default();
    let family = ModelFamily { prefix: "family-".into(), models: vec!["family-large".into(), "special".into()] };
    assert!(is_allowed_model_id(Provider::Openai, &none, " gpt-5.1 "));
    assert!(is_allowed_model_id(Provider::Openai, &none, "codex-x"));
    assert!(!is_allowed_model_id(Provider::Openai, &none, "llama"));
    assert!(!is_allowed_model_id(Provider::Openai, &none, ""));
    assert!(!is_allowed_model_id(Provider::Openai, &none, &format!("gpt-{}", "x".repeat(125))));
    assert!(is_allowed_model_id(Provider::Openai, &none, &format!("gpt-{}", "x".repeat(124))));
    assert!(!is_allowed_model_id(Provider::Anthropic, &none, "family-small"));
    assert!(is_allowed_model_id(Provider::Anthropic, &family, "family-small"));
    assert!(is_allowed_model_id(Provider::Anthropic, &family, "special"));
    assert!(!is_allowed_model_id(Provider::Anthropic, &family, "other"));
    assert!(is_allowed_model_id(Provider::Deepseek, &none, "deepseek-v3"));
    assert!(is_allowed_model_id(Provider::Ollama, &none, "a/b:c.d-e_f"));
    assert!(!is_allowed_model_id(Provider::Ollama, &none, "a b"));
    assert!(is_allowed_model_id(Provider::LlamaCpp, &none, "anything"));
    assert_eq!(available_models(Provider::Deepseek, &none), vec!["deepseek-chat", "deepseek-reasoner"]);
    assert_eq!(available_models(Provider::Anthropic, &family), vec!["family-large", "special"]);
    assert_eq!(available_models(Provider::Openai, &none)[0], "gpt-5.2-codex");
}

#[test]
fn providers_are_named_both_ways() {
    for provider in providers() {
        assert_eq!(Provider::from_name(provider.as_str()), Some(provider));
    }
    assert_eq!(Provider::from_name("other"), None);
    assert_eq!(Provider::LlamaCpp.as_str(), "llama_cpp");
    assert_eq!(Provider::LlamaCpp.label(), "llama.cpp");
}
