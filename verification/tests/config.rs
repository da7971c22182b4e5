use christina::config::{
    config_list_lines, config_value, layer_config, Config, EnvValues, FileSettings,
    FreeTierSettings, HardLimits, ProfileSettings, SetOutcome,
};
use christina::settings::{parse_provider, parse_token_count, ProviderKind, UsageTier, ValidationMode};
use christina::tokenizer::TokenCount;

/// The models' hard token limits these tests run with.
const MAX_INPUT: u32 = 128_000;
const MAX_OUTPUT: u32 = 16_384;

fn limits() -> HardLimits {
    HardLimits {
        max_input: TokenCount::new(MAX_INPUT).unwrap(),
        max_output: TokenCount::new(MAX_OUTPUT).unwrap(),
    }
}

fn no_env() -> EnvValues {
    EnvValues {
        tokens_max_input: None,
        tokens_output: None,
        model_provider: None,
        model: None,
        model_api_key: None,
        model_api_url: None,
        azure_api_version: None,
        azure_deployment_id: None,
        use_commit_history: None,
        commit_history_depth: None,
        concurrency_limit: None,
    }
}

fn profile() -> ProfileSettings {
    ProfileSettings {
        name: "work".to_string(),
        provider: ProviderKind::Azure,
        model: "gpt-4o".to_string(),
        api_key: Some("sk-profile".to_string()),
        api_url: Some("https://r.openai.azure.com/".to_string()),
        azure_api_version: Some("2024-12-01-preview".to_string()),
        azure_deployment_id: Some("gpt-4o".to_string()),
        max_input_tokens: TokenCount::new(16000).unwrap(),
        max_output_tokens: TokenCount::new(800).unwrap(),
        temperature: Some("0.7".to_string()),
    }
}

fn unset_free_tier() -> FreeTierSettings {
    FreeTierSettings {
        max_input_tokens: None,
        max_output_tokens: None,
        max_concurrent_requests: None,
        commit_history_depth: None,
    }
}

fn file() -> FileSettings {
    FileSettings {
        commit_message_max_length: Some(60),
        commit_message_validation_mode: ValidationMode::Strict,
        ignore_files: vec!["Cargo.lock".to_string()],
        lockfile_token_limit: TokenCount::new(250).unwrap(),
        use_commit_history: false,
        commit_history_depth: 12,
        max_concurrent_requests: 6,
        max_partial_failure_rate: "0.2".to_string(),
        prompt_failure_rate_threshold: "0.05".to_string(),
        use_experimental: true,
        usage_tier: UsageTier::Free,
        free_tier: FreeTierSettings {
            max_input_tokens: Some(TokenCount::new(MAX_INPUT + 5).unwrap()),
            max_output_tokens: Some(TokenCount::new(300).unwrap()),
            max_concurrent_requests: Some(0),
            commit_history_depth: Some(90),
        },
    }
}

fn default_with_profile() -> Config {
    layer_config(None, Some(profile()), no_env(), &limits()).unwrap().0
}

#[test]
fn default_config() {
    let config = Config::default();
    assert_eq!(config.max_input_tokens.get(), 4096);
    assert_eq!(config.max_output_tokens.get(), 500);
    assert_eq!(config.model_provider, ProviderKind::OpenAI);
    assert_eq!(config.model, "gpt-4.1-mini");
    assert!(config.api_key.is_none());
}

#[test]
fn layers_in_ascending_priority() {
    let c = layer_config(Some(file()), Some(profile()), no_env(), &limits()).unwrap().0;
    assert_eq!(c.model, "gpt-4o");
    assert_eq!(c.model_provider, ProviderKind::Azure);
    assert_eq!(c.max_input_tokens.get(), 16000);
    assert_eq!(c.model_temperature, "0.7");
    assert_eq!(c.ignore_files, vec!["Cargo.lock".to_string()]);
    assert!(!c.use_commit_history);
    assert_eq!(c.commit_history_depth, 12);
    assert_eq!(c.max_concurrent_requests, 6);
    assert_eq!(c.lockfile_token_limit.get(), 250);
    assert_eq!(c.active_profile.as_ref().unwrap().name, "work");

    let mut env = no_env();
    env.model = Some("gpt-5-nano".to_string());
    env.model_api_key = Some("sk-env".to_string());
    env.tokens_max_input = Some("not a number".to_string());
    env.use_commit_history = Some("true".to_string());
    env.commit_history_depth = Some("80".to_string());
    env.concurrency_limit = Some("0".to_string());
    let c = layer_config(Some(file()), Some(profile()), env, &limits()).unwrap().0;
    assert_eq!(c.model, "gpt-5-nano");
    assert_eq!(c.api_key, Some("sk-env".to_string()));
    assert_eq!(c.max_input_tokens.get(), 16000);
    assert!(c.use_commit_history);
    assert_eq!(c.commit_history_depth, 50);
    assert_eq!(c.max_concurrent_requests, 1);
}

#[test]
fn loading_holds_free_tier_limits() {
    let c = layer_config(Some(file()), None, no_env(), &limits()).unwrap().0;
    assert_eq!(c.free_tier.max_input_tokens.map(|t| t.get()), Some(MAX_INPUT));
    assert_eq!(c.free_tier.max_output_tokens.map(|t| t.get()), Some(300));
    assert_eq!(c.free_tier.max_concurrent_requests, Some(1));
    assert_eq!(c.free_tier.commit_history_depth, Some(50));
}

#[test]
fn loading_warns_of_what_it_held() {
    let mut p = profile();
    p.max_input_tokens = TokenCount::new_at_least_one(MAX_INPUT + 1000);
    let (_, warnings) = layer_config(Some(file()), Some(p), no_env(), &limits()).unwrap();
    assert_eq!(
        warnings,
        vec![
            format!("max_input_tokens clamped from {} to {}", MAX_INPUT + 1000, MAX_INPUT),
            format!("free_tier.max_input_tokens clamped from {} to {}", MAX_INPUT + 5, MAX_INPUT),
            "free_tier.max_concurrent_requests clamped from 0 to 1".to_string(),
            "free_tier.commit_history_depth clamped from 90 to 50".to_string(),
        ]
    );
    let mut f = file();
    f.use_experimental = false;
    f.free_tier = unset_free_tier();
    let (_, warnings) = layer_config(Some(f), None, no_env(), &limits()).unwrap();
    assert_eq!(
        warnings,
        vec!["usage_tier set but experimental settings disabled; set use_experimental=true to apply".to_string()]
    );
    let (_, warnings) = layer_config(None, None, no_env(), &limits()).unwrap();
    assert!(warnings.is_empty());
}

#[test]
fn validate_clamps_token_limits() {
    let mut p = profile();
    p.max_input_tokens = TokenCount::new_at_least_one(MAX_INPUT + 1000);
    p.max_output_tokens = TokenCount::new_at_least_one(MAX_OUTPUT + 1000);
    let mut config = layer_config(None, Some(p), no_env(), &limits()).unwrap().0;
    assert_eq!(config.max_input_tokens.get(), MAX_INPUT, "should clamp input tokens to hard limit");
    assert_eq!(config.max_output_tokens.get(), MAX_OUTPUT, "should clamp output tokens to hard limit");

    config.max_input_tokens = TokenCount::new_at_least_one(MAX_INPUT + 1000);
    config.max_output_tokens = TokenCount::new_at_least_one(MAX_OUTPUT + 1000);
    let warnings = config.validate(&limits());
    assert_eq!(config.max_input_tokens.get(), MAX_INPUT);
    assert_eq!(config.max_output_tokens.get(), MAX_OUTPUT);
    assert!(warnings.iter().any(|w| w.contains("max_input_tokens")));
    assert!(warnings.iter().any(|w| w.contains("max_output_tokens")));
}

#[test]
fn bad_provider_or_url_in_environment_fails() {
    let mut env = no_env();
    env.model_provider = Some("invalid_provider".to_string());
    assert_eq!(layer_config(None, None, env, &limits()).unwrap_err().message, "Unknown provider: invalid_provider");
    let mut env = no_env();
    env.model_api_url = Some("not a url".to_string());
    assert_eq!(layer_config(None, None, env, &limits()).unwrap_err().message, "relative URL without a base");
    let mut env = no_env();
    env.model_api_url = Some("https://api.example.com".to_string());
    env.concurrency_limit = Some("25".to_string());
    let c = layer_config(None, None, env, &limits()).unwrap().0;
    assert_eq!(c.model_api_url, Some("https://api.example.com/".to_string()));
    assert_eq!(c.max_concurrent_requests, 20);
}

#[test]
fn env_var_parsing_max_input_tokens() {
    let parsed = parse_token_count("16384");
    assert!(parsed.is_some());
    assert_eq!(parsed.unwrap().get(), 16384);
}

#[test]
fn env_var_parsing_model_provider() {
    let parsed = parse_provider("azure");
    assert!(parsed.is_ok());
    assert_eq!(parsed.unwrap(), ProviderKind::Azure);
}

#[test]
fn config_values_for_get() {
    let c = layer_config(Some(file()), Some(profile()), no_env(), &limits()).unwrap().0;
    assert_eq!(config_value(&c, "max_input_tokens"), Some("16000".to_string()));
    assert_eq!(config_value(&c, "model_provider"), Some("azure".to_string()));
    assert_eq!(config_value(&c, "api_key"), Some("sk-profile".to_string()));
    assert_eq!(config_value(&c, "ignore_files"), Some("Cargo.lock".to_string()));
    assert_eq!(config_value(&c, "use_commit_history"), Some("false".to_string()));
    assert_eq!(config_value(&c, "commit_history_depth"), Some("12".to_string()));
    assert_eq!(config_value(&c, "lockfile_token_limit"), Some("250".to_string()));
    assert_eq!(config_value(&c, "usage_tier"), Some("free".to_string()));
    assert_eq!(config_value(&c, "use_experimental"), Some("true".to_string()));
    assert_eq!(config_value(&c, "commit_message_validation_mode"), Some("strict".to_string()));
    assert_eq!(config_value(&c, "commit_message_max_length"), Some("60".to_string()));
    assert_eq!(config_value(&c, "free_tier_max_output_tokens"), Some("300".to_string()));
    assert_eq!(config_value(&c, "free_tier_commit_history_depth"), Some("50".to_string()));
    assert_eq!(config_value(&c, "max_partial_failure_rate"), Some("0.2".to_string()));
    assert_eq!(config_value(&c, "model_temperature"), Some("0.7".to_string()));
    assert_eq!(config_value(&c, "unknown_key"), None);
    let d = Config::default();
    assert_eq!(config_value(&d, "api_key"), None);
    assert_eq!(config_value(&d, "lockfile_token_limit"), Some("100".to_string()));
    assert_eq!(config_value(&d, "usage_tier"), Some("standard".to_string()));
    assert_eq!(config_value(&d, "use_experimental"), Some("false".to_string()));
    assert_eq!(config_value(&d, "free_tier_max_input_tokens"), None);
    assert_eq!(config_value(&d, "model_temperature"), Some("0.3".to_string()));
    assert_eq!(config_value(&d, "max_partial_failure_rate"), Some("0.1".to_string()));
    assert_eq!(config_value(&d, "prompt_failure_rate_threshold"), Some("0.05".to_string()));
}

#[test]
fn config_list_shows_held_values() {
    let lines = config_list_lines(&Config::default());
    assert_eq!(lines.len(), 27);
    assert_eq!(lines[0], "Configuration values:");
    assert_eq!(lines[1], "  max_input_tokens: 4096");
    assert_eq!(lines[3], "  model_provider: openai");
    assert_eq!(lines[5], "  api_key: <not set>");
    assert_eq!(lines[6], "  model_api_url: <not set>");
    assert_eq!(lines[9], "  ignore_files: ");
    assert_eq!(lines[10], "  lockfile_token_limit: 100");
    assert_eq!(lines[11], "  model_temperature: 0.3");
    assert_eq!(lines[12], "  commit_message_max_length: <default (72)>");
    assert_eq!(lines[13], "  commit_message_validation_mode: soft");
    assert_eq!(lines[16], "  max_concurrent_requests: 4");
    assert_eq!(lines[19], "  usage_tier: standard");
    assert_eq!(lines[21], "  free_tier_max_input_tokens: <default>");
    assert_eq!(lines[25], "");
    assert_eq!(lines[26], "  Active profile: <none>");
    let c = layer_config(Some(file()), Some(profile()), no_env(), &limits()).unwrap().0;
    let lines = config_list_lines(&c);
    assert_eq!(lines[5], "  api_key: <set>");
    assert_eq!(lines[9], "  ignore_files: Cargo.lock");
    assert_eq!(lines[24], "  free_tier_commit_history_depth: 50");
    assert_eq!(lines[26], "  Active profile: work");
}

#[test]
fn config_get_set() {
    let mut config = Config::default();
    config.set("model", "gpt-4.1-mini", &limits()).expect("setting config should succeed");
    assert_eq!(config_value(&config, "model"), Some("gpt-4.1-mini".to_string()));
}

#[test]
fn set_max_input_tokens_valid() {
    let mut config = Config::default();
    config.set("max_input_tokens", "8192", &limits()).expect("should set valid token count");
    assert_eq!(config.max_input_tokens.get(), 8192);
}

#[test]
fn set_max_input_tokens_clamping() {
    let mut config = Config::default();
    let over_limit = (MAX_INPUT + 1).to_string();
    config.set("max_input_tokens", &over_limit, &limits()).expect("should accept but clamp");
    assert_eq!(config.max_input_tokens.get(), MAX_INPUT, "should clamp to hard limit");
}

#[test]
fn set_max_input_tokens_invalid() {
    let mut config = Config::default();
    assert!(config.set("max_input_tokens", "not_a_number", &limits()).is_err(), "should reject invalid number");
    assert!(config.set("max_input_tokens", "-100", &limits()).is_err(), "should reject negative number");
}

#[test]
fn set_max_output_tokens_valid() {
    let mut config = Config::default();
    config.set("max_output_tokens", "2048", &limits()).expect("should set valid token count");
    assert_eq!(config.max_output_tokens.get(), 2048);
}

#[test]
fn set_max_output_tokens_clamping() {
    let mut config = Config::default();
    let over_limit = (MAX_OUTPUT + 1).to_string();
    config.set("max_output_tokens", &over_limit, &limits()).expect("should accept but clamp");
    assert_eq!(config.max_output_tokens.get(), MAX_OUTPUT, "should clamp to hard limit");
}

#[test]
fn set_max_output_tokens_invalid() {
    let mut config = Config::default();
    assert!(config.set("max_output_tokens", "invalid", &limits()).is_err(), "should reject invalid number");
}

#[test]
fn set_model_provider_valid() {
    let mut config = Config::default();
    config.set("model_provider", "openai", &limits()).expect("should set openai provider");
    assert_eq!(config.model_provider, ProviderKind::OpenAI);
    config.set("model_provider", "azure", &limits()).expect("should set valid provider");
    assert_eq!(config.model_provider, ProviderKind::Azure);
}

#[test]
fn set_model_provider_invalid() {
    let mut config = Config::default();
    assert!(config.set("model_provider", "invalid_provider", &limits()).is_err(), "should reject unknown provider");
}

#[test]
fn set_model() {
    let mut config = Config::default();
    config.set("model", "gpt-5-nano", &limits()).expect("should set model name");
    assert_eq!(config.model, "gpt-5-nano");
    config.set("model", "mistral-large-2", &limits()).expect("should set another vendor's model");
    assert_eq!(config.model, "mistral-large-2");
}

#[test]
fn set_api_key() {
    let mut config = Config::default();
    config.set("api_key", "sk-test123", &limits()).expect("should set api_key");
    assert_eq!(config.api_key, Some("sk-test123".to_string()));
    config.set("model_api_key", "sk-test456", &limits()).expect("should set via model_api_key");
    assert_eq!(config.api_key, Some("sk-test456".to_string()));
}

#[test]
fn set_model_api_url_valid() {
    let mut config = Config::default();
    config.set("model_api_url", "https://api.example.com/v1", &limits()).expect("should set valid URL");
    assert_eq!(config.model_api_url.expect("model_api_url should be set"), "https://api.example.com/v1");
}

#[test]
fn set_model_api_url_invalid() {
    let mut config = Config::default();
    assert!(config.set("model_api_url", "not a url", &limits()).is_err(), "should reject malformed URL");
}

#[test]
fn set_azure_api_version() {
    let mut config = Config::default();
    config.set("azure_api_version", "2024-02-15-preview", &limits()).expect("should set azure api version");
    assert_eq!(config.azure_api_version, Some("2024-02-15-preview".to_string()));
}

#[test]
fn set_azure_deployment_id() {
    let mut config = Config::default();
    config.set("azure_deployment_id", "my-deployment", &limits()).expect("should set azure deployment id");
    assert_eq!(config.azure_deployment_id, Some("my-deployment".to_string()));
}

#[test]
fn set_ignore_files() {
    let mut config = Config::default();
    config.set("ignore_files", "file1.txt,file2.lock,file3.bin", &limits()).expect("should parse CSV");
    assert_eq!(config.ignore_files, vec!["file1.txt", "file2.lock", "file3.bin"]);
}

#[test]
fn set_ignore_files_with_spaces() {
    let mut config = Config::default();
    config.set("ignore_files", "file1.txt, file2.lock , file3.bin", &limits()).expect("should trim spaces");
    assert_eq!(config.ignore_files, vec!["file1.txt", "file2.lock", "file3.bin"]);
}

#[test]
fn set_ignore_files_empty() {
    let mut config = Config { ignore_files: vec!["test.txt".to_string()], ..Config::default() };
    config.set("ignore_files", "", &limits()).expect("should accept empty string");
    assert_eq!(config.ignore_files, Vec::<String>::new());
}

#[test]
fn set_commit_message_max_length() {
    let mut config = Config::default();
    config.set("commit_message_max_length", "100", &limits()).expect("should set max length");
    assert_eq!(config.commit_message_max_length, Some(100));
}

#[test]
fn set_commit_message_max_length_empty() {
    let mut config = Config { commit_message_max_length: Some(100), ..Config::default() };
    config.set("commit_message_max_length", "", &limits()).expect("should clear when empty");
    assert_eq!(config.commit_message_max_length, None);
}

#[test]
fn set_commit_message_max_length_invalid() {
    let mut config = Config::default();
    assert!(config.set("commit_message_max_length", "not_a_number", &limits()).is_err());
}

#[test]
fn set_commit_message_validation_mode() {
    let mut config = Config::default();
    config.set("commit_message_validation_mode", "strict", &limits()).expect("should set strict mode");
    assert_eq!(config.commit_message_validation_mode, ValidationMode::Strict);
    config.set("commit_message_validation_mode", "soft", &limits()).expect("should set soft mode");
    assert_eq!(config.commit_message_validation_mode, ValidationMode::Soft);
    config.set("commit_message_validation_mode", "disabled", &limits()).expect("should set disabled mode");
    assert_eq!(config.commit_message_validation_mode, ValidationMode::Disabled);
    config.set("commit_message_validation_mode", "STRICT", &limits()).expect("should be case insensitive");
    assert_eq!(config.commit_message_validation_mode, ValidationMode::Strict);
}

#[test]
fn set_commit_message_validation_mode_invalid() {
    let mut config = Config::default();
    assert!(config.set("commit_message_validation_mode", "invalid_mode", &limits()).is_err());
}

#[test]
fn set_unknown_key() {
    let mut config = Config::default();
    let result = config.set("unknown_key", "value", &limits());
    assert!(result.is_err());
    assert!(result.unwrap_err().message.contains("Unknown configuration key"));
}

#[test]
fn refused_set_changes_nothing() {
    let mut config = default_with_profile();
    for (key, value) in [
        ("unknown_key", "v"),
        ("max_input_tokens", "not_a_number"),
        ("max_input_tokens", "-100"),
        ("model_provider", "invalid_provider"),
        ("model_api_url", "not a url"),
        ("commit_message_validation_mode", "invalid_mode"),
    ] {
        let before = config_list_lines(&config);
        assert!(config.set(key, value, &limits()).is_err());
        assert_eq!(config_list_lines(&config), before);
        assert_eq!(config.max_input_tokens.get(), 16000);
    }
}

#[test]
fn set_updates_the_active_profile() {
    let mut config = default_with_profile();
    let over_limit = (MAX_INPUT + 1).to_string();
    config.set("max_input_tokens", &over_limit, &limits()).unwrap();
    assert_eq!(config.max_input_tokens.get(), MAX_INPUT);
    assert_eq!(config.active_profile.as_ref().unwrap().max_input_tokens.get(), MAX_INPUT);
    config.set("model", "gpt-5", &limits()).unwrap();
    assert_eq!(config.active_profile.as_ref().unwrap().model, "gpt-5");
    config.set("model_api_key", "sk-new", &limits()).unwrap();
    assert_eq!(config.active_profile.as_ref().unwrap().api_key, Some("sk-new".to_string()));
    config.set("ignore_files", "a.lock", &limits()).unwrap();
    assert_eq!(config.active_profile.as_ref().unwrap().name, "work");
    assert_eq!(config.set("model_temperature", "0.9", &limits()), Ok(SetOutcome::Fractional));
    assert_eq!(config.set("use_commit_history", "off", &limits()), Ok(SetOutcome::Stored));
    assert!(!config.use_commit_history);
}

#[test]
fn get_max_input_tokens() {
    let config = Config::default();
    assert_eq!(config_value(&config, "max_input_tokens"), Some("4096".to_string()));
}

#[test]
fn get_max_output_tokens() {
    let config = Config::default();
    assert_eq!(config_value(&config, "max_output_tokens"), Some("500".to_string()));
}

#[test]
fn get_model() {
    let config = Config::default();
    assert_eq!(config_value(&config, "model"), Some("gpt-4.1-mini".to_string()));
}

#[test]
fn get_api_key_none() {
    let config = Config::default();
    assert_eq!(config_value(&config, "api_key"), None);
    assert_eq!(config_value(&config, "model_api_key"), None);
}

#[test]
fn get_api_key_some() {
    let mut config = Config::default();
    config.api_key = Some("sk-test".to_string());
    assert_eq!(config_value(&config, "api_key"), Some("sk-test".to_string()));
    assert_eq!(config_value(&config, "model_api_key"), Some("sk-test".to_string()));
}

#[test]
fn get_model_api_url() {
    let mut config = Config::default();
    config.set("model_api_url", "https://api.example.com", &limits()).unwrap();
    assert_eq!(config_value(&config, "model_api_url"), Some("https://api.example.com/".to_string()));
}

#[test]
fn get_azure_fields() {
    let mut config = Config::default();
    config.azure_api_version = Some("2024-02-15".to_string());
    config.azure_deployment_id = Some("my-deployment".to_string());
    assert_eq!(config_value(&config, "azure_api_version"), Some("2024-02-15".to_string()));
    assert_eq!(config_value(&config, "azure_deployment_id"), Some("my-deployment".to_string()));
}

#[test]
fn get_ignore_files() {
    let config = Config::default();
    let ignore_files = config_value(&config, "ignore_files").unwrap();
    assert!(ignore_files.is_empty());
}

#[test]
fn get_commit_message_fields() {
    let mut config = Config::default();
    assert_eq!(config_value(&config, "commit_message_max_length"), None);
    config.commit_message_max_length = Some(100);
    assert_eq!(config_value(&config, "commit_message_max_length"), Some("100".to_string()));
    assert_eq!(config_value(&config, "commit_message_validation_mode"), Some("soft".to_string()));
}

#[test]
fn get_unknown_key() {
    let config = Config::default();
    assert_eq!(config_value(&config, "unknown_key"), None);
}
