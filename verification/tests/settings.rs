use christina::settings::{parse_setting, updates_active_profile, ProviderKind, SettingValue, UsageTier, ValidationMode};
use christina::tokenizer::TokenCount;

#[test]
fn env_var_parsing_use_keyring() {
    let val = "true";
    let parsed: Result<bool, _> = val.parse();
    assert!(parsed.is_ok());
    assert!(parsed.unwrap());
}

fn message_of(key: &str, value: &str) -> String {
    parse_setting(key, value).unwrap_err().message
}

#[test]
fn setting_model_is_stored_as_given() {
    assert_eq!(
        parse_setting("model", "gpt-5-nano").unwrap(),
        SettingValue::Text("gpt-5-nano".to_string())
    );
    assert_eq!(
        parse_setting("model", "mistral-large").unwrap(),
        SettingValue::Text("mistral-large".to_string())
    );
}

#[test]
fn setting_api_key_and_alias() {
    assert_eq!(
        parse_setting("api_key", "sk-test").unwrap(),
        SettingValue::Text("sk-test".to_string())
    );
    assert_eq!(
        parse_setting("model_api_key", "sk-other").unwrap(),
        SettingValue::Text("sk-other".to_string())
    );
}

#[test]
fn setting_azure_fields() {
    assert_eq!(
        parse_setting("azure_api_version", "2024-02-15-preview").unwrap(),
        SettingValue::Text("2024-02-15-preview".to_string())
    );
    assert_eq!(
        parse_setting("azure_deployment_id", "my-deployment").unwrap(),
        SettingValue::Text("my-deployment".to_string())
    );
}

#[test]
fn setting_model_api_url_valid() {
    assert_eq!(
        parse_setting("model_api_url", "https://api.example.com").unwrap(),
        SettingValue::Url("https://api.example.com/".to_string())
    );
}

#[test]
fn setting_model_api_url_invalid() {
    assert_eq!(message_of("model_api_url", "not a url"), "relative URL without a base");
}

#[test]
fn setting_ignore_files() {
    assert_eq!(
        parse_setting("ignore_files", "Cargo.lock,package-lock.json").unwrap(),
        SettingValue::Files(vec!["Cargo.lock".to_string(), "package-lock.json".to_string()])
    );
}

#[test]
fn setting_ignore_files_with_spaces() {
    assert_eq!(
        parse_setting("ignore_files", " Cargo.lock , yarn.lock ,, ").unwrap(),
        SettingValue::Files(vec!["Cargo.lock".to_string(), "yarn.lock".to_string()])
    );
}

#[test]
fn setting_ignore_files_empty() {
    assert_eq!(parse_setting("ignore_files", "").unwrap(), SettingValue::Files(vec![]));
}

#[test]
fn setting_commit_message_max_length() {
    assert_eq!(
        parse_setting("commit_message_max_length", "100").unwrap(),
        SettingValue::MaxLength(Some(100))
    );
    assert_eq!(
        parse_setting("commit_message_max_length", "").unwrap(),
        SettingValue::MaxLength(None)
    );
    assert_eq!(message_of("commit_message_max_length", "abc"), "Invalid number");
}

#[test]
fn setting_validation_mode() {
    assert_eq!(
        parse_setting("commit_message_validation_mode", "strict").unwrap(),
        SettingValue::Mode(ValidationMode::Strict)
    );
    assert_eq!(
        parse_setting("commit_message_validation_mode", "SOFT").unwrap(),
        SettingValue::Mode(ValidationMode::Soft)
    );
    assert_eq!(
        parse_setting("commit_message_validation_mode", "Disabled").unwrap(),
        SettingValue::Mode(ValidationMode::Disabled)
    );
    assert_eq!(
        message_of("commit_message_validation_mode", "lenient"),
        "Invalid validation mode: must be strict, soft, or disabled"
    );
}

#[test]
fn setting_usage_tier() {
    assert_eq!(parse_setting("usage_tier", "Free").unwrap(), SettingValue::Tier(UsageTier::Free));
    assert_eq!(
        parse_setting("usage_tier", "standard").unwrap(),
        SettingValue::Tier(UsageTier::Standard)
    );
    assert_eq!(message_of("usage_tier", "pro"), "Invalid usage_tier: must be standard or free");
}

#[test]
fn setting_flags_accept_common_spellings() {
    for v in ["true", " YES ", "1", "On"] {
        assert_eq!(parse_setting("use_commit_history", v).unwrap(), SettingValue::Flag(true));
    }
    for v in ["false", "no", "0", " OFF"] {
        assert_eq!(parse_setting("use_experimental", v).unwrap(), SettingValue::Flag(false));
    }
    assert_eq!(
        message_of("use_experimental", "maybe"),
        "Invalid boolean (expected true/false, yes/no, 1/0, on/off)"
    );
}

#[test]
fn setting_counts_are_clamped() {
    assert_eq!(parse_setting("commit_history_depth", "80").unwrap(), SettingValue::Count(50));
    assert_eq!(parse_setting("commit_history_depth", "7").unwrap(), SettingValue::Count(7));
    assert_eq!(parse_setting("max_concurrent_requests", "0").unwrap(), SettingValue::Count(1));
    assert_eq!(parse_setting("max_concurrent_requests", "25").unwrap(), SettingValue::Count(10));
    assert_eq!(parse_setting("max_concurrent_requests", "3").unwrap(), SettingValue::Count(3));
    assert_eq!(
        parse_setting("free_tier_max_concurrent_requests", "40").unwrap(),
        SettingValue::Count(40)
    );
    assert_eq!(message_of("commit_history_depth", "-1"), "Invalid number");
}

#[test]
fn setting_unknown_key() {
    assert_eq!(message_of("unknown_key", "value"), "Unknown configuration key: unknown_key");
}

#[test]
fn setting_keys_read_elsewhere() {
    for key in ["model_temperature", "max_partial_failure_rate", "prompt_failure_rate_threshold"] {
        assert_eq!(parse_setting(key, "x").unwrap(), SettingValue::Unparsed);
    }
}

#[test]
fn setting_profile_keys() {
    for key in ["model", "api_key", "model_api_key", "model_api_url", "max_input_tokens", "model_temperature"] {
        assert!(updates_active_profile(key), "{key}");
    }
    for key in ["ignore_files", "use_commit_history", "unknown"] {
        assert!(!updates_active_profile(key), "{key}");
    }
}

#[test]
fn setting_token_counts() {
    assert_eq!(
        parse_setting("max_input_tokens", "8192").unwrap(),
        SettingValue::Tokens(TokenCount::new(8192).unwrap())
    );
    assert_eq!(
        parse_setting("max_output_tokens", "2048").unwrap(),
        SettingValue::Tokens(TokenCount::new(2048).unwrap())
    );
    assert_eq!(message_of("max_input_tokens", "not_a_number"), "Invalid number");
    assert_eq!(message_of("max_input_tokens", "-100"), "Invalid number");
    assert_eq!(message_of("max_output_tokens", "invalid"), "Invalid number");
    assert_eq!(message_of("lockfile_token_limit", "0"), "Invalid number");
}

#[test]
fn setting_model_provider() {
    assert_eq!(parse_setting("model_provider", "openai").unwrap(), SettingValue::Provider(ProviderKind::OpenAI));
    assert_eq!(parse_setting("model_provider", "azure").unwrap(), SettingValue::Provider(ProviderKind::Azure));
    assert_eq!(message_of("model_provider", "invalid_provider"), "Unknown provider: invalid_provider");
}
