use christina::cli::ConfigCommands;
use christina::config_cmd::{
    config_get_output, config_path_output, config_set_output, handle_config_command, handle_tui,
    ConfigCmdError, ConfigTask, ConfigTuiResult, TuiStep,
};

#[test]
fn test_handle_get_existing_key() {
    assert_eq!(
        config_get_output("model", Some("gpt-4".to_string())),
        Ok("model: gpt-4".to_string())
    );
}

#[test]
fn test_handle_get_api_key_hidden() {
    assert_eq!(
        config_get_output("api_key", Some("test-key".to_string())),
        Ok("api_key: <hidden>".to_string())
    );
}

#[test]
fn test_handle_get_missing_key() {
    let error = config_get_output("nonexistent_key", None).expect_err("Expected error for missing key");
    assert!(
        error.message.contains("Unknown configuration key"),
        "Error message should mention unknown key"
    );
    assert_eq!(
        error,
        ConfigCmdError { message: "Unknown configuration key 'nonexistent_key'".to_string() }
    );
}

#[test]
fn test_handle_get_key_with_key_in_name() {
    assert_eq!(
        config_get_output("monkey_business", Some("v".to_string())),
        Ok("monkey_business: <hidden>".to_string())
    );
}

#[test]
fn test_handle_set_prints_assignment() {
    assert_eq!(config_set_output("model", "gpt-3.5-turbo"), "Set model = gpt-3.5-turbo");
}

#[test]
fn test_handle_path_returns_path() {
    assert_eq!(
        config_path_output(Some("/home/u/.config/christina/config.toml".to_string())),
        Ok("/home/u/.config/christina/config.toml".to_string())
    );
    let e = config_path_output(None).unwrap_err();
    assert!(e.message.contains("Could not determine config directory"));
}

#[test]
fn config_commands_route_to_tasks() {
    assert_eq!(
        handle_config_command(&ConfigCommands::Get { key: "model".to_string() }),
        ConfigTask::Get
    );
    assert_eq!(
        handle_config_command(&ConfigCommands::SetValue {
            key: "model".to_string(),
            value: "x".to_string()
        }),
        ConfigTask::Store
    );
    assert_eq!(handle_config_command(&ConfigCommands::List), ConfigTask::List);
    assert_eq!(handle_config_command(&ConfigCommands::Path), ConfigTask::Path);
    assert_eq!(handle_config_command(&ConfigCommands::Tui), ConfigTask::Tui);
}

#[test]
fn config_tui_loop_steps() {
    assert_eq!(handle_tui(ConfigTuiResult::Quit), TuiStep::Exit);
    assert_eq!(handle_tui(ConfigTuiResult::OpenProfiles), TuiStep::ManageProfilesAndReload);
}

#[test]
fn secret_value_never_shapes_the_line() {
    let a = config_get_output("model_api_key", Some("sk-one".to_string()));
    let b = config_get_output("model_api_key", Some("a-much-longer-secret".to_string()));
    assert_eq!(a, b);
    assert_eq!(a, Ok("model_api_key: <hidden>".to_string()));
}
