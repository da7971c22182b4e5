use christina::secrets::{resolve_secret, Secret, SecretResolveError};
use christina::shutdown::{on_shutdown_signal, ShutdownAction, ShutdownSignal};

#[test]
fn resolve_env_var_missing() {
    let secret = Secret::EnvVar("DEFINITELY_NOT_SET_VAR_12345".to_string());
    let result = resolve_secret(&secret, None);
    assert!(matches!(result, Err(SecretResolveError::EnvVarNotFound(_))));
}

#[test]
fn resolve_literal_secret() {
    let secret = Secret::Value("test_value".to_string());
    let resolved = resolve_secret(&secret, None).ok().unwrap();
    assert_eq!(resolved, "test_value");
}

#[test]
fn resolve_env_var_present() {
    let secret = Secret::EnvVar("CHRISTINA_TEST_SECRET_VAR_12345".to_string());
    let resolved = resolve_secret(&secret, Some("test_value".to_string())).ok().unwrap();
    assert_eq!(resolved, "test_value");
}

#[test]
fn missing_env_var_message() {
    let err = SecretResolveError::EnvVarNotFound("FOO".to_string());
    assert_eq!(err.message(), "Environment variable 'FOO' not found");
}

#[test]
fn shutdown_signal_names() {
    assert_eq!(ShutdownSignal::CtrlC.name(), "ctrl_c");
    assert_eq!(ShutdownSignal::Sigterm.name(), "sigterm");
}

#[test]
fn second_signal_exits() {
    assert!(matches!(on_shutdown_signal(0), ShutdownAction::Cancel));
    assert!(matches!(on_shutdown_signal(1), ShutdownAction::Exit(130)));
}
