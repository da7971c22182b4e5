use christina::azure_endpoint::{
    has_azure_deployment_path, normalize_azure_endpoint, parse_azure_endpoint,
    resolve_azure_settings, ProviderConfigError, UrlParts,
};

fn parts(text: &str) -> UrlParts {
    let url = url::Url::parse(text).expect("valid URL");
    let mut root = url.clone();
    root.set_path("");
    root.set_query(None);
    root.set_fragment(None);
    UrlParts {
        root: root.to_string(),
        query_pairs: url
            .query_pairs()
            .map(|(k, v)| (k.into_owned(), v.into_owned()))
            .collect(),
        path_segments: url
            .path_segments()
            .map(|s| s.map(|x| x.to_string()).collect()),
    }
}

#[test]
fn test_parse_azure_endpoint_full_url() {
    let url = parts(
        "https://my-resource.openai.azure.com/openai/deployments/gpt-4/chat/completions?api-version=2024-02-15",
    );

    let (api_version, deployment_id) = parse_azure_endpoint(&url);

    assert_eq!(api_version, Some("2024-02-15".to_string()));
    assert_eq!(deployment_id, Some("gpt-4".to_string()));
}

#[test]
fn test_parse_azure_endpoint_missing_version() {
    let url = parts("https://my-resource.openai.azure.com/openai/deployments/gpt-4/chat/completions");

    let (api_version, deployment_id) = parse_azure_endpoint(&url);

    assert_eq!(api_version, None);
    assert_eq!(deployment_id, Some("gpt-4".to_string()));
}

#[test]
fn test_parse_azure_endpoint_missing_deployment() {
    let url = parts("https://my-resource.openai.azure.com/?api-version=2024-02-15");

    let (api_version, deployment_id) = parse_azure_endpoint(&url);

    assert_eq!(api_version, Some("2024-02-15".to_string()));
    assert_eq!(deployment_id, None);
}

#[test]
fn test_parse_azure_endpoint_base_url_only() {
    let url = parts("https://my-resource.openai.azure.com");

    let (api_version, deployment_id) = parse_azure_endpoint(&url);

    assert_eq!(api_version, None);
    assert_eq!(deployment_id, None);
}

#[test]
fn test_parse_azure_endpoint_with_multiple_query_params() {
    let url = parts(
        "https://my-resource.openai.azure.com/openai/deployments/gpt-4/chat/completions?api-version=2024-02-15&param=value",
    );

    let (api_version, deployment_id) = parse_azure_endpoint(&url);

    assert_eq!(api_version, Some("2024-02-15".to_string()));
    assert_eq!(deployment_id, Some("gpt-4".to_string()));
}

#[test]
fn test_parse_azure_endpoint_empty_deployment_segment() {
    let url = parts("https://r.openai.azure.com/openai/deployments/?api-version=1");
    assert_eq!(parse_azure_endpoint(&url).1, None);
    assert!(has_azure_deployment_path(&url));
}

#[test]
fn test_normalize_azure_endpoint_drops_path_and_slash() {
    let url = parts("https://r.openai.azure.com/openai/deployments/x/chat?api-version=1#frag");
    assert_eq!(normalize_azure_endpoint(&url), "https://r.openai.azure.com");
    assert!(has_azure_deployment_path(&url));
    assert!(!has_azure_deployment_path(&parts("https://r.openai.azure.com/v1")));
}

#[test]
fn test_provider_from_profile_azure_missing_url() {
    let result = resolve_azure_settings(None, None, None);
    match result {
        Err(ProviderConfigError::MissingConfig(m)) => assert!(m.contains("Azure endpoint required")),
        other => panic!("unexpected {:?}", other),
    }
}

#[test]
fn test_provider_from_profile_azure_extracts_from_url() {
    let url = parts(
        "https://test.openai.azure.com/openai/deployments/my-deployment/chat/completions?api-version=2023-12-01",
    );
    let settings = resolve_azure_settings(Some(url), None, None).unwrap();
    assert_eq!(settings.api_version, "2023-12-01");
    assert_eq!(settings.deployment_id, "my-deployment");
    assert_eq!(settings.endpoint, "https://test.openai.azure.com");
}

#[test]
fn test_provider_from_profile_azure_rejects_conflicting_deployment() {
    let url = parts(
        "https://test.openai.azure.com/openai/deployments/my-deployment/chat/completions?api-version=2024-02-15",
    );
    let result = resolve_azure_settings(
        Some(url),
        Some("2024-02-15".to_string()),
        Some("explicit".to_string()),
    );
    match result {
        Err(ProviderConfigError::InvalidConfig(m)) => assert!(m.contains("azure_deployment_id")),
        other => panic!("unexpected {:?}", other),
    }
}

#[test]
fn test_provider_azure_rejects_deployment_path_with_configured_deployment() {
    let url = parts("https://test.openai.azure.com/openai/deployments/?api-version=1");
    let result = resolve_azure_settings(Some(url), None, Some("explicit".to_string()));
    match result {
        Err(ProviderConfigError::InvalidConfig(m)) => {
            assert!(m.starts_with("model_api_url contains /openai/deployments"))
        }
        other => panic!("unexpected {:?}", other),
    }
}

#[test]
fn test_provider_azure_config_values_win() {
    let url = parts("https://test.openai.azure.com/?api-version=2023-01-01");
    let settings = resolve_azure_settings(
        Some(url),
        Some("2024-06-01".to_string()),
        Some("dep".to_string()),
    )
    .unwrap();
    assert_eq!(settings.api_version, "2024-06-01");
    assert_eq!(settings.deployment_id, "dep");
}

#[test]
fn test_provider_azure_missing_version_and_deployment() {
    let result = resolve_azure_settings(Some(parts("https://t.openai.azure.com")), None, None);
    assert_eq!(
        result,
        Err(ProviderConfigError::MissingConfig(
            "azure_api_version (not found in config or URL)".to_string()
        ))
    );
    let result = resolve_azure_settings(
        Some(parts("https://t.openai.azure.com")),
        Some("v".to_string()),
        None,
    );
    assert_eq!(
        result,
        Err(ProviderConfigError::MissingConfig(
            "azure_deployment_id (not found in config or URL)".to_string()
        ))
    );
}
