use http_client::env::{Environment, EnvironmentManager, VarValue};
use http_client::{CertificateConfig, SslConfiguration};

fn manager_with(vars: Vec<(&str, VarValue)>, ssl_config: Option<SslConfiguration>) -> EnvironmentManager {
    let mut manager = EnvironmentManager::new(".".to_string());
    let env = Environment {
        variables: vars.into_iter().map(|(k, v)| (k.to_string(), v)).collect(),
        ssl_config,
    };
    manager.merge_env_file(vec![("dev".to_string(), env)]);
    manager
}

#[test]
fn test_variable_resolution() {
    let manager = manager_with(
        vec![
            ("API_URL", VarValue::Text("https://api.example.com".to_string())),
            ("PORT", VarValue::Number("8080".to_string())),
        ],
        None,
    );
    assert_eq!(manager.resolve_variable("dev", "API_URL"), Some("https://api.example.com".to_string()));
    assert_eq!(manager.resolve_string("dev", "{{API_URL}}/users"), "https://api.example.com/users");
}

#[test]
fn test_resolve_string_with_multiple_variables() {
    let manager = manager_with(
        vec![
            ("BASE_URL", VarValue::Text("https://api.example.com".to_string())),
            ("VERSION", VarValue::Text("v1".to_string())),
        ],
        None,
    );
    let result = manager.resolve_string("dev", "{{BASE_URL}}/{{VERSION}}/users");
    assert_eq!(result, "https://api.example.com/v1/users");
}

#[test]
fn test_resolve_string_with_unknown_variable() {
    let manager = manager_with(vec![], None);
    let result = manager.resolve_string("dev", "{{UNKNOWN_VAR}}/users");
    assert_eq!(result, "{{UNKNOWN_VAR}}/users");
}

#[test]
fn test_resolve_variable_number() {
    let manager = manager_with(vec![("PORT", VarValue::Number("8080".to_string()))], None);
    assert_eq!(manager.resolve_variable("dev", "PORT"), Some("8080".to_string()));
}

#[test]
fn test_resolve_variable_bool() {
    let manager = manager_with(vec![("DEBUG", VarValue::Bool(true))], None);
    assert_eq!(manager.resolve_variable("dev", "DEBUG"), Some("true".to_string()));
}

#[test]
fn test_resolve_variable_nonexistent_env() {
    let manager = EnvironmentManager::new(".".to_string());
    assert_eq!(manager.resolve_variable("nonexistent", "VAR"), None);
}

#[test]
fn test_resolve_string_no_variables() {
    let manager = EnvironmentManager::new(".".to_string());
    let result = manager.resolve_string("dev", "https://api.example.com/users");
    assert_eq!(result, "https://api.example.com/users");
}

#[test]
fn test_get_ssl_config() {
    let ssl_config = SslConfiguration {
        client_certificate: Some(CertificateConfig::Path("cert.pem".to_string())),
        client_certificate_key: None,
        has_certificate_passphrase: Some(true),
        verify_host_certificate: Some(false),
    };
    let manager = manager_with(vec![], Some(ssl_config.clone()));
    let config = manager.get_ssl_config("dev");
    assert!(config.is_some());
    assert_eq!(config.unwrap().verify_host_certificate, Some(false));
}

#[test]
fn placeholder_names_are_trimmed_and_odd_braces_kept() {
    let manager = manager_with(vec![("A", VarValue::Text("x".to_string())), ("N", VarValue::Other)], None);
    assert_eq!(manager.resolve_string("dev", "{{ A }}-{{}}-{{N}}-{A}-{{{A}}"), "x-{{}}-{{N}}-{A}-{{{A}}");
}

#[test]
fn public_file_extends_variables_and_keeps_ssl() {
    let ssl_config = SslConfiguration {
        client_certificate: None,
        client_certificate_key: None,
        has_certificate_passphrase: None,
        verify_host_certificate: Some(true),
    };
    let mut manager = EnvironmentManager::new("/base".to_string());
    let private = Environment {
        variables: vec![("A".to_string(), VarValue::Text("1".to_string())), ("B".to_string(), VarValue::Text("2".to_string()))],
        ssl_config: Some(ssl_config),
    };
    manager.load_private_envs("p.json".to_string(), vec![("dev".to_string(), private)]);
    let public = Environment {
        variables: vec![("B".to_string(), VarValue::Text("3".to_string())), ("C".to_string(), VarValue::Bool(false))],
        ssl_config: None,
    };
    manager.merge_env_file(vec![("dev".to_string(), public)]);
    assert_eq!(manager.resolve_string("dev", "{{A}}{{B}}{{C}}"), "13false");
    assert_eq!(manager.get_ssl_config("dev").unwrap().verify_host_certificate, Some(true));
    assert_eq!(manager.private_env_path(), &Some("p.json".to_string()));
    assert_eq!(manager.get_base_path(), "/base");
}

#[test]
fn private_file_replaces_whole_environment() {
    let mut manager = EnvironmentManager::new(".".to_string());
    let first = Environment { variables: vec![("A".to_string(), VarValue::Text("1".to_string()))], ssl_config: None };
    manager.merge_env_file(vec![("dev".to_string(), first)]);
    let second = Environment { variables: vec![("B".to_string(), VarValue::Text("2".to_string()))], ssl_config: None };
    manager.load_private_envs("p.json".to_string(), vec![("dev".to_string(), second)]);
    assert_eq!(manager.resolve_variable("dev", "A"), None);
    assert_eq!(manager.resolve_variable("dev", "B"), Some("2".to_string()));
    assert!(manager.get_environment("dev").is_some());
    assert!(manager.get_environment("prod").is_none());
}

#[test]
fn substitute_matches_replaces_given_spans() {
    let manager = manager_with(vec![("A", VarValue::Text("x".to_string()))], None);
    let text = "é{{A}}-{{B}}.";
    let ms = vec![
        (1, 6, vec![Some("{{A}}".to_string()), Some("A".to_string())]),
        (7, 12, vec![Some("{{B}}".to_string()), Some("B".to_string())]),
    ];
    assert_eq!(manager.substitute_matches("dev", text, &ms), "éx-{{B}}.");
    assert_eq!(manager.resolve_string("dev", text), "éx-{{B}}.");
}
