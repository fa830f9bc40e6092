use crablet::capability::CapabilityDescriptor;
use crablet::provider::{configured_model_chain, select_configured_model, Config, ProviderConfig};

fn provider(models: &[&str], fallback_order: &[&str]) -> ProviderConfig {
    ProviderConfig {
        api_key_env: None,
        base_url: None,
        models: models.iter().map(|m| m.to_string()).collect(),
        capabilities: Vec::new(),
        fallback_order: fallback_order.iter().map(|m| m.to_string()).collect(),
    }
}

#[test]
fn configured_provider_route_prefers_requested_model_then_fallback_order() {
    let mut config = Config::default();
    config.model_name = "missing-model".to_string();
    config.providers = vec![
        (
            "zhipu".to_string(),
            ProviderConfig {
                api_key_env: None,
                base_url: None,
                models: vec!["glm-4".to_string(), "glm-4-air".to_string()],
                capabilities: Vec::new(),
                fallback_order: vec!["glm-4-air".to_string(), "glm-4".to_string()],
            },
        ),
        (
            "openai".to_string(),
            ProviderConfig {
                api_key_env: None,
                base_url: None,
                models: vec!["gpt-4o-mini".to_string()],
                capabilities: Vec::new(),
                fallback_order: Vec::new(),
            },
        ),
    ];

    assert_eq!(select_configured_model(&config), Some(("zhipu".to_string(), "glm-4-air".to_string())));
}

#[test]
fn configured_vendor_limits_route_candidates() {
    let mut config = Config::default();
    config.llm_vendor = Some("openai".to_string());
    config.providers = vec![
        (
            "kimi".to_string(),
            ProviderConfig {
                api_key_env: None,
                base_url: None,
                models: vec!["moonshot-v1".to_string()],
                capabilities: Vec::new(),
                fallback_order: Vec::new(),
            },
        ),
        (
            "openai".to_string(),
            ProviderConfig {
                api_key_env: None,
                base_url: None,
                models: vec!["gpt-4o-mini".to_string()],
                capabilities: Vec::new(),
                fallback_order: Vec::new(),
            },
        ),
    ];

    assert_eq!(select_configured_model(&config), Some(("openai".to_string(), "gpt-4o-mini".to_string())));
}

#[test]
fn empty_registry_gives_empty_chain() {
    let config = Config::default();
    assert!(configured_model_chain(&config).is_empty());
    assert_eq!(select_configured_model(&config), None);
}

#[test]
fn chain_orders_providers_by_name_and_prefers_model_by_its_part() {
    let mut config = Config::default();
    config.model_name = "small".to_string();
    config.providers = vec![
        ("b".to_string(), provider(&["large", "small"], &[])),
        ("a".to_string(), provider(&["one"], &[])),
    ];
    let chain = configured_model_chain(&config);
    assert_eq!(
        chain,
        vec![
            ("b".to_string(), "small".to_string()),
            ("a".to_string(), "one".to_string()),
            ("b".to_string(), "large".to_string()),
        ]
    );
}

#[test]
fn exact_identifier_is_preferred() {
    let mut config = Config::default();
    config.model_name = "a/two".to_string();
    config.providers = vec![("a".to_string(), provider(&["one", "two"], &[]))];
    assert_eq!(select_configured_model(&config), Some(("a".to_string(), "two".to_string())));
}

#[test]
fn vendor_filter_ignores_case_and_excludes_all_when_unknown() {
    let mut config = Config::default();
    config.llm_vendor = Some("OpenAI".to_string());
    config.providers = vec![("openai".to_string(), provider(&["gpt"], &[])), ("kimi".to_string(), provider(&["k"], &[]))];
    assert_eq!(configured_model_chain(&config), vec![("openai".to_string(), "gpt".to_string())]);
    config.llm_vendor = Some("nobody".to_string());
    assert!(configured_model_chain(&config).is_empty());
}

#[test]
fn model_names_with_slash_split_at_the_last_slash() {
    let mut config = Config::default();
    config.providers = vec![("hub".to_string(), provider(&["org/model"], &[]))];
    assert_eq!(configured_model_chain(&config), vec![("hub/org".to_string(), "model".to_string())]);
}

#[test]
fn declared_capabilities_do_not_change_default_routing() {
    let mut config = Config::default();
    let mut p = provider(&["m1", "m2"], &["m2"]);
    p.capabilities = vec![("m1".to_string(), CapabilityDescriptor { tool_calling: true, ..Default::default() })];
    config.providers = vec![("p".to_string(), p)];
    assert_eq!(
        configured_model_chain(&config),
        vec![("p".to_string(), "m2".to_string()), ("p".to_string(), "m1".to_string())]
    );
}
