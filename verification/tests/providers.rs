//! Provider configuration and model discovery.

use pi_whim::domain::{
    LevelName, ProviderModel, ProviderProfile, ProviderProtocol, SearchEngineKind,
    SearchEngineProfile, ThinkingLevel,
};
use pi_whim::json::Json;
use pi_whim::launch::{prepare_pi_configuration, settings_text, AGENT_DIRECTORY_VARIABLE};
use pi_whim::providers::{
    configured_provider_environment, configured_search_engine_api_keys, discovered_models,
    discovery_failure, discovery_garbled, discovery_request, join_api_path, normalize_base_url,
    pi_models_json, provider_config_key, provider_environment_name, provider_keychain_account,
    search_engine_keychain_account, valid_search_engine_url, NO_BASE_URL, NO_PROVIDER_KEY,
};

fn json(text: &str) -> Json {
    Json::parse(text).expect("a document")
}

fn profile(id: u128) -> ProviderProfile {
    ProviderProfile {
        id,
        name: "Private gateway".into(),
        base_url: "https://gateway.example/v1/".into(),
        protocol: ProviderProtocol::OpenAiCompletions,
        models: vec![ProviderModel::new("gpt-example")],
        updated_at_ms: 1,
        has_api_key: true,
    }
}

#[test]
fn generated_pi_models_config_only_references_a_key_environment_variable() {
    let mut model = ProviderModel::new("gpt-example");
    model.reasoning = true;
    model.thinking_level_map = vec![
        LevelName { level: ThinkingLevel::Minimal, name: None },
        LevelName { level: ThinkingLevel::Xhigh, name: Some("xhigh".into()) },
    ];
    let profile = ProviderProfile { models: vec![model], ..profile(0xabc) };
    let id = profile.id;
    let config = pi_models_json(&vec![profile]);
    let provider = config
        .get("providers")
        .and_then(|providers| providers.get(&provider_config_key(id)))
        .unwrap();
    assert_eq!(provider.str_at("baseUrl"), Some("https://gateway.example/v1"));
    assert_eq!(
        provider.str_at("apiKey").map(str::to_owned),
        Some(format!("${}", provider_environment_name(id)))
    );
    assert!(!config.to_compact().contains("sk-"));
    let model = &provider.array_at("models").unwrap()[0];
    assert_eq!(model.bool_at("reasoning"), Some(true));
    let levels = model.get("thinkingLevelMap").unwrap();
    assert_eq!(levels.get("minimal"), Some(&Json::Null));
    assert_eq!(levels.str_at("xhigh"), Some("xhigh"));
}

#[test]
fn provider_without_a_key_does_not_block_a_configured_provider() {
    let missing_id: u128 = 1;
    let configured_id: u128 = 2;

    let (profiles, environment) = configured_provider_environment(
        vec![profile(missing_id), profile(configured_id)],
        |id| Ok((id == configured_id).then(|| "secret-key".to_owned())),
    )
    .unwrap();

    assert_eq!(profiles.len(), 1);
    assert_eq!(profiles[0].id, configured_id);
    assert_eq!(
        environment.get(&provider_environment_name(configured_id)),
        Some("secret-key")
    );
    assert!(environment.get(&provider_environment_name(missing_id)).is_none());
}

#[test]
fn search_engine_urls_accept_local_http_and_secure_https_only() {
    assert!(valid_search_engine_url("http://localhost:8080"));
    assert!(valid_search_engine_url("https://search.example/"));
    assert!(!valid_search_engine_url("search.example"));
    assert!(!valid_search_engine_url("ftp://search.example"));
    assert!(!valid_search_engine_url("https:///search.example"));
}

#[test]
fn search_engine_keys_use_a_separate_redacted_runtime_map() {
    let engine = SearchEngineProfile {
        id: 0x0123_4567_89ab_cdef_0123_4567_89ab_cdef,
        name: "Doubao Global".into(),
        kind: SearchEngineKind::DoubaoGlobal,
        base_url: "https://open.feedcoopapi.com/search_api/global_search".into(),
        enabled: true,
        position: 0,
        has_api_key: true,
    };
    let id = engine.id;
    let api_keys = configured_search_engine_api_keys(&vec![engine], |asked| {
        Ok((asked == id).then(|| "  secret-key  ".to_owned()))
    })
    .unwrap();

    assert_eq!(
        search_engine_keychain_account(id),
        "search-engine-api-key-01234567-89ab-cdef-0123-456789abcdef"
    );
    assert_eq!(api_keys.len(), 1);
    assert_eq!(api_keys.get(id), Some("secret-key"));
    assert!(!api_keys.redacted().contains("secret-key"));
    assert_eq!(api_keys.redacted(), "SearchEngineApiKeys { len: 1 }");
}

#[test]
fn engines_without_keys_are_not_asked_for_one() {
    let engine = SearchEngineProfile {
        id: 5,
        name: "SearXNG".into(),
        kind: SearchEngineKind::Searxng,
        base_url: "http://localhost:8080".into(),
        enabled: true,
        position: 0,
        has_api_key: false,
    };
    let keys = configured_search_engine_api_keys(&vec![engine], |_| Err("asked".to_owned()));
    assert_eq!(keys.unwrap().len(), 0);
}

#[test]
fn a_key_that_cannot_be_read_ends_the_search() {
    let result = configured_provider_environment(vec![profile(1), profile(2)], |id| {
        if id == 1 {
            Ok(Some("key".to_owned()))
        } else {
            Err("keychain is locked".to_owned())
        }
    });
    assert_eq!(result.unwrap_err(), "keychain is locked");
}

#[test]
fn no_key_at_all_is_an_error_only_where_there_are_providers() {
    let none = configured_provider_environment(vec![profile(1)], |_| Ok(None));
    assert_eq!(none.unwrap_err(), NO_PROVIDER_KEY);
    let (profiles, environment) =
        configured_provider_environment(Vec::new(), |_| Ok(None)).unwrap();
    assert!(profiles.is_empty());
    assert!(environment.entries.is_empty());
}

#[test]
fn names_are_written_as_identifiers_are() {
    let id: u128 = 0x0123_4567_89ab_cdef_0123_4567_89ab_cdef;
    assert_eq!(
        provider_keychain_account(id),
        "provider-api-key-01234567-89ab-cdef-0123-456789abcdef"
    );
    assert_eq!(
        provider_environment_name(id),
        "PI_WHIM_PROVIDER_0123456789abcdef0123456789abcdef"
    );
    assert_eq!(provider_config_key(1), "pi-whim-00000000000000000000000000000001");
}

#[test]
fn paths_are_joined_with_one_slash_and_one_version() {
    assert_eq!(normalize_base_url("  https://x/v1// "), "https://x/v1");
    assert_eq!(join_api_path("https://x/v1/", "/models"), "https://x/v1/models");
    assert_eq!(join_api_path("https://x/v1", "v1/models"), "https://x/v1/models");
    assert_eq!(join_api_path("https://x/v1", "v1/v1/models"), "https://x/v1/models");
    assert_eq!(join_api_path("https://x", "v1/models"), "https://x/v1/models");
}

#[test]
fn a_question_carries_the_key_as_its_protocol_wants_it() {
    let request =
        discovery_request(" https://x/ ", ProviderProtocol::AnthropicMessages, Some("k")).unwrap();
    assert_eq!(request.url, "https://x/v1/models");
    assert_eq!(
        request.headers,
        vec![
            ("Accept".to_owned(), "application/json".to_owned()),
            ("x-api-key".to_owned(), "k".to_owned()),
            ("anthropic-version".to_owned(), "2023-06-01".to_owned()),
        ]
    );
    let openai =
        discovery_request("https://x/v1", ProviderProtocol::OpenAiResponses, Some("k")).unwrap();
    assert_eq!(openai.url, "https://x/v1/models");
    assert_eq!(openai.headers[1], ("Authorization".to_owned(), "Bearer k".to_owned()));
    let blank =
        discovery_request("https://x", ProviderProtocol::GoogleGenerativeAi, Some("  ")).unwrap();
    assert_eq!(blank.headers.len(), 1);
    let missing = discovery_request(" // ", ProviderProtocol::OpenAiCompletions, None);
    assert_eq!(missing.err().as_deref(), Some(NO_BASE_URL));
}

#[test]
fn discovered_models_are_sorted_and_not_repeated() {
    let body = json(
        r#"{"data": [
            {"id": "b", "display_name": "beta"},
            {"id": "a", "name": "Alpha"},
            {"id": "c", "display_name": 3, "name": "ignored"},
            {"id": "b", "display_name": "Beta"},
            {"noid": true}
        ]}"#,
    );
    let models = discovered_models(ProviderProtocol::OpenAiCompletions, &body);
    let names: Vec<_> = models.iter().map(|model| (model.id.as_str(), model.name.as_str())).collect();
    assert_eq!(names, vec![("a", "Alpha"), ("b", "beta"), ("c", "c")]);
    assert!(discovered_models(ProviderProtocol::AnthropicMessages, &json("{}")).is_empty());
}

#[test]
fn models_of_another_kind_of_list_are_found_too() {
    let body = json(
        r#"{"models": [
            {"name": "models/gemini", "displayName": "Gemini", "supportedGenerationMethods": ["countTokens", "generateContent"]},
            {"name": "embedding"}
        ]}"#,
    );
    let models = discovered_models(ProviderProtocol::GoogleGenerativeAi, &body);
    assert_eq!(models[0].id, "embedding");
    assert!(!models[0].supports_images);
    assert_eq!(models[1].id, "gemini");
    assert_eq!(models[1].name, "Gemini");
    assert!(models[1].supports_images);
}

#[test]
fn failures_of_discovery_say_what_failed() {
    assert_eq!(discovery_failure("timeout"), "Model discovery failed: timeout");
    assert_eq!(
        discovery_garbled("eof"),
        "Model discovery returned invalid JSON: eof"
    );
}

#[test]
fn settings_keep_everything_but_the_recent_tokens() {
    let text = settings_text(Some(r#"{"theme": "dark", "compaction": {"enabled": true, "keepRecentTokens": 20000}}"#));
    let settings = json(&text);
    assert_eq!(settings.str_at("theme"), Some("dark"));
    let compaction = settings.get("compaction").unwrap();
    assert_eq!(compaction.bool_at("enabled"), Some(true));
    assert_eq!(compaction.u64_at("keepRecentTokens"), Some(100));
    for stored in [None, Some("not a document")] {
        let fresh = json(&settings_text(stored));
        assert_eq!(fresh.get("compaction").unwrap().u64_at("keepRecentTokens"), Some(100));
    }
    assert_eq!(json(&settings_text(Some("[1]"))), json("[1]"));
    assert_eq!(
        json(&settings_text(Some(r#"{"compaction": false}"#))),
        json(r#"{"compaction": false}"#)
    );
}

#[test]
fn a_process_is_configured_without_its_keys_on_disk() {
    let configuration = prepare_pi_configuration(
        "/tmp/agent",
        vec![profile(1), profile(2)],
        |id| Ok((id == 2).then(|| "sk-secret".to_owned())),
        None,
    )
    .unwrap();
    assert!(!configuration.models_json.contains("sk-secret"));
    assert!(configuration.models_json.contains(&provider_config_key(2)));
    assert!(!configuration.models_json.contains(&provider_config_key(1)));
    assert_eq!(
        configuration.environment.get(&provider_environment_name(2)),
        Some("sk-secret")
    );
    assert_eq!(configuration.environment.get(AGENT_DIRECTORY_VARIABLE), Some("/tmp/agent"));
    assert!(prepare_pi_configuration("/tmp/agent", vec![profile(1)], |_| Ok(None), None).is_err());
}
