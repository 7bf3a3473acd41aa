//! Drafts of providers and search engines.

use pi_whim::domain::{
    ProviderModel, ProviderProfile, ProviderProtocol, SearchEngineKind, SearchEngineProfile,
};
use pi_whim::settings::{
    move_search_engine, remove_search_engine, upsert_search_engine, Preset, ProviderDraft,
    SearchEngineDraft, Section,
};

fn profile(name: &str) -> ProviderProfile {
    ProviderProfile {
        id: name.bytes().fold(7, |id, byte| id * 257 + byte as u128),
        name: name.to_owned(),
        base_url: "https://example.com".into(),
        protocol: ProviderProtocol::OpenAiCompletions,
        models: vec![ProviderModel::new("m1")],
        updated_at_ms: 1,
        has_api_key: true,
    }
}

fn engine(name: &str, position: u32) -> SearchEngineProfile {
    SearchEngineProfile {
        id: name.bytes().fold(7, |id, byte| id * 257 + byte as u128),
        name: name.to_owned(),
        kind: SearchEngineKind::Searxng,
        base_url: format!("https://{name}.example"),
        enabled: true,
        position,
        has_api_key: false,
    }
}

/// A draft that would save.
fn saveable() -> ProviderDraft {
    ProviderDraft {
        models: vec![ProviderModel::new("m1")],
        ..Default::default()
    }
}

#[test]
fn a_preset_fills_in_the_two_fields_readers_get_wrong() {
    let mut draft = ProviderDraft::default();
    Preset::Anthropic.apply(&mut draft);

    assert_eq!(draft.name, "Anthropic");
    assert_eq!(draft.base_url, "https://api.anthropic.com");
    assert_eq!(draft.protocol, ProviderProtocol::AnthropicMessages);
}

#[test]
fn custom_leaves_what_was_typed_alone() {
    let mut draft = ProviderDraft {
        name: "My server".into(),
        base_url: "http://localhost:8080/v1".into(),
        ..Default::default()
    };
    let before = draft.clone();
    Preset::Custom.apply(&mut draft);

    assert_eq!(draft, before);
}

#[test]
fn every_preset_but_custom_names_a_connection() {
    for preset in Preset::ALL {
        assert_eq!(preset.connection().is_none(), preset == Preset::Custom);
    }
}

#[test]
fn a_stored_key_is_never_read_back_into_the_field() {
    let draft = ProviderDraft::from_profile(&profile("OpenAI"));

    assert!(draft.api_key.is_empty());
    assert!(draft.has_api_key);
}

#[test]
fn an_untouched_key_field_keeps_the_stored_key() {
    let draft = ProviderDraft::from_profile(&profile("OpenAI"));

    assert_eq!(draft.typed_api_key(), None);
    assert!(draft.to_profile(1).has_api_key);
}

#[test]
fn a_typed_key_is_trimmed() {
    let draft = ProviderDraft {
        api_key: "  sk-123\n".into(),
        ..Default::default()
    };

    assert_eq!(draft.typed_api_key().as_deref(), Some("sk-123"));
}

#[test]
fn saving_trims_the_name_and_drops_a_trailing_slash() {
    let draft = ProviderDraft {
        name: "  OpenAI  ".into(),
        base_url: "https://api.openai.com/v1/".into(),
        ..saveable()
    };
    let stored = draft.to_profile(7);

    assert_eq!(stored.name, "OpenAI");
    assert_eq!(stored.base_url, "https://api.openai.com/v1");
    assert_eq!(stored.updated_at_ms, 7);
}

#[test]
fn a_new_provider_gets_an_id_and_an_edited_one_keeps_its_own() {
    let existing = profile("OpenAI");
    let draft = ProviderDraft::from_profile(&existing);

    assert_eq!(draft.to_profile(1).id, existing.id);
    assert_ne!(ProviderDraft::default().to_profile(1).id, existing.id);
}

#[test]
fn a_name_another_provider_already_uses_collides() {
    let existing = vec![profile("OpenAI")];
    let draft = ProviderDraft {
        name: "OpenAI".into(),
        ..saveable()
    };

    assert!(draft.name_collides(&existing));
    assert!(!draft.can_save(&existing));
}

#[test]
fn a_provider_does_not_collide_with_itself() {
    let existing = vec![profile("OpenAI")];
    let draft = ProviderDraft::from_profile(&existing[0]);

    assert!(!draft.name_collides(&existing));
}

#[test]
fn collision_ignores_case_and_spacing() {
    let existing = vec![profile("OpenAI")];
    let draft = ProviderDraft {
        name: "  openai ".into(),
        ..saveable()
    };

    assert!(draft.name_collides(&existing));
}

#[test]
fn a_blank_name_is_not_a_collision_but_still_cannot_save() {
    let existing = vec![profile("OpenAI")];
    let draft = ProviderDraft {
        name: "   ".into(),
        ..saveable()
    };

    assert!(!draft.name_collides(&existing));
    assert!(!draft.can_save(&existing));
}

#[test]
fn a_provider_with_no_models_cannot_save() {
    let draft = ProviderDraft::default();

    assert!(draft.models.is_empty());
    assert!(!draft.can_save(&Vec::new()));
}

#[test]
fn a_provider_with_no_url_cannot_save_or_be_discovered() {
    let draft = ProviderDraft {
        base_url: "   ".into(),
        ..saveable()
    };

    assert!(!draft.can_save(&Vec::new()));
    assert!(!draft.can_discover());
}

#[test]
fn a_complete_draft_saves() {
    assert!(saveable().can_save(&Vec::new()));
}

#[test]
fn a_model_added_by_hand_clears_the_field() {
    let mut draft = ProviderDraft {
        manual_model_id: "  gpt-5 ".into(),
        ..Default::default()
    };

    assert!(draft.add_manual_model());
    assert_eq!(draft.models.len(), 1);
    assert_eq!(draft.models[0].id, "gpt-5");
    assert!(draft.manual_model_id.is_empty());
}

#[test]
fn the_same_model_twice_is_added_once() {
    let mut draft = ProviderDraft {
        manual_model_id: "gpt-5".into(),
        ..Default::default()
    };
    draft.add_manual_model();
    draft.manual_model_id = "gpt-5".into();

    assert!(!draft.add_manual_model());
    assert_eq!(draft.models.len(), 1);
}

#[test]
fn an_empty_model_field_adds_nothing() {
    let mut draft = ProviderDraft {
        manual_model_id: "   ".into(),
        ..Default::default()
    };

    assert!(!draft.add_manual_model());
    assert!(draft.models.is_empty());
}

#[test]
fn changing_protocol_moves_a_default_url_with_it() {
    let mut draft = ProviderDraft::default();
    draft.set_protocol(ProviderProtocol::AnthropicMessages);

    assert_eq!(
        draft.base_url,
        ProviderProtocol::AnthropicMessages.default_base_url()
    );
}

#[test]
fn changing_protocol_leaves_a_typed_url_alone() {
    let mut draft = ProviderDraft {
        base_url: "http://localhost:8080/v1".into(),
        ..Default::default()
    };
    draft.set_protocol(ProviderProtocol::AnthropicMessages);

    assert_eq!(draft.base_url, "http://localhost:8080/v1");
    assert_eq!(draft.protocol, ProviderProtocol::AnthropicMessages);
}

#[test]
fn a_search_engine_needs_a_name_and_a_url() {
    assert!(!SearchEngineDraft::default().can_save());
    assert!(
        SearchEngineDraft {
            base_url: "https://search.example".into(),
            ..Default::default()
        }
        .can_save()
    );
}

#[test]
fn doubao_defaults_to_the_global_endpoint_and_requires_a_key() {
    let mut draft = SearchEngineDraft::default();
    draft.set_kind(SearchEngineKind::DoubaoGlobal);

    assert_eq!(draft.name, SearchEngineKind::DoubaoGlobal.default_name());
    assert_eq!(
        draft.base_url,
        "https://open.feedcoopapi.com/search_api/global_search"
    );
    assert!(!draft.can_save());

    draft.api_key = "  secret  ".into();
    assert_eq!(draft.typed_api_key().as_deref(), Some("secret"));
    assert!(draft.can_save());
    assert!(draft.to_profile(0).has_api_key);
}

#[test]
fn changing_back_to_searxng_drops_draft_key_metadata() {
    let mut draft = SearchEngineDraft::default();
    draft.set_kind(SearchEngineKind::DoubaoGlobal);
    draft.api_key = "secret".into();
    draft.has_api_key = true;

    draft.set_kind(SearchEngineKind::Searxng);

    assert_eq!(draft.name, "SearXNG");
    assert!(draft.base_url.is_empty());
    assert!(draft.api_key.is_empty());
    assert!(!draft.has_api_key);
}

#[test]
fn saving_a_new_engine_appends_it() {
    let existing = vec![engine("a", 0)];
    let draft = SearchEngineDraft {
        base_url: "https://b.example".into(),
        ..Default::default()
    };

    let saved = upsert_search_engine(&existing, &draft);

    assert_eq!(saved.len(), 2);
    assert_eq!(saved[1].base_url, "https://b.example");
    assert_eq!(saved[1].position, 1);
}

#[test]
fn saving_an_edited_engine_replaces_it_in_place() {
    let existing = vec![engine("a", 0), engine("b", 1)];
    let mut draft = SearchEngineDraft::from_profile(&existing[0]);
    draft.base_url = "https://moved.example".into();

    let saved = upsert_search_engine(&existing, &draft);

    assert_eq!(saved.len(), 2);
    assert_eq!(saved[0].base_url, "https://moved.example");
    assert_eq!(saved[0].id, existing[0].id);
}

#[test]
fn removing_an_engine_renumbers_the_rest() {
    let existing = vec![engine("a", 0), engine("b", 1), engine("c", 2)];

    let saved = remove_search_engine(&existing, 0);

    assert_eq!(saved.len(), 2);
    assert_eq!(saved[0].name, "b");
    assert_eq!(saved[0].position, 0);
    assert_eq!(saved[1].position, 1);
}

#[test]
fn removing_past_the_end_changes_nothing() {
    let existing = vec![engine("a", 0)];

    assert_eq!(remove_search_engine(&existing, 5).len(), 1);
}

#[test]
fn moving_an_engine_swaps_it_with_its_neighbour() {
    let existing = vec![engine("a", 0), engine("b", 1)];

    let saved = move_search_engine(&existing, 0, 1);

    assert_eq!(saved[0].name, "b");
    assert_eq!(saved[1].name, "a");
    assert_eq!(saved[0].position, 0);
    assert_eq!(saved[1].position, 1);
}

#[test]
fn moving_past_either_end_does_nothing() {
    let existing = vec![engine("a", 0), engine("b", 1)];

    assert_eq!(move_search_engine(&existing, 0, -1)[0].name, "a");
    assert_eq!(move_search_engine(&existing, 1, 1)[1].name, "b");
}

#[test]
fn the_sections_are_listed_in_a_deliberate_order() {
    assert_eq!(
        Section::ALL,
        [
            Section::General,
            Section::Execution,
            Section::Providers,
            Section::WebSearch
        ]
    );
}

#[test]
fn moving_an_engine_back_restores_the_order() {
    let existing = vec![engine("a", 0), engine("b", 1), engine("c", 2)];
    let moved = move_search_engine(&existing, 0, 2);
    assert_eq!(moved[2].name, "a");
    assert_eq!(move_search_engine(&moved, 2, -2), existing);
    assert_eq!(move_search_engine(&existing, 9, isize::MAX), existing);
}

#[test]
fn a_stored_provider_survives_being_opened_and_saved() {
    let stored = profile("OpenAI");
    let saved = ProviderDraft::from_profile(&stored).to_profile(1);
    assert_eq!(saved, stored);
}

#[test]
fn new_profiles_get_different_ids() {
    let first = ProviderDraft::default().to_profile(1);
    let second = ProviderDraft::default().to_profile(1);
    assert_ne!(first.id, second.id);
    assert_ne!(SearchEngineDraft::default().to_profile(0).id, SearchEngineDraft::default().to_profile(0).id);
}

#[test]
fn labels_and_keys_are_fixed() {
    assert_eq!(Preset::Google.label(), "Google / Gemini");
    assert_eq!(Section::WebSearch.key(), "web-search");
}
