//! What holds of the settings that are edited.

use vstd::prelude::*;

use crate::domain::{ProviderProtocol, ProviderView, SearchEngineKind, SearchEngineView};
use crate::providers::base_url_of;
use crate::settings::{
    adds_model, collides, draft_of, drafted, drafted_engine, engine_draft_of, is_place_of, place_of,
    saveable, saveable_engine, typed_key, with_engine, with_engine_moved, with_kind, with_protocol,
    without_engine, EngineDraftView, Preset, ProviderDraftView, Section,
};
use crate::text::{is_blank, trim};

verus! {

/// A preset fills in where a provider is reached and how it is spoken to; the custom
/// one fills in nothing.
pub proof fn lemma_presets_fill_in(preset: Preset)
    ensures
        preset == Preset::Custom <==> preset.fills_in() is None,
        preset == Preset::OpenAi ==> (preset.fills_in() matches Some(c) && c.name == "OpenAI"@
            && c.base_url == "https://api.openai.com/v1"@ && c.protocol
            == ProviderProtocol::OpenAiResponses),
        preset == Preset::Anthropic ==> (preset.fills_in() matches Some(c) && c.name
            == "Anthropic"@ && c.base_url == "https://api.anthropic.com"@ && c.protocol
            == ProviderProtocol::AnthropicMessages),
        preset == Preset::Google ==> (preset.fills_in() matches Some(c) && c.name
            == "Google / Gemini"@ && c.base_url
            == "https://generativelanguage.googleapis.com/v1beta"@ && c.protocol
            == ProviderProtocol::GoogleGenerativeAi),
        preset == Preset::OpenRouter ==> (preset.fills_in() matches Some(c) && c.name
            == "OpenRouter"@ && c.base_url == "https://openrouter.ai/api/v1"@ && c.protocol
            == ProviderProtocol::OpenAiCompletions),
        preset.fills_in() matches Some(c) ==> preset.spec_label() == c.name,
        preset == Preset::Custom ==> preset.spec_label() == "Custom"@,
{
}

/// The sections of the settings go by the keys of their names.
pub proof fn lemma_sections_are_named(section: Section)
    ensures
        section == Section::General ==> section.spec_key() == "general"@,
        section == Section::Execution ==> section.spec_key() == "execution"@,
        section == Section::Providers ==> section.spec_key() == "providers"@,
        section == Section::WebSearch ==> section.spec_key() == "web-search"@,
{
}

/// A provider is edited as it is, but for its key, which is never shown.
pub proof fn lemma_providers_are_edited(profile: ProviderView)
    ensures
        ({
            let draft = draft_of(profile);
            &&& draft.id == Some(profile.id)
            &&& draft.name == profile.name
            &&& draft.base_url == profile.base_url
            &&& draft.protocol == profile.protocol
            &&& draft.models == profile.models
            &&& draft.has_api_key == profile.has_api_key
            &&& draft.api_key.len() == 0
            &&& draft.manual_model_id.len() == 0
            &&& draft.preset == Preset::Custom
        }),
{
}

/// What is saved of a draft is what was entered, without white space around the name
/// and without anything to trim at the address. There is a key where there was one or
/// where one was typed.
pub proof fn lemma_drafts_are_saved(draft: ProviderDraftView, id: u128, now_ms: i64)
    ensures
        ({
            let saved = drafted(draft, id, now_ms);
            &&& saved.id == id
            &&& saved.name == trim(draft.name)
            &&& saved.base_url == base_url_of(draft.base_url)
            &&& saved.protocol == draft.protocol
            &&& saved.models == draft.models
            &&& saved.updated_at_ms == now_ms
            &&& saved.has_api_key <==> draft.has_api_key || !is_blank(draft.api_key)
        }),
        typed_key(draft.api_key) is Some <==> !is_blank(draft.api_key),
        typed_key(draft.api_key) matches Some(key) ==> key == trim(draft.api_key),
{
}

/// A provider can be saved exactly where it has a name that no other provider has, an
/// address, and a model.
pub proof fn lemma_what_can_be_saved(draft: ProviderDraftView, existing: Seq<ProviderView>)
    ensures
        saveable(draft, existing) ==> !is_blank(draft.name) && !is_blank(draft.base_url)
            && draft.models.len() > 0,
        !is_blank(draft.name) && !is_blank(draft.base_url) && draft.models.len() > 0 && !collides(
            draft,
            existing,
        ) ==> saveable(draft, existing),
        collides(draft, existing) ==> !saveable(draft, existing),
{
}

/// Names of providers collide where they are written alike, white space around them and
/// case aside, and belong to different providers.
pub proof fn lemma_names_collide(draft: ProviderDraftView, existing: Seq<ProviderView>, i: int)
    requires
        0 <= i < existing.len(),
    ensures
        ({
            let key = crate::text::lowercase(trim(draft.name));
            let other = crate::text::lowercase(trim(existing[i].name));
            key.len() > 0 && key == other && draft.id != Some(existing[i].id) ==> collides(
                draft,
                existing,
            )
        }),
        crate::text::lowercase(trim(draft.name)).len() == 0 ==> !collides(draft, existing),
        (forall|k: int|
            0 <= k < existing.len() ==> draft.id == Some((#[trigger] existing[k]).id)
                || crate::text::lowercase(trim(existing[k].name)) != crate::text::lowercase(
                trim(draft.name),
            )) ==> !collides(draft, existing),
{
}

/// A model is added by an id that is not blank and that no model of the draft has yet.
pub proof fn lemma_when_models_are_added(draft: ProviderDraftView, i: int)
    ensures
        is_blank(draft.manual_model_id) ==> !adds_model(draft),
        0 <= i < draft.models.len() && draft.models[i].id == trim(draft.manual_model_id)
            ==> !adds_model(draft),
        !is_blank(draft.manual_model_id) && (forall|k: int|
            0 <= k < draft.models.len() ==> (#[trigger] draft.models[k]).id != trim(
                draft.manual_model_id,
            )) ==> adds_model(draft),
{
}

/// Picking another protocol moves the address along where it was that of the old
/// protocol, and leaves alone one that was entered. Nothing else changes.
pub proof fn lemma_protocols_are_picked(draft: ProviderDraftView, protocol: ProviderProtocol)
    ensures
        ({
            let after = with_protocol(draft, protocol);
            &&& after.protocol == protocol
            &&& trim(draft.base_url) == draft.protocol.default_url() ==> after.base_url
                == protocol.default_url()
            &&& trim(draft.base_url) != draft.protocol.default_url() ==> after.base_url
                == draft.base_url
            &&& after.id == draft.id && after.name == draft.name && after.preset == draft.preset
            &&& after.api_key == draft.api_key && after.has_api_key == draft.has_api_key
            &&& after.models == draft.models && after.manual_model_id == draft.manual_model_id
        }),
{
}

/// A search engine is edited as it is, but for its key, and saved as it was entered.
pub proof fn lemma_engines_are_edited_and_saved(
    profile: SearchEngineView,
    draft: EngineDraftView,
    id: u128,
    position: u32,
)
    ensures
        ({
            let shown = engine_draft_of(profile);
            let saved = drafted_engine(draft, id, position);
            &&& shown.id == Some(profile.id) && shown.name == profile.name && shown.kind
                == profile.kind
            &&& shown.base_url == profile.base_url && shown.enabled == profile.enabled
            &&& shown.has_api_key == profile.has_api_key && shown.api_key.len() == 0
            &&& saved.id == id && saved.position == position
            &&& saved.name == trim(draft.name)
            &&& saved.kind == draft.kind
            &&& saved.base_url == base_url_of(draft.base_url)
            &&& saved.enabled == draft.enabled
            &&& saved.has_api_key <==> draft.has_api_key || !is_blank(draft.api_key)
        }),
{
}

/// Picking another kind of engine moves the name and the address along where they were
/// those of the old kind, and forgets the key where the new kind takes none.
pub proof fn lemma_kinds_are_picked(draft: EngineDraftView, kind: SearchEngineKind)
    ensures
        ({
            let after = with_kind(draft, kind);
            &&& after.kind == kind
            &&& trim(draft.name) == draft.kind.spec_name() ==> after.name == kind.spec_name()
            &&& trim(draft.name) != draft.kind.spec_name() ==> after.name == draft.name
            &&& base_url_of(draft.base_url) == draft.kind.default_url() ==> after.base_url
                == kind.default_url()
            &&& base_url_of(draft.base_url) != draft.kind.default_url() ==> after.base_url
                == draft.base_url
            &&& kind == SearchEngineKind::Searxng ==> after.api_key.len() == 0
                && !after.has_api_key
            &&& kind == SearchEngineKind::DoubaoGlobal ==> after.api_key == draft.api_key
                && after.has_api_key == draft.has_api_key
            &&& after.id == draft.id && after.enabled == draft.enabled
        }),
{
}

/// A search engine can be saved exactly where it has a name and an address, and a key
/// where its kind answers only to one.
pub proof fn lemma_which_engines_can_be_saved(draft: EngineDraftView)
    ensures
        is_blank(draft.name) || is_blank(draft.base_url) ==> !saveable_engine(draft),
        !is_blank(draft.name) && !is_blank(draft.base_url) && draft.kind
            == SearchEngineKind::Searxng ==> saveable_engine(draft),
        !is_blank(draft.name) && !is_blank(draft.base_url) && draft.kind
            == SearchEngineKind::DoubaoGlobal ==> (saveable_engine(draft) <==> draft.has_api_key
            || !is_blank(draft.api_key)),
{
}

/// Whether two engines are the same but for their places.
pub open spec fn alike(a: SearchEngineView, b: SearchEngineView) -> bool {
    &&& a.id == b.id
    &&& a.name == b.name
    &&& a.kind == b.kind
    &&& a.base_url == b.base_url
    &&& a.enabled == b.enabled
    &&& a.has_api_key == b.has_api_key
}

/// An engine that is saved takes the place of the one with its identifier, or goes
/// behind the others. The others stay where they are.
pub proof fn lemma_saved_engines_take_their_place(
    profiles: Seq<SearchEngineView>,
    profile: SearchEngineView,
    at: int,
    k: int,
)
    ensures
        ({
            let after = with_engine(profiles, profile);
            &&& is_place_of(profiles, profile.id, at) ==> after.len() == profiles.len() && alike(
                after[at],
                profile,
            ) && (0 <= k < profiles.len() && k != at ==> alike(after[k], profiles[k]))
            &&& (forall|i: int| 0 <= i < profiles.len() ==> (#[trigger] profiles[i]).id != profile.id)
                ==> after.len() == profiles.len() + 1 && alike(
                after[profiles.len() as int],
                profile,
            ) && (0 <= k < profiles.len() ==> alike(after[k], profiles[k]))
            &&& 0 <= k < after.len() && k < 0x1_0000_0000 ==> after[k].position == k
        }),
{
    if is_place_of(profiles, profile.id, at) {
        let found = place_of(profiles, profile.id)->0;
        assert(is_place_of(profiles, profile.id, found));
        if found < at {
            assert(profiles[found].id != profile.id);
        }
        if at < found {
            assert(profiles[at].id != profile.id);
        }
    }
    if forall|i: int| 0 <= i < profiles.len() ==> (#[trigger] profiles[i]).id != profile.id {
        assert forall|i: int| !is_place_of(profiles, profile.id, i) by {
            if is_place_of(profiles, profile.id, i) {
                assert(profiles[i].id == profile.id);
            }
        }
    }
}

/// An engine that is removed is gone, and the others keep their order.
pub proof fn lemma_removed_engines_are_gone(profiles: Seq<SearchEngineView>, index: int, k: int)
    requires
        0 <= index < profiles.len(),
    ensures
        ({
            let after = without_engine(profiles, index);
            &&& after.len() == profiles.len() - 1
            &&& 0 <= k < index ==> alike(after[k], profiles[k])
            &&& index <= k < after.len() ==> alike(after[k], profiles[k + 1])
            &&& 0 <= k < after.len() && k < 0x1_0000_0000 ==> after[k].position == k
        }),
{
}

/// An engine that is moved changes places with the one where it goes. It stays where
/// there is no such place.
pub proof fn lemma_moved_engines_change_places(
    profiles: Seq<SearchEngineView>,
    index: int,
    delta: int,
    k: int,
)
    requires
        0 <= index < profiles.len(),
    ensures
        ({
            let after = with_engine_moved(profiles, index, delta);
            let to = index + delta;
            &&& after.len() == profiles.len()
            &&& to < 0 || to >= profiles.len() ==> after == profiles
            &&& 0 <= to < profiles.len() ==> {
                &&& alike(after[to], profiles[index])
                &&& alike(after[index], profiles[to])
                &&& 0 <= k < profiles.len() && k != index && k != to ==> alike(after[k], profiles[k])
                &&& 0 <= k < profiles.len() && k < 0x1_0000_0000 ==> after[k].position == k
            }
        }),
{
}

} // verus!
