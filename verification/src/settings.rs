//! Form state for the settings page.
//!
//! A provider or a search engine is edited before it is saved. The draft decides
//! what the page can do: whether it can be saved, whether its name collides with
//! another one, what a preset fills in.

use vstd::prelude::*;

use crate::domain::{
    name_key, plain_model, provider_name_key, ProviderId, ProviderModel, ProviderModelView,
    ProviderProfile, ProviderProtocol, ProviderView, SearchEngineId, SearchEngineKind,
    SearchEngineProfile, SearchEngineView,
};
use crate::ids::fresh_id;
use crate::providers::{base_url_of, normalize_base_url};
use crate::text::{blank, is_blank, lemma_trim_blank, same, trim, trimmed};
use crate::views::{copy_list, lemma_views_push, opt_view, views, Duplicate};

verus! {

/// A page of the settings.
#[derive(Clone, Copy, Debug, PartialEq, Eq, Structural)]
pub enum Section {
    General,
    Execution,
    Providers,
    WebSearch,
}

impl Default for Section {
    fn default() -> (r: Self)
        ensures
            r == Section::General,
    {
        Section::General
    }
}

impl Section {
    /// Every page, in the order in which they are listed.
    pub const ALL: [Section; 4] = [
        Section::General,
        Section::Execution,
        Section::Providers,
        Section::WebSearch,
    ];

    /// What the page's name is looked up under.
    pub open spec fn spec_key(self) -> Seq<char> {
        match self {
            Section::General => "general"@,
            Section::Execution => "execution"@,
            Section::Providers => "providers"@,
            Section::WebSearch => "web-search"@,
        }
    }

    /// What the page's name is looked up under.
    pub fn key(self) -> (r: &'static str)
        ensures
            r@ == self.spec_key(),
    {
        match self {
            Section::General => "general",
            Section::Execution => "execution",
            Section::Providers => "providers",
            Section::WebSearch => "web-search",
        }
    }
}

/// A known provider, which fills in the connection fields.
#[derive(Clone, Copy, Debug, PartialEq, Eq, Structural)]
pub enum Preset {
    Custom,
    OpenAi,
    Anthropic,
    Google,
    OpenRouter,
}

impl Default for Preset {
    fn default() -> (r: Self)
        ensures
            r == Preset::Custom,
    {
        Preset::Custom
    }
}

/// What a preset fills in.
#[verifier::ext_equal]
pub struct ConnectionView {
    pub name: Seq<char>,
    pub base_url: Seq<char>,
    pub protocol: ProviderProtocol,
}

impl Preset {
    /// Every preset.
    pub const ALL: [Preset; 5] = [
        Preset::Custom,
        Preset::OpenAi,
        Preset::Anthropic,
        Preset::Google,
        Preset::OpenRouter,
    ];

    /// What the preset is called.
    pub open spec fn spec_label(self) -> Seq<char> {
        match self {
            Preset::Custom => "Custom"@,
            Preset::OpenAi => "OpenAI"@,
            Preset::Anthropic => "Anthropic"@,
            Preset::Google => "Google / Gemini"@,
            Preset::OpenRouter => "OpenRouter"@,
        }
    }

    /// What the preset is called.
    pub fn label(self) -> (r: &'static str)
        ensures
            r@ == self.spec_label(),
    {
        match self {
            Preset::Custom => "Custom",
            Preset::OpenAi => "OpenAI",
            Preset::Anthropic => "Anthropic",
            Preset::Google => "Google / Gemini",
            Preset::OpenRouter => "OpenRouter",
        }
    }

    /// What the preset fills in; the custom one leaves what was typed alone.
    pub open spec fn fills_in(self) -> Option<ConnectionView> {
        match self {
            Preset::Custom => None,
            Preset::OpenAi => Some(
                ConnectionView {
                    name: "OpenAI"@,
                    base_url: "https://api.openai.com/v1"@,
                    protocol: ProviderProtocol::OpenAiResponses,
                },
            ),
            Preset::Anthropic => Some(
                ConnectionView {
                    name: "Anthropic"@,
                    base_url: "https://api.anthropic.com"@,
                    protocol: ProviderProtocol::AnthropicMessages,
                },
            ),
            Preset::Google => Some(
                ConnectionView {
                    name: "Google / Gemini"@,
                    base_url: "https://generativelanguage.googleapis.com/v1beta"@,
                    protocol: ProviderProtocol::GoogleGenerativeAi,
                },
            ),
            Preset::OpenRouter => Some(
                ConnectionView {
                    name: "OpenRouter"@,
                    base_url: "https://openrouter.ai/api/v1"@,
                    protocol: ProviderProtocol::OpenAiCompletions,
                },
            ),
        }
    }

    /// What the preset fills in: the name, the base URL and the protocol.
    pub fn connection(self) -> (r: Option<(&'static str, &'static str, ProviderProtocol)>)
        ensures
            match r {
                Some(c) => self.fills_in() == Some(
                    ConnectionView { name: c.0@, base_url: c.1@, protocol: c.2 },
                ),
                None => self.fills_in() is None,
            },
    {
        match self {
            Preset::Custom => None,
            Preset::OpenAi => Some(
                ("OpenAI", "https://api.openai.com/v1", ProviderProtocol::OpenAiResponses),
            ),
            Preset::Anthropic => Some(
                ("Anthropic", "https://api.anthropic.com", ProviderProtocol::AnthropicMessages),
            ),
            Preset::Google => Some(
                (
                    "Google / Gemini",
                    "https://generativelanguage.googleapis.com/v1beta",
                    ProviderProtocol::GoogleGenerativeAi,
                ),
            ),
            Preset::OpenRouter => Some(
                (
                    "OpenRouter",
                    "https://openrouter.ai/api/v1",
                    ProviderProtocol::OpenAiCompletions,
                ),
            ),
        }
    }

    /// Fills a draft in.
    pub fn apply(self, draft: &mut ProviderDraft)
        ensures
            final(draft)@ == match self.fills_in() {
                Some(c) => ProviderDraftView {
                    name: c.name,
                    base_url: c.base_url,
                    protocol: c.protocol,
                    ..old(draft)@
                },
                None => old(draft)@,
            },
    {
        if let Some((name, base_url, protocol)) = self.connection() {
            draft.name = name.to_owned();
            draft.base_url = base_url.to_owned();
            draft.protocol = protocol;
        }
    }
}

/// A provider that is being edited.
#[derive(Clone, Debug, PartialEq)]
pub struct ProviderDraft {
    /// `None` for one that was not saved yet.
    pub id: Option<ProviderId>,
    pub name: String,
    pub base_url: String,
    pub protocol: ProviderProtocol,
    pub preset: Preset,
    /// What was typed into the key field; nothing leaves the stored key.
    pub api_key: String,
    /// Whether a key is stored for it already.
    pub has_api_key: bool,
    pub models: Vec<ProviderModel>,
    /// The identifier of a model that is being added by hand.
    pub manual_model_id: String,
}

/// What a provider draft holds.
#[verifier::ext_equal]
pub struct ProviderDraftView {
    pub id: Option<ProviderId>,
    pub name: Seq<char>,
    pub base_url: Seq<char>,
    pub protocol: ProviderProtocol,
    pub preset: Preset,
    pub api_key: Seq<char>,
    pub has_api_key: bool,
    pub models: Seq<ProviderModelView>,
    pub manual_model_id: Seq<char>,
}

impl View for ProviderDraft {
    type V = ProviderDraftView;

    open spec fn view(&self) -> ProviderDraftView {
        ProviderDraftView {
            id: self.id,
            name: self.name@,
            base_url: self.base_url@,
            protocol: self.protocol,
            preset: self.preset,
            api_key: self.api_key@,
            has_api_key: self.has_api_key,
            models: views(self.models@),
            manual_model_id: self.manual_model_id@,
        }
    }
}

impl Default for ProviderDraft {
    fn default() -> (r: Self)
        ensures
            r@ == (ProviderDraftView {
                id: None,
                name: "OpenAI-compatible"@,
                base_url: ProviderProtocol::OpenAiCompletions.default_url(),
                protocol: ProviderProtocol::OpenAiCompletions,
                preset: Preset::Custom,
                api_key: Seq::empty(),
                has_api_key: false,
                models: Seq::empty(),
                manual_model_id: Seq::empty(),
            }),
    {
        let r = ProviderDraft {
            id: None,
            name: "OpenAI-compatible".to_owned(),
            base_url: ProviderProtocol::OpenAiCompletions.default_base_url().to_owned(),
            protocol: ProviderProtocol::OpenAiCompletions,
            preset: Preset::Custom,
            api_key: String::new(),
            has_api_key: false,
            models: Vec::new(),
            manual_model_id: String::new(),
        };
        proof {
            assert(r@.models =~= Seq::empty());
        }
        r
    }
}

/// A draft of a stored provider. The stored key is not read back, and no preset is
/// guessed from the URL.
pub open spec fn draft_of(profile: ProviderView) -> ProviderDraftView {
    ProviderDraftView {
        id: Some(profile.id),
        name: profile.name,
        base_url: profile.base_url,
        protocol: profile.protocol,
        preset: Preset::Custom,
        api_key: Seq::empty(),
        has_api_key: profile.has_api_key,
        models: profile.models,
        manual_model_id: Seq::empty(),
    }
}

/// The provider that a draft would store under `id`.
pub open spec fn drafted(draft: ProviderDraftView, id: ProviderId, now_ms: i64) -> ProviderView {
    ProviderView {
        id,
        name: trim(draft.name),
        base_url: base_url_of(draft.base_url),
        protocol: draft.protocol,
        models: draft.models,
        updated_at_ms: now_ms,
        has_api_key: draft.has_api_key || !is_blank(draft.api_key),
    }
}

/// The key that was typed, without white space around it, where there is one.
pub open spec fn typed_key(api_key: Seq<char>) -> Option<Seq<char>> {
    if is_blank(api_key) {
        None
    } else {
        Some(trim(api_key))
    }
}

/// Whether another provider already has the name of a draft.
pub open spec fn collides(draft: ProviderDraftView, existing: Seq<ProviderView>) -> bool {
    name_key(draft.name).len() > 0 && exists|i: int|
        #![trigger existing[i]]
        0 <= i < existing.len() && draft.id != Some(existing[i].id) && name_key(existing[i].name)
            == name_key(draft.name)
}

/// Whether a draft is worth saving: it can be reached, can answer, and has a name
/// of its own.
pub open spec fn saveable(draft: ProviderDraftView, existing: Seq<ProviderView>) -> bool {
    !is_blank(draft.name) && !is_blank(draft.base_url) && draft.models.len() > 0 && !collides(
        draft,
        existing,
    )
}

/// Whether a model with the given identifier is in the list.
pub open spec fn lists_model(models: Seq<ProviderModelView>, id: Seq<char>) -> bool {
    exists|i: int| #![trigger models[i]] 0 <= i < models.len() && models[i].id == id
}

/// Whether the model that was typed by hand can be added.
pub open spec fn adds_model(draft: ProviderDraftView) -> bool {
    !is_blank(draft.manual_model_id) && !lists_model(draft.models, trim(draft.manual_model_id))
}

/// A draft with another protocol: a base URL that was only the default of the
/// protocol before it follows.
pub open spec fn with_protocol(draft: ProviderDraftView, protocol: ProviderProtocol) -> ProviderDraftView {
    ProviderDraftView {
        protocol,
        base_url: if trim(draft.base_url) == draft.protocol.default_url() {
            protocol.default_url()
        } else {
            draft.base_url
        },
        ..draft
    }
}

fn typed(api_key: &str) -> (r: Option<String>)
    ensures
        opt_view(r) == typed_key(api_key@),
{
    if blank(api_key) {
        None
    } else {
        Some(trimmed(api_key))
    }
}

impl ProviderDraft {
    /// A draft of a stored provider.
    pub fn from_profile(profile: &ProviderProfile) -> (r: ProviderDraft)
        ensures
            r@ == draft_of(profile@),
    {
        ProviderDraft {
            id: Some(profile.id),
            name: profile.name.clone(),
            base_url: profile.base_url.clone(),
            protocol: profile.protocol,
            preset: Preset::Custom,
            api_key: String::new(),
            has_api_key: profile.has_api_key,
            models: copy_list(&profile.models),
            manual_model_id: String::new(),
        }
    }

    /// The provider that the draft would store; a new one gets an identifier.
    pub fn to_profile(&self, now_ms: i64) -> (r: ProviderProfile)
        ensures
            r@ == drafted(self@, r.id, now_ms),
            self.id is Some ==> self.id == Some(r.id),
    {
        let id: u128 = match self.id {
            Some(id) => id,
            None => fresh_id(),
        };
        ProviderProfile {
            id,
            name: trimmed(self.name.as_str()),
            base_url: normalize_base_url(self.base_url.as_str()),
            protocol: self.protocol,
            models: copy_list(&self.models),
            updated_at_ms: now_ms,
            has_api_key: self.has_api_key || !blank(self.api_key.as_str()),
        }
    }

    /// The key to store, where one was typed.
    pub fn typed_api_key(&self) -> (r: Option<String>)
        ensures
            opt_view(r) == typed_key(self.api_key@),
    {
        typed(self.api_key.as_str())
    }

    /// Whether another provider already has this name.
    pub fn name_collides(&self, existing: &Vec<ProviderProfile>) -> (r: bool)
        ensures
            r == collides(self@, views(existing@)),
    {
        let ghost all = views(existing@);
        let key = provider_name_key(self.name.as_str());
        if key.as_str().is_empty() {
            return false;
        }
        let mut i: usize = 0;
        while i < existing.len()
            invariant
                i <= existing@.len(),
                all == views(existing@),
                key@ == name_key(self.name@),
                key@.len() > 0,
                forall|k: int|
                    #![trigger all[k]]
                    0 <= k < i ==> self.id == Some(all[k].id) || name_key(all[k].name) != key@,
            decreases existing@.len() - i,
        {
            let other = match self.id {
                Some(id) => id != existing[i].id,
                None => true,
            };
            if other && same(
                provider_name_key(existing[i].name.as_str()).as_str(),
                key.as_str(),
            ) {
                proof {
                    assert(all[i as int] == existing@[i as int]@);
                    assert(collides(self@, all));
                }
                return true;
            }
            i = i + 1;
        }
        false
    }

    /// Whether the draft is worth saving.
    pub fn can_save(&self, existing: &Vec<ProviderProfile>) -> (r: bool)
        ensures
            r == saveable(self@, views(existing@)),
    {
        !blank(self.name.as_str()) && !blank(self.base_url.as_str()) && self.models.len() > 0
            && !self.name_collides(existing)
    }

    /// Whether there is a provider to ask for its models.
    pub fn can_discover(&self) -> (r: bool)
        ensures
            r == !is_blank(self.base_url@),
    {
        !blank(self.base_url.as_str())
    }

    fn has_model(&self, id: &str) -> (r: bool)
        ensures
            r == lists_model(self@.models, id@),
    {
        let ghost all = views(self.models@);
        let mut i: usize = 0;
        while i < self.models.len()
            invariant
                i <= self.models@.len(),
                all == views(self.models@),
                all == self@.models,
                forall|k: int| #![trigger all[k]] 0 <= k < i ==> all[k].id != id@,
            decreases self.models@.len() - i,
        {
            if same(self.models[i].id.as_str(), id) {
                proof {
                    assert(all[i as int] == self.models@[i as int]@);
                }
                return true;
            }
            i = i + 1;
        }
        false
    }

    /// Adds the model that was typed by hand and clears the field; a model that is
    /// there already is not added again. Says whether one was added.
    pub fn add_manual_model(&mut self) -> (r: bool)
        ensures
            r == adds_model(old(self)@),
            final(self)@ == (ProviderDraftView {
                manual_model_id: Seq::empty(),
                models: if adds_model(old(self)@) {
                    old(self)@.models.push(plain_model(trim(old(self)@.manual_model_id)))
                } else {
                    old(self)@.models
                },
                ..old(self)@
            }),
    {
        let id = trimmed(self.manual_model_id.as_str());
        proof {
            lemma_trim_blank(self.manual_model_id@);
        }
        self.manual_model_id = String::new();
        if id.as_str().is_empty() || self.has_model(id.as_str()) {
            return false;
        }
        let model = ProviderModel::new(id.as_str());
        proof {
            lemma_views_push(self.models@, model);
        }
        self.models.push(model);
        true
    }

    /// Changes the protocol; a base URL that was only a default follows.
    pub fn set_protocol(&mut self, protocol: ProviderProtocol)
        ensures
            final(self)@ == with_protocol(old(self)@, protocol),
    {
        let previous = self.protocol;
        self.protocol = protocol;
        if same(trimmed(self.base_url.as_str()).as_str(), previous.default_base_url()) {
            self.base_url = protocol.default_base_url().to_owned();
        }
    }
}

/// A provider that is opened and saved unchanged is the same provider, with its
/// name and base URL in their stored form.
pub proof fn lemma_unchanged_draft_keeps_the_provider(profile: ProviderView, now_ms: i64)
    ensures
        drafted(draft_of(profile), profile.id, now_ms) == (ProviderView {
            name: trim(profile.name),
            base_url: base_url_of(profile.base_url),
            updated_at_ms: now_ms,
            ..profile
        }),
        typed_key(draft_of(profile).api_key) is None,
{
    assert(trim(Seq::<char>::empty()) =~= Seq::<char>::empty());
}

/// A stored provider does not collide with itself: where no other one has its
/// name, its draft has no collision.
pub proof fn lemma_no_collision_with_itself(profile: ProviderView, existing: Seq<ProviderView>)
    requires
        forall|i: int|
            #![trigger existing[i]]
            0 <= i < existing.len() && existing[i].id != profile.id ==> name_key(existing[i].name)
                != name_key(profile.name),
    ensures
        !collides(draft_of(profile), existing),
{
}

/// A model that was added by hand is not added a second time.
pub proof fn lemma_model_is_added_once(draft: ProviderDraftView)
    requires
        adds_model(draft),
    ensures
        !adds_model(
            ProviderDraftView {
                models: draft.models.push(plain_model(trim(draft.manual_model_id))),
                ..draft
            },
        ),
{
    let models = draft.models.push(plain_model(trim(draft.manual_model_id)));
    assert(models[draft.models.len() as int].id == trim(draft.manual_model_id));
}

/// A search engine that is being edited.
#[derive(Clone, Debug, PartialEq)]
pub struct SearchEngineDraft {
    pub id: Option<SearchEngineId>,
    pub name: String,
    pub kind: SearchEngineKind,
    pub base_url: String,
    pub enabled: bool,
    /// What was typed into the key field; nothing leaves the stored key.
    pub api_key: String,
    /// Whether a key is stored for it already.
    pub has_api_key: bool,
}

/// What a search engine draft holds.
#[verifier::ext_equal]
pub struct EngineDraftView {
    pub id: Option<SearchEngineId>,
    pub name: Seq<char>,
    pub kind: SearchEngineKind,
    pub base_url: Seq<char>,
    pub enabled: bool,
    pub api_key: Seq<char>,
    pub has_api_key: bool,
}

impl View for SearchEngineDraft {
    type V = EngineDraftView;

    open spec fn view(&self) -> EngineDraftView {
        EngineDraftView {
            id: self.id,
            name: self.name@,
            kind: self.kind,
            base_url: self.base_url@,
            enabled: self.enabled,
            api_key: self.api_key@,
            has_api_key: self.has_api_key,
        }
    }
}

impl Default for SearchEngineDraft {
    fn default() -> (r: Self)
        ensures
            r@ == (EngineDraftView {
                id: None,
                name: SearchEngineKind::Searxng.spec_name(),
                kind: SearchEngineKind::Searxng,
                base_url: Seq::empty(),
                enabled: true,
                api_key: Seq::empty(),
                has_api_key: false,
            }),
    {
        SearchEngineDraft {
            id: None,
            name: SearchEngineKind::Searxng.default_name().to_owned(),
            kind: SearchEngineKind::Searxng,
            base_url: String::new(),
            enabled: true,
            api_key: String::new(),
            has_api_key: false,
        }
    }
}

/// A draft of a stored engine. The stored key is not read back.
pub open spec fn engine_draft_of(profile: SearchEngineView) -> EngineDraftView {
    EngineDraftView {
        id: Some(profile.id),
        name: profile.name,
        kind: profile.kind,
        base_url: profile.base_url,
        enabled: profile.enabled,
        api_key: Seq::empty(),
        has_api_key: profile.has_api_key,
    }
}

/// The engine that a draft would store under `id`.
pub open spec fn drafted_engine(draft: EngineDraftView, id: SearchEngineId, position: u32) -> SearchEngineView {
    SearchEngineView {
        id,
        name: trim(draft.name),
        kind: draft.kind,
        base_url: base_url_of(draft.base_url),
        enabled: draft.enabled,
        position,
        has_api_key: draft.has_api_key || !is_blank(draft.api_key),
    }
}

/// A draft of another kind: a name and a base URL that were only the defaults of
/// the kind before it follow, and a key that is not needed goes.
pub open spec fn with_kind(draft: EngineDraftView, kind: SearchEngineKind) -> EngineDraftView {
    EngineDraftView {
        kind,
        name: if trim(draft.name) == draft.kind.spec_name() {
            kind.spec_name()
        } else {
            draft.name
        },
        base_url: if base_url_of(draft.base_url) == draft.kind.default_url() {
            kind.default_url()
        } else {
            draft.base_url
        },
        api_key: if kind.needs_key() {
            draft.api_key
        } else {
            Seq::empty()
        },
        has_api_key: kind.needs_key() && draft.has_api_key,
        ..draft
    }
}

/// Whether an engine draft is worth saving.
pub open spec fn saveable_engine(draft: EngineDraftView) -> bool {
    !is_blank(draft.name) && !is_blank(draft.base_url) && (draft.kind.needs_key()
        ==> draft.has_api_key || !is_blank(draft.api_key))
}

impl SearchEngineDraft {
    /// A draft of a stored engine.
    pub fn from_profile(profile: &SearchEngineProfile) -> (r: SearchEngineDraft)
        ensures
            r@ == engine_draft_of(profile@),
    {
        SearchEngineDraft {
            id: Some(profile.id),
            name: profile.name.clone(),
            kind: profile.kind,
            base_url: profile.base_url.clone(),
            enabled: profile.enabled,
            api_key: String::new(),
            has_api_key: profile.has_api_key,
        }
    }

    /// The engine that the draft would store; a new one gets an identifier.
    pub fn to_profile(&self, position: u32) -> (r: SearchEngineProfile)
        ensures
            r@ == drafted_engine(self@, r.id, position),
            self.id is Some ==> self.id == Some(r.id),
    {
        let id: u128 = match self.id {
            Some(id) => id,
            None => fresh_id(),
        };
        SearchEngineProfile {
            id,
            name: trimmed(self.name.as_str()),
            kind: self.kind,
            base_url: normalize_base_url(self.base_url.as_str()),
            enabled: self.enabled,
            position,
            has_api_key: self.has_api_key || !blank(self.api_key.as_str()),
        }
    }

    /// The key to store, where one was typed.
    pub fn typed_api_key(&self) -> (r: Option<String>)
        ensures
            opt_view(r) == typed_key(self.api_key@),
    {
        typed(self.api_key.as_str())
    }

    /// Changes the kind; what was only a default follows.
    pub fn set_kind(&mut self, kind: SearchEngineKind)
        ensures
            final(self)@ == with_kind(old(self)@, kind),
    {
        let previous = self.kind;
        self.kind = kind;
        if same(trimmed(self.name.as_str()).as_str(), previous.default_name()) {
            self.name = kind.default_name().to_owned();
        }
        if same(
            normalize_base_url(self.base_url.as_str()).as_str(),
            previous.default_base_url(),
        ) {
            self.base_url = kind.default_base_url().to_owned();
        }
        if !kind.requires_api_key() {
            self.api_key = String::new();
            self.has_api_key = false;
        }
    }

    /// Whether the draft is worth saving.
    pub fn can_save(&self) -> (r: bool)
        ensures
            r == saveable_engine(self@),
    {
        !blank(self.name.as_str()) && !blank(self.base_url.as_str()) && (
        !self.kind.requires_api_key() || self.has_api_key || !blank(self.api_key.as_str()))
    }
}

/// The position of the engine in the given place, as the store keeps it.
pub open spec fn position_at(i: int) -> u32 {
    (i % 0x1_0000_0000) as u32
}

/// The engines with their positions taken from their order.
pub open spec fn renumbered(profiles: Seq<SearchEngineView>) -> Seq<SearchEngineView> {
    Seq::new(
        profiles.len(),
        |i: int| SearchEngineView { position: position_at(i), ..profiles[i] },
    )
}

/// Whether `at` is where the first engine with the identifier `id` stands.
pub open spec fn is_place_of(profiles: Seq<SearchEngineView>, id: SearchEngineId, at: int) -> bool {
    &&& 0 <= at < profiles.len()
    &&& profiles[at].id == id
    &&& forall|k: int| 0 <= k < at ==> (#[trigger] profiles[k]).id != id
}

/// Where the first engine with the identifier `id` stands.
pub open spec fn place_of(profiles: Seq<SearchEngineView>, id: SearchEngineId) -> Option<int> {
    if exists|at: int| is_place_of(profiles, id, at) {
        Some(choose|at: int| is_place_of(profiles, id, at))
    } else {
        None
    }
}

/// The engines with `profile` in the place of the one that it edits, or behind the
/// others.
pub open spec fn with_engine(profiles: Seq<SearchEngineView>, profile: SearchEngineView) -> Seq<
    SearchEngineView,
> {
    match place_of(profiles, profile.id) {
        Some(at) => renumbered(profiles.update(at, profile)),
        None => renumbered(profiles.push(profile)),
    }
}

/// The engines without the one in the given place.
pub open spec fn without_engine(profiles: Seq<SearchEngineView>, index: int) -> Seq<
    SearchEngineView,
> {
    if index < profiles.len() {
        renumbered(profiles.remove(index))
    } else {
        renumbered(profiles)
    }
}

/// The engines with two of them swapped.
pub open spec fn swapped(profiles: Seq<SearchEngineView>, a: int, b: int) -> Seq<SearchEngineView> {
    profiles.update(a, profiles[b]).update(b, profiles[a])
}

/// The engines with the one in the given place moved; past either end nothing
/// moves.
pub open spec fn with_engine_moved(profiles: Seq<SearchEngineView>, index: int, delta: int) -> Seq<
    SearchEngineView,
> {
    if index < profiles.len() && 0 <= index + delta < profiles.len() {
        renumbered(swapped(profiles, index, index + delta))
    } else {
        profiles
    }
}

/// Takes the engines' positions from their order.
pub fn renumber(profiles: Vec<SearchEngineProfile>) -> (r: Vec<SearchEngineProfile>)
    ensures
        views(r@) == renumbered(views(profiles@)),
{
    let ghost all = views(profiles@);
    let mut profiles = profiles;
    let n: usize = profiles.len();
    let mut i: usize = 0;
    while i < n
        invariant
            i <= n == profiles@.len() == all.len(),
            forall|k: int|
                #![trigger profiles@[k]]
                0 <= k < i ==> profiles@[k]@ == (SearchEngineView {
                    position: position_at(k),
                    ..all[k]
                }),
            forall|k: int| #![trigger profiles@[k]] i <= k < n ==> profiles@[k]@ == all[k],
        decreases n - i,
    {
        let position: u32 = (i as u64 % 0x1_0000_0000) as u32;
        let profile = SearchEngineProfile { position, ..profiles[i].duplicate() };
        profiles[i] = profile;
        i = i + 1;
    }
    proof {
        assert(views(profiles@) =~= renumbered(all));
    }
    profiles
}

/// The engines with `profile` in the place of the one that it edits, or behind the
/// others.
pub fn upsert_profile(profiles: &Vec<SearchEngineProfile>, profile: SearchEngineProfile) -> (r: Vec<
    SearchEngineProfile,
>)
    ensures
        views(r@) == with_engine(views(profiles@), profile@),
{
    let ghost all = views(profiles@);
    let mut list = copy_list(profiles);
    let mut i: usize = 0;
    while i < list.len() && list[i].id != profile.id
        invariant
            i <= list@.len(),
            all == views(list@),
            forall|k: int| 0 <= k < i ==> (#[trigger] all[k]).id != profile.id,
        decreases list@.len() - i,
    {
        i = i + 1;
    }
    let ghost new = profile@;
    if i < list.len() {
        list[i] = profile;
        proof {
            assert(is_place_of(all, new.id, i as int));
            let at = choose|at: int| is_place_of(all, new.id, at);
            assert(at == i) by {
                if at < i {
                    assert(all[at].id != new.id);
                }
                if i < at {
                    assert(all[i as int].id != new.id);
                }
            }
            assert(views(list@) =~= all.update(i as int, new));
        }
    } else {
        proof {
            assert forall|at: int| !is_place_of(all, new.id, at) by {
                if 0 <= at < all.len() {
                    assert(all[at].id != new.id);
                }
            }
            lemma_views_push(list@, profile);
        }
        list.push(profile);
    }
    renumber(list)
}

/// Stores a draft among the engines: in the place of the one that it edits, or
/// behind the others under an identifier of its own.
pub fn upsert_search_engine(
    profiles: &Vec<SearchEngineProfile>,
    draft: &SearchEngineDraft,
) -> (r: Vec<SearchEngineProfile>)
    ensures
        exists|id: SearchEngineId|
            (draft.id is Some ==> draft.id == Some(id)) && views(r@) == with_engine(
                views(profiles@),
                #[trigger] drafted_engine(draft@, id, 0),
            ),
{
    let profile = draft.to_profile(0);
    upsert_profile(profiles, profile)
}

/// The engines without the one in the given place.
pub fn remove_search_engine(profiles: &Vec<SearchEngineProfile>, index: usize) -> (r: Vec<
    SearchEngineProfile,
>)
    ensures
        views(r@) == without_engine(views(profiles@), index as int),
{
    let mut list = copy_list(profiles);
    if index < list.len() {
        let ghost before = views(list@);
        let _ = list.remove(index);
        proof {
            assert(views(list@) =~= before.remove(index as int));
        }
    }
    renumber(list)
}

/// The engines with the one in the given place moved by `delta`; past either end
/// nothing moves.
pub fn move_search_engine(
    profiles: &Vec<SearchEngineProfile>,
    index: usize,
    delta: isize,
) -> (r: Vec<SearchEngineProfile>)
    ensures
        views(r@) == with_engine_moved(views(profiles@), index as int, delta as int),
{
    let mut list = copy_list(profiles);
    let target: i128 = index as i128 + delta as i128;
    if index >= list.len() || target < 0 || target >= list.len() as i128 {
        return list;
    }
    let ghost before = views(list@);
    let there: usize = target as usize;
    let here = list[index].duplicate();
    let other = list[there].duplicate();
    list[index] = other;
    list[there] = here;
    proof {
        assert(views(list@) =~= swapped(before, index as int, there as int));
    }
    renumber(list)
}

/// Whatever is done to the engines, their positions are their places in the list.
pub proof fn lemma_positions_follow_the_order(
    profiles: Seq<SearchEngineView>,
    profile: SearchEngineView,
    index: int,
)
    requires
        0 <= index,
        profiles.len() < u32::MAX,
    ensures
        forall|i: int|
            0 <= i < with_engine(profiles, profile).len() ==> (#[trigger] with_engine(
                profiles,
                profile,
            )[i]).position == i,
        forall|i: int|
            0 <= i < without_engine(profiles, index).len() ==> (#[trigger] without_engine(
                profiles,
                index,
            )[i]).position == i,
{
}

/// An engine that is edited stays in its place, and the others stay as they are.
pub proof fn lemma_edited_engine_keeps_its_place(
    profiles: Seq<SearchEngineView>,
    profile: SearchEngineView,
    at: int,
)
    requires
        is_place_of(profiles, profile.id, at),
    ensures
        with_engine(profiles, profile).len() == profiles.len(),
        with_engine(profiles, profile)[at] == (SearchEngineView {
            position: position_at(at),
            ..profile
        }),
        forall|i: int|
            0 <= i < profiles.len() && i != at ==> #[trigger] with_engine(profiles, profile)[i] == (
            SearchEngineView { position: position_at(i), ..profiles[i] }),
{
    let found = choose|at: int| is_place_of(profiles, profile.id, at);
    assert(found == at) by {
        if found < at {
            assert(profiles[found].id != profile.id);
        }
        if at < found {
            assert(profiles[at].id != profile.id);
        }
    }
}

/// An engine that is moved and moved back is where it was.
pub proof fn lemma_moving_back_undoes_a_move(
    profiles: Seq<SearchEngineView>,
    index: int,
    delta: int,
)
    requires
        0 <= index < profiles.len(),
        0 <= index + delta < profiles.len(),
    ensures
        with_engine_moved(with_engine_moved(profiles, index, delta), index + delta, -delta)
            == renumbered(profiles),
{
    assert(with_engine_moved(with_engine_moved(profiles, index, delta), index + delta, -delta)
        =~= renumbered(profiles));
}

} // verus!
