//! The runtime controls: what the agent may reach, which model answers, and how
//! hard it thinks.

use vstd::prelude::*;

use crate::chat::model_picker::{key_of, model_key, ModelKey, ModelKeyView};
use crate::domain::{
    AgentPermissionLevel, AppState, Language, ModelOption, ModelView, SessionStatus, StatusView,
    ThinkingLevel,
};
use crate::slash_commands::{model_found, model_mentions};
use crate::strings::{is_table, reads, translate};
use crate::text::{
    cat2, comes_before, lemma_order_is_total, lemma_order_is_transitive, lowercase, lowered,
    precedes, same, trim, trimmed,
};
use crate::views::{
    copy_list, find_first, lemma_filter_none, lemma_filter_step, lemma_find_step, lemma_views_push,
    opt_view, views, Duplicate,
};

verus! {

/// What the controls ask for.
#[derive(Clone, Debug, PartialEq)]
pub enum ControlsEvent {
    /// Switch the model. It waits for the next prompt.
    SetModel(ModelOption),
    SetThinkingLevel(ThinkingLevel),
    /// Raise or lower what a spawned agent may reach without asking.
    SetPermissionLevel(AgentPermissionLevel),
}

/// A model as the picker lists it.
#[derive(Clone, Debug, PartialEq)]
pub struct ModelItem {
    pub model: ModelOption,
    /// What the model is known by.
    pub key: ModelKey,
}

/// What a listed model holds.
#[verifier::ext_equal]
pub struct ModelItemView {
    pub model: ModelView,
    pub key: ModelKeyView,
}

impl View for ModelItem {
    type V = ModelItemView;

    open spec fn view(&self) -> ModelItemView {
        ModelItemView { model: self.model@, key: self.key@ }
    }
}

/// A model as the picker lists it.
pub open spec fn item_of(model: ModelView) -> ModelItemView {
    ModelItemView { model, key: key_of(model) }
}

impl ModelItem {
    /// A model as the picker lists it.
    pub fn new(model: ModelOption) -> (r: ModelItem)
        ensures
            r@ == item_of(model@),
    {
        let key = model_key(&model);
        ModelItem { model, key }
    }

    /// The second line of the row: the identifier, where it says more than the
    /// name. Otherwise the line stays empty.
    pub fn secondary(&self) -> (r: String)
        ensures
            r@ == if self@.model.id == self@.model.name {
                Seq::<char>::empty()
            } else {
                self@.model.id
            },
    {
        if same(self.model.id.as_str(), self.model.name.as_str()) {
            String::new()
        } else {
            self.model.id.clone()
        }
    }

    /// The first line of the row.
    pub fn title(&self) -> (r: &str)
        ensures
            r@ == self@.model.name,
    {
        self.model.name.as_str()
    }

    /// What picking the row gives.
    pub fn value(&self) -> (r: &ModelKey)
        ensures
            r@ == self@.key,
    {
        &self.key
    }

    /// Whether the model is found by what is typed, by name, identifier or
    /// provider.
    pub fn matches(&self, query: &str) -> (r: bool)
        ensures
            r == model_mentions(self@.model, lowercase(trim(query@))),
            trim(query@).len() == 0 ==> r,
    {
        let query = lowered(trimmed(query).as_str());
        model_found(&self.model, query.as_str())
    }
}

/// The models of one provider.
#[derive(Clone, Debug, PartialEq)]
pub struct ModelGroup {
    pub title: String,
    pub items: Vec<ModelItem>,
}

/// What the models of one provider hold.
#[verifier::ext_equal]
pub struct GroupView {
    pub title: Seq<char>,
    pub items: Seq<ModelItemView>,
}

impl View for ModelGroup {
    type V = GroupView;

    open spec fn view(&self) -> GroupView {
        GroupView { title: self.title@, items: views(self.items@) }
    }
}

/// The models of a provider, in the order in which they were reported.
pub open spec fn items_of(models: Seq<ModelView>, provider: Seq<char>) -> Seq<ModelItemView> {
    models.filter(|model: ModelView| model.provider_name == provider).map_values(
        |model: ModelView| item_of(model),
    )
}

/// Whether each text comes before the next.
pub open spec fn ascending(titles: Seq<Seq<char>>) -> bool {
    forall|i: int, j: int|
        #![trigger titles[i], titles[j]]
        0 <= i < j < titles.len() ==> comes_before(titles[i], titles[j])
}

/// Whether a model of the provider is among the models.
pub open spec fn has_provider(models: Seq<ModelView>, provider: Seq<char>) -> bool {
    exists|i: int| 0 <= i < models.len() && (#[trigger] models[i]).provider_name == provider
}

/// Whether `groups` are the models by provider: the providers in the order of
/// their names, each once, the models of each in the order in which they were
/// reported.
pub open spec fn are_groups(models: Seq<ModelView>, groups: Seq<GroupView>) -> bool {
    let titles = groups.map_values(|group: GroupView| group.title);
    &&& ascending(titles)
    &&& forall|title: Seq<char>| #[trigger]
        titles.contains(title) <==> has_provider(models, title)
    &&& forall|i: int|
        0 <= i < groups.len() ==> (#[trigger] groups[i]).items == items_of(models, groups[i].title)
}

proof fn lemma_ascending_insert(titles: Seq<Seq<char>>, title: Seq<char>, at: int)
    requires
        ascending(titles),
        0 <= at <= titles.len(),
        forall|k: int| 0 <= k < at ==> comes_before(#[trigger] titles[k], title),
        at < titles.len() ==> comes_before(title, titles[at]),
    ensures
        ascending(titles.insert(at, title)),
        forall|t: Seq<char>| #[trigger]
            titles.insert(at, title).contains(t) <==> titles.contains(t) || t == title,
{
    let after = titles.insert(at, title);
    assert forall|i: int, j: int| #![trigger after[i], after[j]] 0 <= i < j < after.len() implies
        comes_before(after[i], after[j]) by {
        if j < at {
            assert(after[i] == titles[i] && after[j] == titles[j]);
        } else if j == at {
            assert(after[i] == titles[i]);
        } else {
            assert(after[j] == titles[j - 1]);
            if i < at {
                assert(after[i] == titles[i]);
            } else if i == at {
                if j - 1 > at {
                    assert(comes_before(titles[at], titles[j - 1]));
                    lemma_order_is_transitive(title, titles[at], titles[j - 1]);
                }
            } else {
                assert(after[i] == titles[i - 1]);
            }
        }
    }
    assert forall|t: Seq<char>| #[trigger] after.contains(t) <==> titles.contains(t) || t
        == title by {
        if after.contains(t) {
            let k = choose|k: int| 0 <= k < after.len() && after[k] == t;
            if k < at {
                assert(titles[k] == t);
            } else if k > at {
                assert(titles[k - 1] == t);
            }
        }
        if titles.contains(t) {
            let k = choose|k: int| 0 <= k < titles.len() && titles[k] == t;
            if k < at {
                assert(after[k] == t);
            } else {
                assert(after[k + 1] == t);
            }
        }
        if t == title {
            assert(after[at] == t);
        }
    }
}

/// The names of the providers, in order, each once.
fn provider_titles(models: &Vec<ModelOption>) -> (r: Vec<String>)
    ensures
        ascending(views(r@)),
        forall|title: Seq<char>| #[trigger]
            views(r@).contains(title) <==> has_provider(views(models@), title),
{
    let ghost all = views(models@);
    let mut titles: Vec<String> = Vec::new();
    let mut i: usize = 0;
    while i < models.len()
        invariant
            i <= models@.len(),
            all == views(models@),
            ascending(views(titles@)),
            forall|title: Seq<char>| #[trigger]
                views(titles@).contains(title) <==> has_provider(all.take(i as int), title),
        decreases models@.len() - i,
    {
        let name = models[i].provider_name.as_str();
        let ghost before = views(titles@);
        let mut at: usize = 0;
        while at < titles.len() && precedes(titles[at].as_str(), name)
            invariant
                at <= titles@.len(),
                before == views(titles@),
                forall|k: int| 0 <= k < at ==> comes_before(#[trigger] before[k], name@),
            decreases titles@.len() - at,
        {
            at = at + 1;
        }
        let there = at < titles.len() && same(titles[at].as_str(), name);
        proof {
            if at < titles@.len() {
                assert(before[at as int] == titles@[at as int]@);
                lemma_order_is_total(name@, before[at as int]);
            }
        }
        if !there {
            proof {
                lemma_ascending_insert(before, name@, at as int);
            }
            titles.insert(at, name.to_owned());
            proof {
                assert(views(titles@) =~= before.insert(at as int, name@));
            }
        } else {
            proof {
                assert(before.contains(name@));
            }
        }
        proof {
            let front = all.take(i as int);
            let next = all.take(i + 1);
            assert forall|title: Seq<char>| #[trigger]
                views(titles@).contains(title) <==> has_provider(next, title) by {
                if has_provider(next, title) {
                    let k = choose|k: int|
                        0 <= k < next.len() && (#[trigger] next[k]).provider_name == title;
                    if k < i {
                        assert(front[k].provider_name == title);
                        assert(has_provider(front, title));
                    }
                }
                if has_provider(front, title) {
                    let k = choose|k: int|
                        0 <= k < front.len() && (#[trigger] front[k]).provider_name == title;
                    assert(next[k].provider_name == title);
                }
                if title == name@ {
                    assert(next[i as int].provider_name == title);
                }
                assert(before.contains(title) <==> has_provider(front, title));
            }
        }
        i = i + 1;
    }
    proof {
        assert(all.take(i as int) =~= all);
    }
    titles
}

/// The models of a provider, in the order in which they were reported.
fn group_items(models: &Vec<ModelOption>, provider: &str) -> (r: Vec<ModelItem>)
    ensures
        views(r@) == items_of(views(models@), provider@),
{
    let ghost all = views(models@);
    let ghost f = |model: ModelView| model.provider_name == provider@;
    let ghost g = |model: ModelView| item_of(model);
    let mut items: Vec<ModelItem> = Vec::new();
    let mut i: usize = 0;
    proof {
        lemma_filter_none(all, f);
        assert(views(items@) =~= Seq::<ModelView>::empty().map_values(g));
    }
    while i < models.len()
        invariant
            i <= models@.len(),
            all == views(models@),
            f == (|model: ModelView| model.provider_name == provider@),
            g == (|model: ModelView| item_of(model)),
            views(items@) == all.take(i as int).filter(f).map_values(g),
        decreases models@.len() - i,
    {
        proof {
            lemma_filter_step(all, f, i as int);
        }
        if same(models[i].provider_name.as_str(), provider) {
            let item = ModelItem::new(models[i].duplicate());
            proof {
                lemma_views_push(items@, item);
                let kept = all.take(i as int).filter(f);
                assert(kept.push(all[i as int]).map_values(g) =~= kept.map_values(g).push(item@));
            }
            items.push(item);
        }
        i = i + 1;
    }
    proof {
        assert(all.take(i as int) =~= all);
    }
    items
}

/// The models by provider. Providers stand in the order of their names, so that
/// they do not shift, and the models of each in the order in which the agent
/// reported them, which is its ranking.
pub fn model_groups(models: &Vec<ModelOption>) -> (r: Vec<ModelGroup>)
    ensures
        are_groups(views(models@), views(r@)),
{
    let titles = provider_titles(models);
    let ghost names = views(titles@);
    let ghost all = views(models@);
    let mut groups: Vec<ModelGroup> = Vec::new();
    let mut i: usize = 0;
    while i < titles.len()
        invariant
            i <= titles@.len(),
            names == views(titles@),
            all == views(models@),
            groups@.len() == i,
            forall|k: int|
                0 <= k < i ==> (#[trigger] groups@[k])@ == (GroupView {
                    title: names[k],
                    items: items_of(all, names[k]),
                }),
        decreases titles@.len() - i,
    {
        let items = group_items(models, titles[i].as_str());
        groups.push(ModelGroup { title: titles[i].clone(), items });
        i = i + 1;
    }
    proof {
        let found = views(groups@);
        assert(found.map_values(|group: GroupView| group.title) =~= names);
        assert forall|k: int| 0 <= k < found.len() implies (#[trigger] found[k]).items == items_of(
            all,
            found[k].title,
        ) by {
            assert(found[k] == groups@[k]@);
        }
    }
    groups
}

/// No model is left out of the groups or stands in two of them: a model is listed
/// exactly in the group of its provider.
pub proof fn lemma_every_model_is_listed_once(
    models: Seq<ModelView>,
    groups: Seq<GroupView>,
    i: int,
)
    requires
        are_groups(models, groups),
        0 <= i < models.len(),
    ensures
        exists|g: int| 0 <= g < groups.len() && (#[trigger] groups[g]).title
            == models[i].provider_name,
        forall|g: int, h: int|
            #![trigger groups[g], groups[h]]
            0 <= g < groups.len() && 0 <= h < groups.len() && groups[g].title == groups[h].title
                ==> g == h,
{
    let titles = groups.map_values(|group: GroupView| group.title);
    let provider = models[i].provider_name;
    assert(has_provider(models, provider));
    assert(titles.contains(provider));
    let g = choose|g: int| 0 <= g < titles.len() && titles[g] == provider;
    assert(groups[g].title == provider);
    assert forall|g: int, h: int|
        #![trigger groups[g], groups[h]]
        0 <= g < groups.len() && 0 <= h < groups.len() && groups[g].title
            == groups[h].title implies g == h by {
        lemma_order_is_total(titles[g], titles[h]);
        if g < h {
            assert(comes_before(titles[g], titles[h]));
        }
        if h < g {
            assert(comes_before(titles[h], titles[g]));
        }
    }
}

/// The levels of permission, in the order in which they escalate.
pub const PERMISSION_LEVELS: [AgentPermissionLevel; 3] = [
    AgentPermissionLevel::ReadOnly,
    AgentPermissionLevel::Controlled,
    AgentPermissionLevel::Full,
];

/// What the name of a permission level is looked up under.
pub open spec fn level_key(level: AgentPermissionLevel) -> Seq<char> {
    match level {
        AgentPermissionLevel::ReadOnly => "permission-read-only"@,
        AgentPermissionLevel::Controlled => "permission-controlled"@,
        AgentPermissionLevel::Full => "permission-full"@,
    }
}

/// What the name of a permission level is looked up under.
pub fn permission_key(level: AgentPermissionLevel) -> (r: &'static str)
    ensures
        r@ == level_key(level),
{
    match level {
        AgentPermissionLevel::ReadOnly => "permission-read-only",
        AgentPermissionLevel::Controlled => "permission-controlled",
        AgentPermissionLevel::Full => "permission-full",
    }
}

/// The name of a permission level, for its row in the picker.
pub fn permission_label<F: Fn(&'static str, Language) -> &'static str>(
    level: AgentPermissionLevel,
    language: Language,
    table: &F,
) -> (r: &'static str)
    requires
        is_table(*table),
    ensures
        reads(*table, level_key(level), language, r@),
{
    translate(table, permission_key(level), language)
}

/// Whether a permission level is worth a warning: full access lets an agent reach
/// the host without asking.
pub fn permission_is_flagged(level: AgentPermissionLevel) -> (r: bool)
    ensures
        r == (level == AgentPermissionLevel::Full),
{
    matches!(level, AgentPermissionLevel::Full)
}

/// Why there are no models to pick from. A failed session explains itself.
pub open spec fn note_text(status: StatusView) -> Seq<char> {
    match status {
        StatusView::Failed(error) => "No models available: "@ + error,
        _ => "No models available"@,
    }
}

/// Why there are no models to pick from.
pub fn models_unavailable_note(status: &SessionStatus) -> (r: String)
    ensures
        r@ == note_text(status@),
{
    match status {
        SessionStatus::Failed(error) => cat2("No models available: ", error.as_str()),
        _ => "No models available".to_owned(),
    }
}

/// What the controls show.
pub struct Controls {
    /// Whether there is a project, and so an agent to configure.
    pub visible: bool,
    pub status: SessionStatus,
    /// What a spawned agent may reach without asking.
    pub permission: AgentPermissionLevel,
    pub language: Language,
    /// The models as the agent reported them.
    pub models: Vec<ModelOption>,
    /// The model that the picker shows.
    pub selected_model: Option<ModelKey>,
    pub thinking_level: ThinkingLevel,
    pub thinking_levels: Vec<ThinkingLevel>,
}

/// The model that the picker shows: the one that the next prompt switches to, or
/// else the one in use.
pub open spec fn shown_model(state: AppState) -> Option<ModelKeyView> {
    match state.pending_model {
        Some(model) => Some(key_of(model@)),
        None => match state.current_model {
            Some(model) => Some(key_of(model@)),
            None => None,
        },
    }
}

/// Whether the controls show what a state reports.
pub open spec fn shows(controls: Controls, state: AppState) -> bool {
    &&& controls.visible == state.selected_project is Some
    &&& controls.status@ == state.session_status@
    &&& controls.permission == state.agent_team_config.default_level
    &&& controls.language == state.language
    &&& views(controls.models@) == views(state.available_models@)
    &&& opt_view(controls.selected_model) == shown_model(state)
    &&& controls.thinking_level == state.thinking_level
    &&& controls.thinking_levels@ == state.available_thinking_levels@
}

/// The row of controls as it is drawn.
#[derive(Clone, Debug, PartialEq, Eq)]
pub struct ControlsRow {
    /// Whether the dot beside the permission level warns.
    pub permission_flagged: bool,
    /// What stands in the place of the model picker where there are no models, and
    /// whether it is a failure.
    pub models_note: Option<(String, bool)>,
}

impl Controls {
    /// Controls that nothing was reported to yet.
    pub fn new() -> (r: Controls)
        ensures
            !r.visible,
            r.status == SessionStatus::Offline,
            r.permission == AgentPermissionLevel::Controlled,
            r.language == Language::English,
            r.models@.len() == 0,
            r.selected_model is None,
            r.thinking_level == ThinkingLevel::Off,
            r.thinking_levels@.len() == 0,
    {
        Controls {
            visible: false,
            status: SessionStatus::Offline,
            permission: AgentPermissionLevel::Controlled,
            language: Language::English,
            models: Vec::new(),
            selected_model: None,
            thinking_level: ThinkingLevel::Off,
            thinking_levels: Vec::new(),
        }
    }

    /// Takes what a state reports. A model that the next prompt switches to is
    /// shown before the one in use.
    pub fn sync(&mut self, state: &AppState)
        ensures
            shows(*final(self), *state),
    {
        let selected_model = match &state.pending_model {
            Some(model) => Some(model_key(model)),
            None => match &state.current_model {
                Some(model) => Some(model_key(model)),
                None => None,
            },
        };
        let mut thinking_levels: Vec<ThinkingLevel> = Vec::new();
        let mut i: usize = 0;
        while i < state.available_thinking_levels.len()
            invariant
                i <= state.available_thinking_levels@.len(),
                thinking_levels@ == state.available_thinking_levels@.take(i as int),
            decreases state.available_thinking_levels@.len() - i,
        {
            thinking_levels.push(state.available_thinking_levels[i]);
            proof {
                assert(thinking_levels@ =~= state.available_thinking_levels@.take(i + 1));
            }
            i = i + 1;
        }
        proof {
            assert(thinking_levels@ =~= state.available_thinking_levels@);
        }
        self.visible = state.selected_project.is_some();
        self.status = state.session_status.duplicate();
        self.permission = state.agent_team_config.default_level;
        self.language = state.language;
        self.models = copy_list(&state.available_models);
        self.selected_model = selected_model;
        self.thinking_level = state.thinking_level;
        self.thinking_levels = thinking_levels;
    }

    /// The row of controls as it is drawn. There is none without a project, because
    /// there is no agent to configure.
    pub fn render(&self) -> (r: Option<ControlsRow>)
        ensures
            match r {
                Some(row) => {
                    &&& self.visible
                    &&& row.permission_flagged == (self.permission == AgentPermissionLevel::Full)
                    &&& row.models_note is Some == (self.models@.len() == 0)
                    &&& row.models_note matches Some(note) ==> note.0@ == note_text(self.status@)
                        && note.1 == self.status@ is Failed
                },
                None => !self.visible,
            },
    {
        if !self.visible {
            return None;
        }
        Some(
            ControlsRow {
                permission_flagged: permission_is_flagged(self.permission),
                models_note: self.models_note(),
            },
        )
    }

    /// What stands in the place of the model picker where there are no models, and
    /// whether it is a failure.
    pub fn models_note(&self) -> (r: Option<(String, bool)>)
        ensures
            match r {
                Some(note) => {
                    &&& self.models@.len() == 0
                    &&& note.0@ == note_text(self.status@)
                    &&& note.1 == self.status@ is Failed
                },
                None => self.models@.len() > 0,
            },
    {
        if self.models.len() > 0 {
            return None;
        }
        let failed = matches!(self.status, SessionStatus::Failed(_));
        Some((models_unavailable_note(&self.status), failed))
    }

    /// The model behind a picked row: the first with its key.
    pub fn model_for(&self, key: &ModelKey) -> (r: Option<ModelOption>)
        ensures
            opt_view(r) == find_first(views(self.models@), |model: ModelView| key_of(model) == key@),
    {
        let ghost all = views(self.models@);
        let ghost f = |model: ModelView| key_of(model) == key@;
        let mut i: usize = 0;
        proof {
            assert(all.skip(0) =~= all);
        }
        while i < self.models.len()
            invariant
                i <= self.models@.len(),
                all == views(self.models@),
                f == (|model: ModelView| key_of(model) == key@),
                find_first(all, f) == find_first(all.skip(i as int), f),
            decreases self.models@.len() - i,
        {
            proof {
                lemma_find_step(all, f, i as int);
            }
            if same(self.models[i].provider.as_str(), key.provider.as_str()) && same(
                self.models[i].id.as_str(),
                key.id.as_str(),
            ) {
                return Some(self.models[i].duplicate());
            }
            i = i + 1;
        }
        None
    }
}

} // verus!
