//! The conversation: which entries it shows, how much of each is revealed, and
//! which of their sections are open.

use vstd::prelude::*;

use crate::chat::message_card::{
    card_of, closed_expansion, flipped, lemma_flip_twice, lemma_merge, merged, render_card, Card,
    ExpansionView, MessageExpansion,
};
use crate::domain::{AppState, ConversationItem, ConversationRole, ItemView, Language};
use crate::keyed::{kept_in, Keyed};
use crate::strings::{is_table, reads, translate};
use crate::text::{blank, has_prefix, is_blank, list_contains, opt_str, same, starts_with};
use crate::typewriter::{
    full_progress, leads_on, progress_of, shown, Progress, Step, Typewriter,
};
use crate::views::{
    lemma_filter_none, lemma_filter_step, lemma_views_push, opt_view, same_list, views, Duplicate,
    Same,
};

verus! {

/// What an entry asks for.
#[derive(Clone, Debug, PartialEq, Eq)]
pub enum ConversationEvent {
    /// Show or hide a tool card's output.
    ToggleToolReport(String),
    /// Show or hide a tool card's raw event data.
    ToggleToolDetails(String),
    /// Show or hide one reasoning section of a reply.
    ToggleThinking { id: String, segment: usize },
    /// Reveal the rest of a streaming reply.
    RevealAll(String),
    /// Fork the session at a prompt.
    ForkAt(String),
    /// Copy a finished reply.
    CopyAssistant(String),
}

/// What a request of an entry holds.
#[verifier::ext_equal]
pub enum EventView {
    ToggleToolReport(Seq<char>),
    ToggleToolDetails(Seq<char>),
    ToggleThinking { id: Seq<char>, segment: usize },
    RevealAll(Seq<char>),
    ForkAt(Seq<char>),
    CopyAssistant(Seq<char>),
}

impl View for ConversationEvent {
    type V = EventView;

    open spec fn view(&self) -> EventView {
        match *self {
            ConversationEvent::ToggleToolReport(id) => EventView::ToggleToolReport(id@),
            ConversationEvent::ToggleToolDetails(id) => EventView::ToggleToolDetails(id@),
            ConversationEvent::ToggleThinking { id, segment } => EventView::ToggleThinking {
                id: id@,
                segment,
            },
            ConversationEvent::RevealAll(id) => EventView::RevealAll(id@),
            ConversationEvent::ForkAt(id) => EventView::ForkAt(id@),
            ConversationEvent::CopyAssistant(id) => EventView::CopyAssistant(id@),
        }
    }
}

/// The key of what the control for a request says. What opens a tool's report says
/// the tool's name instead.
pub open spec fn event_key(event: EventView) -> Option<Seq<char>> {
    match event {
        EventView::ToggleToolReport(_) => None,
        EventView::ToggleToolDetails(_) => Some("raw-tool-details"@),
        EventView::ToggleThinking { .. } => Some("thinking-process"@),
        EventView::RevealAll(_) => Some("show-all"@),
        EventView::ForkAt(_) => Some("fork-here"@),
        EventView::CopyAssistant(_) => Some("copy-report"@),
    }
}

/// Whether `label` is what the control for a request says.
pub open spec fn is_event_label<F: Fn(&'static str, Language) -> &'static str>(
    label: Option<Seq<char>>,
    event: EventView,
    language: Language,
    table: F,
) -> bool {
    match (label, event_key(event)) {
        (Some(words), Some(key)) => reads(table, key, language, words),
        (None, None) => true,
        _ => false,
    }
}

/// What the control for a request says, in the application's own words.
pub fn event_label<F: Fn(&'static str, Language) -> &'static str>(
    event: &ConversationEvent,
    language: Language,
    table: &F,
) -> (r: Option<&'static str>)
    requires
        is_table(*table),
    ensures
        is_event_label(opt_str(r), event@, language, *table),
{
    let key = match event {
        ConversationEvent::ToggleToolReport(_) => {
            return None;
        },
        ConversationEvent::ToggleToolDetails(_) => "raw-tool-details",
        ConversationEvent::ToggleThinking { .. } => "thinking-process",
        ConversationEvent::RevealAll(_) => "show-all",
        ConversationEvent::ForkAt(_) => "fork-here",
        ConversationEvent::CopyAssistant(_) => "copy-report",
    };
    Some(translate(table, key, language))
}

/// Whether an entry is worth a row: it has text, a report or attachments, or is a
/// tool card, which names what is running.
pub open spec fn is_shown(message: ItemView) -> bool {
    !is_blank(message.full_text) || message.tool_report is Some || message.attachments.len() > 0
        || message.role == ConversationRole::Tool
}

/// The entries of the state that are worth a row.
pub fn visible_messages(state: &AppState) -> (r: Vec<ConversationItem>)
    ensures
        views(r@) == views(state.conversation@).filter(|message: ItemView| is_shown(message)),
{
    let ghost all = views(state.conversation@);
    let ghost f = |message: ItemView| is_shown(message);
    let mut kept: Vec<ConversationItem> = Vec::new();
    let mut i: usize = 0;
    proof {
        lemma_filter_none(all, f);
        assert(views(kept@) =~= Seq::empty());
    }
    while i < state.conversation.len()
        invariant
            i <= state.conversation@.len(),
            all == views(state.conversation@),
            f == (|message: ItemView| is_shown(message)),
            views(kept@) == all.take(i as int).filter(f),
        decreases state.conversation@.len() - i,
    {
        proof {
            lemma_filter_step(all, f, i as int);
        }
        let message = &state.conversation[i];
        if !blank(message.full_text.as_str()) || message.tool_report.is_some()
            || message.attachments.len() > 0 || message.role == ConversationRole::Tool {
            let copy = message.duplicate();
            proof {
                lemma_views_push(kept@, copy);
            }
            kept.push(copy);
        }
        i = i + 1;
    }
    proof {
        assert(all.take(i as int) =~= all);
    }
    kept
}

/// The places among the first `n` at which two lists differ.
pub open spec fn changed_before(before: Seq<ItemView>, after: Seq<ItemView>, n: nat) -> Seq<usize>
    decreases n,
{
    if n == 0 {
        Seq::empty()
    } else if before[n - 1] != after[n - 1] {
        changed_before(before, after, (n - 1) as nat).push((n - 1) as usize)
    } else {
        changed_before(before, after, (n - 1) as nat)
    }
}

/// How many places two lists share.
pub open spec fn shared_len(before: Seq<ItemView>, after: Seq<ItemView>) -> nat {
    if before.len() < after.len() {
        before.len()
    } else {
        after.len()
    }
}

/// The places that two lists share at which they differ.
pub open spec fn changed_of(before: Seq<ItemView>, after: Seq<ItemView>) -> Seq<usize> {
    changed_before(before, after, shared_len(before, after))
}

/// The places that two lists share at which they differ.
pub fn changed_message_indices(
    before: &Vec<ConversationItem>,
    after: &Vec<ConversationItem>,
) -> (r: Vec<usize>)
    ensures
        r@ == changed_of(views(before@), views(after@)),
{
    let mut changed: Vec<usize> = Vec::new();
    let mut i: usize = 0;
    while i < before.len() && i < after.len()
        invariant
            i <= before@.len(),
            i <= after@.len(),
            changed@ == changed_before(views(before@), views(after@), i as nat),
        decreases before@.len() - i,
    {
        if !before[i].same_as(&after[i]) {
            changed.push(i);
        }
        i = i + 1;
    }
    changed
}

/// Whether `new` is the entry `old` under another id, while it streams.
pub open spec fn is_renamed(old_item: ItemView, new_item: ItemView) -> bool {
    &&& old_item.id != new_item.id
    &&& old_item.role == new_item.role
    &&& old_item.streaming
    &&& new_item.streaming
    &&& has_prefix(old_item.full_text, new_item.full_text) || has_prefix(
        new_item.full_text,
        old_item.full_text,
    )
}

fn renamed(old_item: &ConversationItem, new_item: &ConversationItem) -> (r: bool)
    ensures
        r == is_renamed(old_item@, new_item@),
{
    !same(old_item.id.as_str(), new_item.id.as_str()) && old_item.role == new_item.role
        && old_item.streaming && new_item.streaming && (starts_with(
        old_item.full_text.as_str(),
        new_item.full_text.as_str(),
    ) || starts_with(new_item.full_text.as_str(), old_item.full_text.as_str()))
}

/// Progress with what one id has moved to another.
pub open spec fn progress_moved(
    progress: Map<Seq<char>, Progress>,
    from: Seq<char>,
    to: Seq<char>,
) -> Map<Seq<char>, Progress> {
    if progress.contains_key(from) {
        progress.remove(from).insert(to, progress[from])
    } else {
        progress
    }
}

/// The open sections of an id.
pub open spec fn expansion_of(expansions: Map<Seq<char>, ExpansionView>, id: Seq<char>) -> ExpansionView {
    if expansions.contains_key(id) {
        expansions[id]
    } else {
        closed_expansion()
    }
}

/// Open sections with what one id has moved to another, beside what is open there.
pub open spec fn expansion_moved(
    expansions: Map<Seq<char>, ExpansionView>,
    from: Seq<char>,
    to: Seq<char>,
) -> Map<Seq<char>, ExpansionView> {
    if expansions.contains_key(from) {
        let rest = expansions.remove(from);
        rest.insert(to, merged(expansion_of(rest, to), expansions[from]))
    } else {
        expansions
    }
}

/// Progress once the renames in the first `n` places are followed.
pub open spec fn progress_followed(
    progress: Map<Seq<char>, Progress>,
    before: Seq<ItemView>,
    after: Seq<ItemView>,
    n: nat,
) -> Map<Seq<char>, Progress>
    decreases n,
{
    if n == 0 {
        progress
    } else {
        let here = progress_followed(progress, before, after, (n - 1) as nat);
        if is_renamed(before[n - 1], after[n - 1]) {
            progress_moved(here, before[n - 1].id, after[n - 1].id)
        } else {
            here
        }
    }
}

/// Open sections once the renames in the first `n` places are followed.
pub open spec fn expansions_followed(
    expansions: Map<Seq<char>, ExpansionView>,
    before: Seq<ItemView>,
    after: Seq<ItemView>,
    n: nat,
) -> Map<Seq<char>, ExpansionView>
    decreases n,
{
    if n == 0 {
        expansions
    } else {
        let here = expansions_followed(expansions, before, after, (n - 1) as nat);
        if is_renamed(before[n - 1], after[n - 1]) {
            expansion_moved(here, before[n - 1].id, after[n - 1].id)
        } else {
            here
        }
    }
}

/// The ids of entries.
pub open spec fn ids_of(messages: Seq<ItemView>) -> Seq<Seq<char>> {
    messages.map_values(|message: ItemView| message.id)
}

/// Progress without that of the first `n` entries, as far as their ids are not
/// kept.
pub open spec fn progress_forgotten(
    progress: Map<Seq<char>, Progress>,
    before: Seq<ItemView>,
    kept: Seq<Seq<char>>,
    n: nat,
) -> Map<Seq<char>, Progress>
    decreases n,
{
    if n == 0 {
        progress
    } else {
        let here = progress_forgotten(progress, before, kept, (n - 1) as nat);
        if kept.contains(before[n - 1].id) {
            here
        } else {
            here.remove(before[n - 1].id)
        }
    }
}

/// What a conversation holds.
#[verifier::ext_equal]
pub struct ConversationView {
    pub messages: Seq<ItemView>,
    /// The open sections by entry.
    pub expansions: Map<Seq<char>, ExpansionView>,
    /// How much of each streaming entry is revealed.
    pub progress: Map<Seq<char>, Progress>,
    /// Whether a project is selected.
    pub has_project: bool,
    pub language: Language,
    /// Whether the agent is at work on a reply.
    pub generating: bool,
    /// Whether a reveal is under way, a step at a time.
    pub revealing: bool,
}

/// A conversation with other entries: what is known of an entry follows it to its
/// new id, and what is known of an entry that left is forgotten.
pub open spec fn with_messages(state: ConversationView, messages: Seq<ItemView>) -> ConversationView {
    let shared = shared_len(state.messages, messages);
    ConversationView {
        messages,
        expansions: kept_in(
            expansions_followed(state.expansions, state.messages, messages, shared),
            ids_of(messages),
        ),
        progress: progress_forgotten(
            progress_followed(state.progress, state.messages, messages, shared),
            state.messages,
            ids_of(messages),
            state.messages.len(),
        ),
        ..state
    }
}

/// A conversation that took other entries. A reveal starts where a streaming entry
/// has text that is not shown yet. The same entries change nothing.
pub open spec fn taken(state: ConversationView, messages: Seq<ItemView>) -> ConversationView {
    if state.messages == messages {
        state
    } else {
        let next = with_messages(state, messages);
        ConversationView { revealing: next.revealing || some_pending(next), ..next }
    }
}

/// What is to be done once a conversation took other entries.
#[derive(Clone, Debug, PartialEq, Eq)]
pub struct Taken {
    /// What a list of rows has to do.
    pub change: ListChange,
    /// Whether a reveal was started, which then goes on step by step.
    pub reveal_started: bool,
}

/// What a list of rows has to do about other entries.
#[derive(Clone, Debug, PartialEq, Eq)]
pub enum ListChange {
    /// Nothing changed.
    Unchanged,
    /// Entries were added behind the others, and some of the others changed.
    Grown { previous: usize, added: usize, remeasured: Vec<usize> },
    /// Entries went away.
    Reset(usize),
}

/// Whether `change` is what a list of rows has to do.
pub open spec fn is_list_change(before: Seq<ItemView>, after: Seq<ItemView>, change: ListChange) -> bool {
    if before == after {
        change is Unchanged
    } else if after.len() >= before.len() {
        &&& change is Grown
        &&& change->previous == before.len()
        &&& change->added == after.len() - before.len()
        &&& change->remeasured@ == changed_of(before, after)
    } else {
        change == ListChange::Reset(after.len() as usize)
    }
}

/// Whether `at` is where the first entry with the id stands, where there is one.
pub open spec fn is_position(messages: Seq<ItemView>, id: Seq<char>, at: Option<usize>) -> bool {
    match at {
        Some(i) => i < messages.len() && messages[i as int].id == id && forall|k: int|
            0 <= k < i ==> (#[trigger] messages[k]).id != id,
        None => forall|k: int| 0 <= k < messages.len() ==> (#[trigger] messages[k]).id != id,
    }
}

/// Whether an entry streams and has text that is not shown yet.
pub open spec fn is_pending(progress: Map<Seq<char>, Progress>, message: ItemView) -> bool {
    message.streaming && shown(progress, message) != message.full_text
}

/// Whether a streaming entry has text that is not shown yet.
pub open spec fn some_pending(view: ConversationView) -> bool {
    exists|i: int|
        0 <= i < view.messages.len() && is_pending(view.progress, #[trigger] view.messages[i])
}

/// The open sections with those of one id changed; nothing is kept of an id with
/// nothing open.
pub open spec fn with_expansion(
    expansions: Map<Seq<char>, ExpansionView>,
    id: Seq<char>,
    expansion: ExpansionView,
) -> Map<Seq<char>, ExpansionView> {
    if expansion == closed_expansion() {
        expansions.remove(id)
    } else {
        expansions.insert(id, expansion)
    }
}

/// The open sections that a map holds.
pub open spec fn expansion_views(expansions: Map<Seq<char>, MessageExpansion>) -> Map<
    Seq<char>,
    ExpansionView,
> {
    expansions.map_values(|expansion: MessageExpansion| expansion@)
}

/// What a conversation draws.
#[derive(Clone, Copy, Debug, PartialEq, Eq, Structural)]
pub enum Canvas {
    /// A heading, and under it the first step to take where there is no project.
    Empty { shows_first_step: bool },
    /// The entries, and a note where a reply is under way.
    Entries { count: usize, generating: bool },
}

/// What a conversation draws.
pub open spec fn canvas_of(view: ConversationView) -> Canvas {
    if view.messages.len() == 0 {
        Canvas::Empty { shows_first_step: !view.has_project }
    } else {
        Canvas::Entries { count: view.messages.len() as usize, generating: view.generating }
    }
}

/// The words of a canvas.
#[derive(Clone, Copy, Debug, PartialEq, Eq)]
pub enum CanvasWords {
    /// The heading of an empty canvas, and the first step to take.
    Empty { heading: &'static str, detail: Option<&'static str> },
    /// The note that a reply is under way.
    Entries { note: Option<&'static str> },
}

/// Whether the words are those of a canvas: the first step where it is shown, and
/// the note where a reply is under way.
pub open spec fn are_words<F: Fn(&'static str, Language) -> &'static str>(
    words: CanvasWords,
    canvas: Canvas,
    language: Language,
    table: F,
) -> bool {
    match (words, canvas) {
        (CanvasWords::Empty { heading, detail }, Canvas::Empty { shows_first_step }) => {
            &&& reads(table, "empty-heading"@, language, heading@)
            &&& match detail {
                Some(detail) => shows_first_step && reads(
                    table,
                    "empty-detail"@,
                    language,
                    detail@,
                ),
                None => !shows_first_step,
            }
        },
        (CanvasWords::Entries { note }, Canvas::Entries { generating, .. }) => match note {
            Some(note) => generating && reads(table, "generating"@, language, note@),
            None => !generating,
        },
        _ => false,
    }
}

/// The scrolling list of conversation entries.
pub struct Conversation {
    messages: Vec<ConversationItem>,
    expansions: Keyed<MessageExpansion>,
    typewriter: Typewriter,
    has_project: bool,
    language: Language,
    generating: bool,
    typewriter_running: bool,
}

impl View for Conversation {
    type V = ConversationView;

    closed spec fn view(&self) -> ConversationView {
        ConversationView {
            messages: views(self.messages@),
            expansions: expansion_views(self.expansions@),
            progress: self.typewriter@,
            has_project: self.has_project,
            language: self.language,
            generating: self.generating,
            revealing: self.typewriter_running,
        }
    }
}

impl Conversation {
    /// Something is open in every entry that is listed with open sections.
    pub closed spec fn wf(&self) -> bool {
        &&& self.expansions.wf()
        &&& self.typewriter.wf()
        &&& forall|id: Seq<char>| #[trigger]
            self.expansions@.contains_key(id) ==> self.expansions@[id]@ != closed_expansion()
    }

    /// A conversation without entries.
    pub fn new() -> (r: Conversation)
        ensures
            r.wf(),
            r@.messages == Seq::<ItemView>::empty(),
            r@.expansions == Map::<Seq<char>, ExpansionView>::empty(),
            r@.progress == Map::<Seq<char>, Progress>::empty(),
            !r@.has_project,
            r@.language == Language::English,
            !r@.generating,
            !r@.revealing,
    {
        let r = Conversation {
            messages: Vec::new(),
            expansions: Keyed::new(),
            typewriter: Typewriter::new(),
            has_project: false,
            language: Language::default(),
            generating: false,
            typewriter_running: false,
        };
        proof {
            assert(r@.messages =~= Seq::empty());
            assert(r@.expansions =~= Map::empty());
        }
        r
    }

    /// Every entry that is listed with open sections has something open.
    pub proof fn lemma_nothing_closed_is_kept(&self, id: Seq<char>)
        requires
            self.wf(),
            self@.expansions.contains_key(id),
        ensures
            self@.expansions[id] != closed_expansion(),
    {
        assert(self.expansions@.contains_key(id));
    }

    /// Moves the open sections of one id to another.
    fn rekey_expansion(&mut self, from: &str, to: &str)
        requires
            old(self).wf(),
        ensures
            final(self).wf(),
            final(self)@ == (ConversationView {
                expansions: expansion_moved(old(self)@.expansions, from@, to@),
                ..old(self)@
            }),
    {
        let ghost before = self@.expansions;
        let ghost held = self.expansions@;
        if let Some(moved) = self.expansions.remove(from) {
            let ghost rest = expansion_views(self.expansions@);
            proof {
                assert(rest =~= before.remove(from@));
                assert(held[from@]@ != closed_expansion());
            }
            let mut expansion = match self.expansions.remove(to) {
                Some(expansion) => expansion,
                None => MessageExpansion::new(),
            };
            proof {
                if held.remove(from@).contains_key(to@) {
                    assert(held.contains_key(to@));
                }
                assert(expansion@ == expansion_of(rest, to@));
            }
            expansion.merge(moved);
            proof {
                let all = merged(expansion_of(rest, to@), moved@);
                if all == closed_expansion() {
                    assert(moved@.thinking =~= Set::empty()) by {
                        assert forall|x: usize| !moved@.thinking.contains(x) by {
                            if moved@.thinking.contains(x) {
                                assert(all.thinking.contains(x));
                            }
                        }
                    }
                    assert(false);
                }
            }
            self.expansions.insert(to.to_owned(), expansion);
            proof {
                assert(self@.expansions =~= expansion_moved(before, from@, to@));
                assert forall|id: Seq<char>| #[trigger]
                    self.expansions@.contains_key(id) implies self.expansions@[id]@
                    != closed_expansion() by {
                    if id != to@ {
                        assert(held.contains_key(id));
                    }
                }
            }
        } else {
            proof {
                assert(self.expansions@ =~= held);
                assert(self@.expansions =~= before);
            }
        }
    }

    /// Takes the entries of the state. What is known of an entry follows it to its
    /// new id, and what is known of an entry that left is forgotten. A reveal starts
    /// where there is text to reveal and none is under way. Returns what a list of
    /// rows has to do, and whether a reveal was started.
    pub fn set_messages(&mut self, messages: Vec<ConversationItem>) -> (r: Taken)
        requires
            old(self).wf(),
        ensures
            final(self).wf(),
            final(self)@ == taken(old(self)@, views(messages@)),
            is_list_change(old(self)@.messages, views(messages@), r.change),
            r.reveal_started == (final(self)@.revealing && !old(self)@.revealing),
    {
        if same_list(&self.messages, &messages) {
            return Taken { change: ListChange::Unchanged, reveal_started: false };
        }
        let ghost start = self@;
        let ghost before = views(self.messages@);
        let ghost after = views(messages@);
        let previous: usize = self.messages.len();
        let next: usize = messages.len();
        let changed = changed_message_indices(&self.messages, &messages);

        let mut i: usize = 0;
        while i < previous && i < next
            invariant
                self.wf(),
                i <= previous == before.len(),
                i <= next == after.len(),
                before == views(self.messages@),
                after == views(messages@),
                before == start.messages,
                self@ == (ConversationView {
                    messages: before,
                    expansions: expansions_followed(start.expansions, before, after, i as nat),
                    progress: progress_followed(start.progress, before, after, i as nat),
                    ..start
                }),
            decreases previous - i,
        {
            proof {
                assert(before[i as int] == self.messages@[i as int]@);
                assert(after[i as int] == messages@[i as int]@);
            }
            if renamed(&self.messages[i], &messages[i]) {
                let from = self.messages[i].id.clone();
                self.typewriter.rekey(from.as_str(), messages[i].id.as_str());
                self.rekey_expansion(from.as_str(), messages[i].id.as_str());
            }
            i = i + 1;
        }

        let mut ids: Vec<String> = Vec::new();
        let mut i: usize = 0;
        while i < next
            invariant
                i <= next == messages@.len(),
                after == views(messages@),
                views(ids@) == ids_of(after).take(i as int),
            decreases next - i,
        {
            let id = messages[i].id.clone();
            proof {
                lemma_views_push(ids@, id);
                assert(ids_of(after).take(i + 1) =~= ids_of(after).take(i as int).push(id@));
            }
            ids.push(id);
            i = i + 1;
        }
        proof {
            assert(ids_of(after).take(i as int) =~= ids_of(after));
        }

        let ghost followed = self@;
        let mut i: usize = 0;
        while i < previous
            invariant
                self.wf(),
                i <= previous == before.len(),
                before == views(self.messages@),
                views(ids@) == ids_of(after),
                self@ == (ConversationView {
                    progress: progress_forgotten(
                        followed.progress,
                        before,
                        ids_of(after),
                        i as nat,
                    ),
                    ..followed
                }),
            decreases previous - i,
        {
            proof {
                assert(before[i as int] == self.messages@[i as int]@);
            }
            if !list_contains(&ids, self.messages[i].id.as_str()) {
                let id = self.messages[i].id.clone();
                self.typewriter.forget(id.as_str());
            }
            i = i + 1;
        }
        let ghost held = self.expansions@;
        self.expansions.retain_in(&ids);
        proof {
            assert(expansion_views(self.expansions@) =~= kept_in(
                expansion_views(held),
                ids_of(after),
            ));
            assert forall|id: Seq<char>| #[trigger]
                self.expansions@.contains_key(id) implies self.expansions@[id]@
                    != closed_expansion() by {
                assert(held.contains_key(id));
            }
        }
        self.messages = messages;
        proof {
            assert(self@ =~= with_messages(start, after));
        }
        let reveal_started = self.start_typewriter();
        let change = if next >= previous {
            ListChange::Grown { previous, added: next - previous, remeasured: changed }
        } else {
            ListChange::Reset(next)
        };
        Taken { change, reveal_started }
    }

    /// Drops everything.
    pub fn clear(&mut self)
        ensures
            final(self).wf(),
            final(self)@ == (ConversationView {
                messages: Seq::empty(),
                expansions: Map::empty(),
                progress: Map::empty(),
                ..old(self)@
            }),
    {
        self.messages = Vec::new();
        self.expansions.clear();
        self.typewriter.clear();
        proof {
            assert(self@.messages =~= Seq::empty());
            assert(self@.expansions =~= Map::empty());
        }
    }

    /// Where the first entry with the id stands.
    fn position(&self, id: &str) -> (r: Option<usize>)
        ensures
            is_position(self@.messages, id@, r),
    {
        let ghost all = self@.messages;
        let mut i: usize = 0;
        while i < self.messages.len()
            invariant
                i <= self.messages@.len(),
                all == views(self.messages@),
                all == self@.messages,
                forall|k: int| 0 <= k < i ==> (#[trigger] all[k]).id != id@,
            decreases self.messages@.len() - i,
        {
            proof {
                assert(all[i as int] == self.messages@[i as int]@);
            }
            if same(self.messages[i].id.as_str(), id) {
                return Some(i);
            }
            i = i + 1;
        }
        None
    }

    /// Reveals a moment more of each streaming entry. `pace` says what the moment is
    /// worth to an entry, from the fraction that it carries and how many clusters of
    /// it are not revealed yet. Says whether anything became visible.
    pub fn advance_typewriter<F: Fn(u32, usize) -> Step>(&mut self, pace: &F) -> (r: bool)
        requires
            old(self).wf(),
            forall|credit: u32, backlog: usize| call_requires(*pace, (credit, backlog)),
        ensures
            final(self).wf(),
            final(self)@ == (ConversationView { progress: final(self)@.progress, ..old(self)@ }),
            leads_on(
                *pace,
                old(self)@.messages,
                old(self)@.progress,
                final(self)@.progress,
                r,
            ),
    {
        self.typewriter.advance(self.messages.as_slice(), pace)
    }

    /// Starts a reveal where there is text to reveal and none is under way. Says
    /// whether one was started.
    pub fn start_typewriter(&mut self) -> (r: bool)
        requires
            old(self).wf(),
        ensures
            final(self).wf(),
            r == (some_pending(old(self)@) && !old(self)@.revealing),
            final(self)@ == (ConversationView {
                revealing: old(self)@.revealing || some_pending(old(self)@),
                ..old(self)@
            }),
    {
        if self.typewriter_running || !self.has_unrevealed_streaming() {
            return false;
        }
        self.typewriter_running = true;
        true
    }

    /// Takes a step of the reveal that is under way. Says whether it goes on; it is
    /// over once there is nothing left to reveal.
    pub fn reveal_step<F: Fn(u32, usize) -> Step>(&mut self, pace: &F) -> (r: bool)
        requires
            old(self).wf(),
            forall|credit: u32, backlog: usize| call_requires(*pace, (credit, backlog)),
        ensures
            final(self).wf(),
            final(self)@ == (ConversationView {
                progress: final(self)@.progress,
                revealing: old(self)@.revealing && r,
                ..old(self)@
            }),
            exists|revealed: bool| #[trigger]
                leads_on(
                    *pace,
                    old(self)@.messages,
                    old(self)@.progress,
                    final(self)@.progress,
                    revealed,
                ),
            r == some_pending(final(self)@),
    {
        let revealed = self.advance_typewriter(pace);
        proof {
            assert(leads_on(
                *pace,
                old(self)@.messages,
                old(self)@.progress,
                self@.progress,
                revealed,
            ));
        }
        let goes_on = self.has_unrevealed_streaming();
        let ghost here = self@;
        if !goes_on {
            self.typewriter_running = false;
        }
        proof {
            assert(self@.messages == here.messages && self@.progress == here.progress);
            assert(some_pending(self@) == some_pending(here));
        }
        goes_on
    }

    /// Whether a streaming entry has text that is not shown yet.
    pub fn has_unrevealed_streaming(&self) -> (r: bool)
        requires
            self.wf(),
        ensures
            r == some_pending(self@),
    {
        let ghost all = self@.messages;
        let mut i: usize = 0;
        while i < self.messages.len()
            invariant
                self.wf(),
                i <= self.messages@.len(),
                all == views(self.messages@),
                all == self@.messages,
                forall|k: int| 0 <= k < i ==> !is_pending(self@.progress, #[trigger] all[k]),
            decreases self.messages@.len() - i,
        {
            proof {
                assert(all[i as int] == self.messages@[i as int]@);
            }
            if self.is_pending_at(i) {
                proof {
                    assert(is_pending(self@.progress, self@.messages[i as int]));
                }
                return true;
            }
            i = i + 1;
        }
        false
    }

    fn is_pending_at(&self, i: usize) -> (r: bool)
        requires
            self.wf(),
            i < self@.messages.len(),
        ensures
            r == is_pending(self@.progress, self@.messages[i as int]),
    {
        let message = &self.messages[i];
        message.streaming && !same(
            self.typewriter.visible_text(message).as_str(),
            message.full_text.as_str(),
        )
    }

    /// The text of an entry to show.
    pub fn visible_text(&self, index: usize) -> (r: String)
        requires
            self.wf(),
            index < self@.messages.len(),
        ensures
            r@ == shown(self@.progress, self@.messages[index as int]),
    {
        self.typewriter.visible_text(&self.messages[index])
    }

    /// Reveals a streaming entry in full, the first one with the id. Returns where
    /// it stands.
    pub fn reveal_all(&mut self, id: &str) -> (r: Option<usize>)
        requires
            old(self).wf(),
        ensures
            final(self).wf(),
            is_position(old(self)@.messages, id@, r),
            final(self)@ == match r {
                Some(i) => (ConversationView {
                    progress: old(self)@.progress.insert(
                        id@,
                        full_progress(old(self)@.messages[i as int]),
                    ),
                    ..old(self)@
                }),
                None => old(self)@,
            },
            match r {
                Some(i) => !is_pending(final(self)@.progress, final(self)@.messages[i as int]),
                None => true,
            },
    {
        let found = self.position(id);
        if let Some(i) = found {
            self.typewriter.reveal_all(&self.messages[i]);
        }
        found
    }

    /// Reveals the newest streaming entry that has text left to show. Says whether
    /// there was one.
    pub fn reveal_latest(&mut self) -> (r: bool)
        requires
            old(self).wf(),
        ensures
            final(self).wf(),
            r == some_pending(old(self)@),
            !r ==> final(self)@ == old(self)@,
            r ==> exists|i: int, at: usize|
                #![trigger old(self)@.messages[i], is_position(old(self)@.messages, old(self)@.messages[i].id, Some(at))]
                {
                    &&& 0 <= i < old(self)@.messages.len()
                    &&& is_pending(old(self)@.progress, old(self)@.messages[i])
                    &&& forall|k: int|
                        i < k < old(self)@.messages.len() ==> !is_pending(
                            old(self)@.progress,
                            #[trigger] old(self)@.messages[k],
                        )
                    &&& is_position(old(self)@.messages, old(self)@.messages[i].id, Some(at))
                    &&& final(self)@ == (ConversationView {
                        progress: old(self)@.progress.insert(
                            old(self)@.messages[i].id,
                            full_progress(old(self)@.messages[at as int]),
                        ),
                        ..old(self)@
                    })
                },
    {
        let ghost all = self@.messages;
        let mut i: usize = self.messages.len();
        while i > 0
            invariant
                self.wf(),
                *self == *old(self),
                i <= self.messages@.len(),
                all == views(self.messages@),
                all == self@.messages,
                forall|k: int|
                    i <= k < all.len() ==> !is_pending(self@.progress, #[trigger] all[k]),
            decreases i,
        {
            i = i - 1;
            proof {
                assert(all[i as int] == self.messages@[i as int]@);
            }
            if self.is_pending_at(i) {
                let id = self.messages[i].id.clone();
                proof {
                    assert(is_pending(old(self)@.progress, old(self)@.messages[i as int]));
                }
                let found = self.reveal_all(id.as_str());
                proof {
                    assert(is_position(all, all[i as int].id, found));
                    assert(found is Some);
                }
                return true;
            }
        }
        false
    }

    /// Whether a tool card's output is open.
    pub fn is_tool_report_expanded(&self, id: &str) -> (r: bool)
        requires
            self.wf(),
        ensures
            r == expansion_of(self@.expansions, id@).tool_report,
    {
        match self.expansions.get(id) {
            Some(expansion) => expansion.tool_report,
            None => false,
        }
    }

    /// Whether a tool card's raw event data is open.
    pub fn is_tool_details_expanded(&self, id: &str) -> (r: bool)
        requires
            self.wf(),
        ensures
            r == expansion_of(self@.expansions, id@).tool_details,
    {
        match self.expansions.get(id) {
            Some(expansion) => expansion.tool_details,
            None => false,
        }
    }

    /// Whether a reasoning section is open.
    pub fn is_thinking_expanded(&self, id: &str, segment: usize) -> (r: bool)
        requires
            self.wf(),
        ensures
            r == expansion_of(self@.expansions, id@).thinking.contains(segment),
    {
        match self.expansions.get(id) {
            Some(expansion) => expansion.is_open(segment),
            None => false,
        }
    }

    /// Whether anything is open in an entry.
    pub fn is_expanded(&self, id: &str) -> (r: bool)
        requires
            self.wf(),
        ensures
            r == self@.expansions.contains_key(id@),
    {
        self.expansions.contains_key(id)
    }

    /// Takes the open sections of an entry out.
    fn take_expansion(&mut self, id: &str) -> (r: MessageExpansion)
        requires
            old(self).wf(),
        ensures
            final(self).wf(),
            r@ == expansion_of(old(self)@.expansions, id@),
            final(self)@ == (ConversationView {
                expansions: old(self)@.expansions.remove(id@),
                ..old(self)@
            }),
    {
        let ghost held = self.expansions@;
        let r = match self.expansions.remove(id) {
            Some(expansion) => expansion,
            None => MessageExpansion::new(),
        };
        proof {
            assert(self@.expansions =~= old(self)@.expansions.remove(id@));
            assert forall|k: Seq<char>| #[trigger]
                self.expansions@.contains_key(k) implies self.expansions@[k]@
                    != closed_expansion() by {
                assert(held.contains_key(k));
            }
        }
        r
    }

    /// Puts the open sections of an entry back, where there are any.
    fn put_expansion(&mut self, id: &str, expansion: MessageExpansion)
        requires
            old(self).wf(),
        ensures
            final(self).wf(),
            final(self)@ == (ConversationView {
                expansions: if expansion@ == closed_expansion() {
                    old(self)@.expansions
                } else {
                    old(self)@.expansions.insert(id@, expansion@)
                },
                ..old(self)@
            }),
    {
        let ghost held = self.expansions@;
        if !expansion.is_empty() {
            self.expansions.insert(id.to_owned(), expansion);
            proof {
                assert(self@.expansions =~= old(self)@.expansions.insert(id@, expansion@));
                assert forall|k: Seq<char>| #[trigger]
                    self.expansions@.contains_key(k) implies self.expansions@[k]@
                    != closed_expansion() by {
                    if k != id@ {
                        assert(held.contains_key(k));
                    }
                }
            }
        }
    }

    /// Shows or hides a tool card's output. Returns where the entry stands.
    pub fn toggle_tool_report(&mut self, id: &str) -> (r: Option<usize>)
        requires
            old(self).wf(),
        ensures
            final(self).wf(),
            final(self)@ == (ConversationView {
                expansions: with_expansion(
                    old(self)@.expansions,
                    id@,
                    report_flipped(expansion_of(old(self)@.expansions, id@)),
                ),
                ..old(self)@
            }),
            is_position(old(self)@.messages, id@, r),
    {
        let mut expansion = self.take_expansion(id);
        expansion.tool_report = !expansion.tool_report;
        self.put_expansion(id, expansion);
        proof {
            let before = old(self)@.expansions;
            assert(before.remove(id@).insert(id@, expansion@) =~= before.insert(id@, expansion@));
        }
        self.position(id)
    }

    /// Shows or hides a tool card's raw event data. Returns where the entry stands.
    pub fn toggle_tool_details(&mut self, id: &str) -> (r: Option<usize>)
        requires
            old(self).wf(),
        ensures
            final(self).wf(),
            final(self)@ == (ConversationView {
                expansions: with_expansion(
                    old(self)@.expansions,
                    id@,
                    details_flipped(expansion_of(old(self)@.expansions, id@)),
                ),
                ..old(self)@
            }),
            is_position(old(self)@.messages, id@, r),
    {
        let mut expansion = self.take_expansion(id);
        expansion.tool_details = !expansion.tool_details;
        self.put_expansion(id, expansion);
        proof {
            let before = old(self)@.expansions;
            assert(before.remove(id@).insert(id@, expansion@) =~= before.insert(id@, expansion@));
        }
        self.position(id)
    }

    /// Shows or hides a reasoning section. Returns where the entry stands.
    pub fn toggle_thinking(&mut self, id: &str, segment: usize) -> (r: Option<usize>)
        requires
            old(self).wf(),
        ensures
            final(self).wf(),
            final(self)@ == (ConversationView {
                expansions: with_expansion(
                    old(self)@.expansions,
                    id@,
                    thinking_flipped(expansion_of(old(self)@.expansions, id@), segment),
                ),
                ..old(self)@
            }),
            is_position(old(self)@.messages, id@, r),
    {
        let mut expansion = self.take_expansion(id);
        expansion.flip(segment);
        self.put_expansion(id, expansion);
        proof {
            let before = old(self)@.expansions;
            assert(before.remove(id@).insert(id@, expansion@) =~= before.insert(id@, expansion@));
        }
        self.position(id)
    }

    /// The open sections of an entry.
    pub fn expansion(&self, id: &str) -> (r: MessageExpansion)
        requires
            self.wf(),
        ensures
            r@ == expansion_of(self@.expansions, id@),
    {
        match self.expansions.get(id) {
            Some(expansion) => expansion.copy(),
            None => MessageExpansion::new(),
        }
    }

    /// Takes a language. Says whether it is another one.
    pub fn set_language(&mut self, language: Language) -> (r: bool)
        requires
            old(self).wf(),
        ensures
            final(self).wf(),
            final(self)@ == (ConversationView { language, ..old(self)@ }),
            r == (old(self)@.language != language),
    {
        let changed = self.language != language;
        self.language = language;
        changed
    }

    /// Takes whether a project is selected. Says whether that is news.
    pub fn set_has_project(&mut self, has_project: bool) -> (r: bool)
        requires
            old(self).wf(),
        ensures
            final(self).wf(),
            final(self)@ == (ConversationView { has_project, ..old(self)@ }),
            r == (old(self)@.has_project != has_project),
    {
        let changed = self.has_project != has_project;
        self.has_project = has_project;
        changed
    }

    /// Takes whether the agent is at work on a reply. Says whether that is news.
    pub fn set_generating(&mut self, generating: bool) -> (r: bool)
        requires
            old(self).wf(),
        ensures
            final(self).wf(),
            final(self)@ == (ConversationView { generating, ..old(self)@ }),
            r == (old(self)@.generating != generating),
    {
        let changed = self.generating != generating;
        self.generating = generating;
        changed
    }

    /// What the conversation draws: its entries, with a note where a reply is under
    /// way, or what stands in the place of entries.
    pub fn render(&self) -> (r: Canvas)
        ensures
            r == canvas_of(self@),
    {
        if self.messages.len() == 0 {
            Canvas::Empty { shows_first_step: !self.has_project }
        } else {
            Canvas::Entries { count: self.messages.len(), generating: self.generating }
        }
    }

    /// The words of what the conversation draws besides its entries.
    pub fn render_words<F: Fn(&'static str, Language) -> &'static str>(&self, table: &F) -> (r:
        CanvasWords)
        requires
            is_table(*table),
        ensures
            are_words(r, canvas_of(self@), self@.language, *table),
    {
        match self.render() {
            Canvas::Empty { shows_first_step } => CanvasWords::Empty {
                heading: translate(table, "empty-heading", self.language),
                detail: if shows_first_step {
                    Some(translate(table, "empty-detail", self.language))
                } else {
                    None
                },
            },
            Canvas::Entries { generating, .. } => CanvasWords::Entries {
                note: if generating {
                    Some(translate(table, "generating", self.language))
                } else {
                    None
                },
            },
        }
    }

    /// An entry as it is drawn, where there is one in the place. `arguments` is what
    /// a tool's arguments say, where they say anything.
    pub fn render_entry(&self, index: usize, arguments: Option<String>) -> (r: Option<Card>)
        requires
            self.wf(),
        ensures
            opt_view(r) == if index < self@.messages.len() {
                let message = self@.messages[index as int];
                Some(
                    card_of(
                        message,
                        shown(self@.progress, message),
                        expansion_of(self@.expansions, message.id),
                        opt_view(arguments),
                    ),
                )
            } else {
                None
            },
    {
        if index >= self.messages.len() {
            return None;
        }
        let message = &self.messages[index];
        let visible = self.typewriter.visible_text(message);
        let expansion = self.expansion(message.id.as_str());
        Some(render_card(message, visible.as_str(), &expansion, arguments))
    }

    /// Whether showing the newest entry has anything to show.
    pub fn scroll_to_latest(&self) -> (r: bool)
        ensures
            r == (self@.messages.len() > 0),
    {
        self.messages.len() > 0
    }

    /// The entries.
    pub fn messages(&self) -> (r: &Vec<ConversationItem>)
        ensures
            views(r@) == self@.messages,
    {
        &self.messages
    }
}

/// Open sections with the output shown or hidden.
pub open spec fn report_flipped(expansion: ExpansionView) -> ExpansionView {
    ExpansionView { tool_report: !expansion.tool_report, ..expansion }
}

/// Open sections with the raw event data shown or hidden.
pub open spec fn details_flipped(expansion: ExpansionView) -> ExpansionView {
    ExpansionView { tool_details: !expansion.tool_details, ..expansion }
}

/// Open sections with a reasoning section shown or hidden.
pub open spec fn thinking_flipped(expansion: ExpansionView, segment: usize) -> ExpansionView {
    ExpansionView { thinking: flipped(expansion.thinking, segment), ..expansion }
}

/// Each section opens and closes by itself, and closing what was opened leaves
/// things as they were.
pub proof fn lemma_sections_are_independent(expansion: ExpansionView, segment: usize, other: usize)
    ensures
        report_flipped(report_flipped(expansion)) == expansion,
        details_flipped(details_flipped(expansion)) == expansion,
        thinking_flipped(thinking_flipped(expansion, segment), segment) == expansion,
        report_flipped(expansion).tool_details == expansion.tool_details,
        report_flipped(expansion).thinking == expansion.thinking,
        details_flipped(expansion).tool_report == expansion.tool_report,
        details_flipped(expansion).thinking == expansion.thinking,
        segment != other ==> (thinking_flipped(expansion, segment).thinking.contains(other)
            <==> expansion.thinking.contains(other)),
{
    lemma_flip_twice(expansion.thinking, segment);
}

proof fn lemma_forgotten(
    progress: Map<Seq<char>, Progress>,
    before: Seq<ItemView>,
    kept: Seq<Seq<char>>,
    n: nat,
    id: Seq<char>,
)
    requires
        n <= before.len(),
        !kept.contains(id),
        exists|i: int| 0 <= i < n && (#[trigger] before[i]).id == id,
    ensures
        !progress_forgotten(progress, before, kept, n).contains_key(id),
    decreases n,
{
    if before[n - 1].id != id {
        let i = choose|i: int| 0 <= i < n && (#[trigger] before[i]).id == id;
        assert(0 <= i < n - 1);
        lemma_forgotten(progress, before, kept, (n - 1) as nat, id);
    }
}

/// Nothing is remembered of an entry that left the conversation.
pub proof fn lemma_gone_entry_is_forgotten(
    state: ConversationView,
    messages: Seq<ItemView>,
    gone: int,
)
    requires
        0 <= gone < state.messages.len(),
        forall|k: int|
            0 <= k < messages.len() ==> (#[trigger] messages[k]).id != state.messages[gone].id,
    ensures
        !taken(state, messages).expansions.contains_key(state.messages[gone].id),
        !taken(state, messages).progress.contains_key(state.messages[gone].id),
{
    let id = state.messages[gone].id;
    if state.messages == messages {
        assert(messages[gone].id != id);
    }
    assert(!ids_of(messages).contains(id)) by {
        if ids_of(messages).contains(id) {
            let k = choose|k: int| 0 <= k < ids_of(messages).len() && ids_of(messages)[k] == id;
            assert(messages[k].id == id);
        }
    }
    lemma_forgotten(
        progress_followed(
            state.progress,
            state.messages,
            messages,
            shared_len(state.messages, messages),
        ),
        state.messages,
        ids_of(messages),
        state.messages.len(),
        id,
    );
}

/// Whether the entry in place `i` is the only one that its old id and its new id
/// belong to.
pub open spec fn is_sole_rename(before: Seq<ItemView>, after: Seq<ItemView>, i: int) -> bool {
    &&& 0 <= i < before.len()
    &&& i < after.len()
    &&& is_renamed(before[i], after[i])
    &&& forall|j: int|
        0 <= j < before.len() && j != i ==> (#[trigger] before[j]).id != before[i].id
            && before[j].id != after[i].id
    &&& forall|j: int|
        0 <= j < after.len() && j != i ==> (#[trigger] after[j]).id != before[i].id && after[j].id
            != after[i].id
}

proof fn lemma_followed(state: ConversationView, after: Seq<ItemView>, i: int, n: nat)
    requires
        is_sole_rename(state.messages, after, i),
        !state.progress.contains_key(after[i].id),
        !state.expansions.contains_key(after[i].id),
        n <= shared_len(state.messages, after),
    ensures
        ({
            let from = state.messages[i].id;
            let to = after[i].id;
            let here = if n <= i {
                from
            } else {
                to
            };
            let gone = if n <= i {
                to
            } else {
                from
            };
            let progress = progress_followed(state.progress, state.messages, after, n);
            let expansions = expansions_followed(state.expansions, state.messages, after, n);
            &&& progress_of(progress, here) == progress_of(state.progress, from)
            &&& !progress.contains_key(gone)
            &&& expansion_of(expansions, here) == expansion_of(state.expansions, from)
            &&& !expansions.contains_key(gone)
        }),
    decreases n,
{
    if n > 0 {
        lemma_followed(state, after, i, (n - 1) as nat);
        let k = n - 1;
        let expansions = expansions_followed(
            state.expansions,
            state.messages,
            after,
            (n - 1) as nat,
        );
        if k == i {
            let from = state.messages[i].id;
            if expansions.contains_key(from) {
                lemma_merge(closed_expansion(), expansions[from]);
                lemma_merge(expansions[from], closed_expansion());
            }
        } else {
            assert(state.messages[k].id != state.messages[i].id);
            assert(after[k].id != after[i].id);
        }
    }
}

proof fn lemma_kept_is_not_forgotten(
    progress: Map<Seq<char>, Progress>,
    before: Seq<ItemView>,
    kept: Seq<Seq<char>>,
    n: nat,
    id: Seq<char>,
)
    requires
        n <= before.len(),
        kept.contains(id),
    ensures
        progress_of(progress_forgotten(progress, before, kept, n), id) == progress_of(progress, id),
    decreases n,
{
    if n > 0 {
        lemma_kept_is_not_forgotten(progress, before, kept, (n - 1) as nat, id);
    }
}

/// A reveal is under way whenever new entries leave text to reveal. One that was
/// under way goes on, and none starts where there is nothing to reveal.
pub proof fn lemma_new_text_is_revealed(state: ConversationView, messages: Seq<ItemView>)
    requires
        state.messages != messages,
    ensures
        some_pending(taken(state, messages)) ==> taken(state, messages).revealing,
        state.revealing ==> taken(state, messages).revealing,
        !state.revealing && !some_pending(taken(state, messages)) ==> !taken(
            state,
            messages,
        ).revealing,
{
    let next = with_messages(state, messages);
    let after = taken(state, messages);
    assert(after.messages == next.messages && after.progress == next.progress);
    assert(some_pending(after) == some_pending(next));
}

/// A reply that gets its real id while it streams keeps what is revealed of it and
/// which of its sections are open, and nothing stays behind under its old id.
pub proof fn lemma_rename_keeps_progress(state: ConversationView, after: Seq<ItemView>, i: int)
    requires
        is_sole_rename(state.messages, after, i),
        !state.progress.contains_key(after[i].id),
        !state.expansions.contains_key(after[i].id),
    ensures
        ({
            let next = taken(state, after);
            &&& progress_of(next.progress, after[i].id) == progress_of(
                state.progress,
                state.messages[i].id,
            )
            &&& expansion_of(next.expansions, after[i].id) == expansion_of(
                state.expansions,
                state.messages[i].id,
            )
            &&& !next.expansions.contains_key(state.messages[i].id)
            &&& !next.progress.contains_key(state.messages[i].id)
        }),
{
    let from = state.messages[i].id;
    let to = after[i].id;
    assert(from != to);
    let shared = shared_len(state.messages, after);
    lemma_followed(state, after, i, shared);
    assert(ids_of(after)[i] == to);
    assert(ids_of(after).contains(to));
    lemma_kept_is_not_forgotten(
        progress_followed(state.progress, state.messages, after, shared),
        state.messages,
        ids_of(after),
        state.messages.len(),
        to,
    );
    assert forall|k: int| 0 <= k < after.len() implies (#[trigger] after[k]).id != from by {
        if k != i {
            assert(after[k].id != from);
        }
    }
    lemma_gone_entry_is_forgotten(state, after, i);
}

} // verus!
