//! One conversation entry: what its parts are, and what it offers to do.
//!
//! Reasoning arrives inside the assistant's text between `<thinking>` tags and is
//! shown as sections that open and close by themselves.

use std::collections::HashSet;

use vstd::prelude::*;
use vstd::std_specs::hash::spec_hash_keys_iter;
use vstd::std_specs::iter::IteratorSpec;
use vstd::string::*;
use vstd::utf8::{encode_utf8, encode_utf8_valid_utf8, is_char_boundary_start_end_of_seq};

use crate::chat::conversation::{event_label, is_event_label, ConversationEvent, EventView};
use crate::chat::tool_card::{card_of as tool_card_of, tool_card, ToolCard, ToolCardView};
use crate::chrome::icons::{role, IconName};
use crate::domain::{
    Attachment, AttachmentView, ConversationItem, ConversationRole, ItemView, Language,
};
use crate::strings::is_table;
use crate::text::{
    blank, byte_slice, is_blank, lemma_chars_before, opt_str, same, slice_of, trim, trim_end, trimmed,
    trimmed_end,
};
use crate::thinking::{
    lemma_segments_are_cut_at_characters, lemma_segments_are_ordered, segment_end, segment_start,
    segment_views, segments_from, split_thinking_segments, Segment, SegmentView,
};
use crate::views::{lemma_views_push, opt_view, views};

verus! {

broadcast use vstd::std_specs::hash::group_hash_axioms;

/// The sections of one message that open and close by themselves.
#[derive(Debug, PartialEq, Eq)]
pub struct MessageExpansion {
    pub tool_report: bool,
    pub tool_details: bool,
    /// The reasoning sections that are open.
    pub thinking: HashSet<usize>,
}

/// Which sections are open.
#[verifier::ext_equal]
pub struct ExpansionView {
    pub tool_report: bool,
    pub tool_details: bool,
    pub thinking: Set<usize>,
}

impl View for MessageExpansion {
    type V = ExpansionView;

    open spec fn view(&self) -> ExpansionView {
        ExpansionView {
            tool_report: self.tool_report,
            tool_details: self.tool_details,
            thinking: self.thinking@,
        }
    }
}

/// Nothing is open.
pub open spec fn closed_expansion() -> ExpansionView {
    ExpansionView { tool_report: false, tool_details: false, thinking: Set::empty() }
}

/// Whatever is open in one of the two.
pub open spec fn merged(a: ExpansionView, b: ExpansionView) -> ExpansionView {
    ExpansionView {
        tool_report: a.tool_report || b.tool_report,
        tool_details: a.tool_details || b.tool_details,
        thinking: a.thinking.union(b.thinking),
    }
}

/// The open sections with one of them opened or closed.
pub open spec fn flipped(open: Set<usize>, segment: usize) -> Set<usize> {
    if open.contains(segment) {
        open.remove(segment)
    } else {
        open.insert(segment)
    }
}

/// Opens every section of `more`.
fn open_all(open: &mut HashSet<usize>, more: &HashSet<usize>)
    ensures
        final(open)@ == old(open)@.union(more@),
{
    let ghost before = open@;
    let ghost all = spec_hash_keys_iter(more).remaining().unref();
    for segment in it: more.iter()
        invariant
            it.seq().unref() == all,
            forall|x: usize| #[trigger]
                open@.contains(x) <==> before.contains(x) || all.take(
                    it.index() as int,
                ).contains(x),
    {
        let ghost front = all.take(it.index() as int);
        let ghost next = all.take(it.index() + 1);
        proof {
            assert(next =~= front.push(*segment));
            assert forall|x: usize| next.contains(x) <==> front.contains(x) || x == *segment by {
                if front.contains(x) {
                    let k = choose|k: int| 0 <= k < front.len() && front[k] == x;
                    assert(next[k] == x);
                }
                if x == *segment {
                    assert(next[front.len() as int] == x);
                }
            }
        }
        open.insert(*segment);
    }
    proof {
        assert(all.take(all.len() as int) =~= all);
        assert forall|x: usize| all.contains(x) <==> more@.contains(x) by {
            assert(all.to_set() == more@);
        }
        assert(open@ =~= before.union(more@));
    }
}

impl MessageExpansion {
    /// Nothing is open.
    pub fn new() -> (r: MessageExpansion)
        ensures
            r@ == closed_expansion(),
    {
        MessageExpansion { tool_report: false, tool_details: false, thinking: HashSet::new() }
    }

    /// Whether a reasoning section is open.
    pub fn is_open(&self, segment: usize) -> (r: bool)
        ensures
            r == self@.thinking.contains(segment),
    {
        self.thinking.contains(&segment)
    }

    /// Opens or closes a reasoning section.
    pub fn flip(&mut self, segment: usize)
        ensures
            final(self)@ == (ExpansionView {
                thinking: flipped(old(self)@.thinking, segment),
                ..old(self)@
            }),
    {
        let ghost before = self@;
        let was_open = self.thinking.remove(&segment);
        if !was_open {
            self.thinking.insert(segment);
        }
        proof {
            assert(self@.thinking =~= flipped(before.thinking, segment));
        }
    }

    /// Opens whatever is open in `other` too.
    pub fn merge(&mut self, other: MessageExpansion)
        ensures
            final(self)@ == merged(old(self)@, other@),
    {
        self.tool_report = self.tool_report || other.tool_report;
        self.tool_details = self.tool_details || other.tool_details;
        open_all(&mut self.thinking, &other.thinking);
    }

    /// Whether nothing is open.
    pub fn is_empty(&self) -> (r: bool)
        ensures
            r == (self@ == closed_expansion()),
    {
        let none = self.thinking.is_empty();
        proof {
            assert(none <==> self@.thinking =~= Set::empty());
        }
        !self.tool_report && !self.tool_details && none
    }

    /// The same sections, open once more.
    pub fn copy(&self) -> (r: MessageExpansion)
        ensures
            r@ == self@,
    {
        let mut thinking: HashSet<usize> = HashSet::new();
        open_all(&mut thinking, &self.thinking);
        proof {
            assert(thinking@ =~= self.thinking@);
        }
        MessageExpansion {
            tool_report: self.tool_report,
            tool_details: self.tool_details,
            thinking,
        }
    }
}

impl Clone for MessageExpansion {
    fn clone(&self) -> (r: Self)
        ensures
            r@ == self@,
    {
        self.copy()
    }
}

/// Merging loses nothing and is the same in either order.
pub proof fn lemma_merge(a: ExpansionView, b: ExpansionView)
    ensures
        merged(a, b) == merged(b, a),
        merged(a, closed_expansion()) == a,
        merged(a, a) == a,
{
    assert(merged(a, b).thinking =~= merged(b, a).thinking);
    assert(merged(a, closed_expansion()).thinking =~= a.thinking);
    assert(merged(a, a).thinking =~= a.thinking);
}

/// Opening and closing a section leaves things as they were.
pub proof fn lemma_flip_twice(open: Set<usize>, segment: usize)
    ensures
        flipped(flipped(open, segment), segment) == open,
{
    assert(flipped(flipped(open, segment), segment) =~= open);
}

/// A part of an assistant's reply as it is shown.
#[derive(Clone, Debug, PartialEq, Eq)]
pub enum Block {
    /// Prose.
    Prose { part: usize, text: String },
    /// Reasoning, which is shown in full where its section is open.
    Reasoning { part: usize, text: String, expanded: bool },
}

/// What a part of a reply holds.
#[verifier::ext_equal]
pub enum BlockView {
    Prose { part: usize, text: Seq<char> },
    Reasoning { part: usize, text: Seq<char>, expanded: bool },
}

impl View for Block {
    type V = BlockView;

    open spec fn view(&self) -> BlockView {
        match *self {
            Block::Prose { part, text } => BlockView::Prose { part, text: text@ },
            Block::Reasoning { part, text, expanded } => BlockView::Reasoning {
                part,
                text: text@,
                expanded,
            },
        }
    }
}

/// The part of a reply that a segment is, where it is not blank.
pub open spec fn block_of(
    source: Seq<char>,
    part: usize,
    segment: SegmentView,
    open: Set<usize>,
) -> Option<BlockView> {
    match slice_of(source, segment_start(segment) as nat, segment_end(segment) as nat) {
        Some(slice) => if is_blank(slice) {
            None
        } else if segment is Thinking {
            Some(
                BlockView::Reasoning { part, text: trim(slice), expanded: open.contains(part) },
            )
        } else {
            Some(BlockView::Prose { part, text: trim(slice) })
        },
        None => None,
    }
}

/// The parts of a reply for the first `n` segments.
pub open spec fn blocks_of(
    source: Seq<char>,
    segments: Seq<SegmentView>,
    open: Set<usize>,
    n: nat,
) -> Seq<BlockView>
    decreases n,
{
    if n == 0 {
        Seq::empty()
    } else {
        let before = blocks_of(source, segments, open, (n - 1) as nat);
        match block_of(source, (n - 1) as usize, segments[n - 1], open) {
            Some(block) => before.push(block),
            None => before,
        }
    }
}

/// The parts of a reply, reasoning apart from prose, without blank ones.
pub fn assistant_body(source: &str, expansion: &MessageExpansion) -> (r: Vec<Block>)
    ensures
        views(r@) == blocks_of(
            source@,
            segments_from(encode_utf8(source@), 0),
            expansion@.thinking,
            segments_from(encode_utf8(source@), 0).len(),
        ),
{
    let segments = split_thinking_segments(source);
    let ghost all = segment_views(segments@);
    let ghost open = expansion@.thinking;
    let mut blocks: Vec<Block> = Vec::new();
    let mut i: usize = 0;
    proof {
        assert(views(blocks@) =~= Seq::empty());
    }
    while i < segments.len()
        invariant
            i <= segments@.len(),
            all == segment_views(segments@),
            open == expansion@.thinking,
            views(blocks@) == blocks_of(source@, all, open, i as nat),
        decreases segments@.len() - i,
    {
        proof {
            assert(all[i as int] == segments@[i as int]@);
        }
        let (start, end, reasoning): (usize, usize, bool) = match &segments[i] {
            Segment::Markdown(range) => (range.start, range.end, false),
            Segment::Thinking(range) => (range.start, range.end, true),
        };
        if let Some(slice) = byte_slice(source, start, end) {
            if !blank(slice.as_str()) {
                let text = trimmed(slice.as_str());
                let block = if reasoning {
                    Block::Reasoning { part: i, text, expanded: expansion.is_open(i) }
                } else {
                    Block::Prose { part: i, text }
                };
                proof {
                    lemma_views_push(blocks@, block);
                }
                blocks.push(block);
            }
        }
        i = i + 1;
    }
    blocks
}

/// Every segment of a reply is a text of its own: nothing is lost because a cut
/// falls inside a character.
pub proof fn lemma_every_segment_is_text(source: Seq<char>, i: int)
    requires
        0 <= i < segments_from(encode_utf8(source), 0).len(),
    ensures
        slice_of(
            source,
            segment_start(segments_from(encode_utf8(source), 0)[i]) as nat,
            segment_end(segments_from(encode_utf8(source), 0)[i]) as nat,
        ) is Some,
{
    let bytes = encode_utf8(source);
    encode_utf8_valid_utf8(source);
    is_char_boundary_start_end_of_seq(bytes);
    lemma_segments_are_cut_at_characters(bytes, 0);
    lemma_segments_are_ordered(bytes, 0);
    let segment = segments_from(bytes, 0)[i];
    lemma_chars_before(source, segment_start(segment) as nat);
    lemma_chars_before(source, segment_end(segment) as nat);
}

/// Whether an entry shrinks to its text rather than filling the measure.
pub fn hugs_its_content(role: ConversationRole) -> (r: bool)
    ensures
        r == (role == ConversationRole::User),
{
    matches!(role, ConversationRole::User)
}

/// A prompt as it is shown: without the white space at its end.
pub fn user_text_for_display(text: &str) -> (r: String)
    ensures
        r@ == trim_end(text@),
{
    trimmed_end(text)
}

/// What an entry offers to do: a prompt can be forked from, a reply that is still
/// being revealed can be shown in full, and a finished one copied.
pub open spec fn action_of(message: ItemView, visible: Seq<char>) -> Option<EventView> {
    match message.role {
        ConversationRole::User => Some(EventView::ForkAt(message.id)),
        ConversationRole::Assistant => if message.streaming && visible != message.full_text {
            Some(EventView::RevealAll(message.id))
        } else if !message.streaming && !is_blank(message.full_text) {
            Some(EventView::CopyAssistant(message.id))
        } else {
            None
        },
        _ => None,
    }
}

/// What an entry offers to do.
pub fn card_action(message: &ConversationItem, visible_text: &str) -> (r: Option<ConversationEvent>)
    ensures
        opt_view(r) == action_of(message@, visible_text@),
{
    match message.role {
        ConversationRole::User => Some(ConversationEvent::ForkAt(message.id.clone())),
        ConversationRole::Assistant => {
            if message.streaming && !same(visible_text, message.full_text.as_str()) {
                Some(ConversationEvent::RevealAll(message.id.clone()))
            } else if !message.streaming && !blank(message.full_text.as_str()) {
                Some(ConversationEvent::CopyAssistant(message.id.clone()))
            } else {
                None
            }
        },
        _ => None,
    }
}

/// An entry as it is drawn.
#[derive(Clone, Debug, PartialEq, Eq)]
pub enum Card {
    /// A prompt: its text where there is any, and the names of its attachments.
    Prompt { text: Option<String>, attachments: Vec<String>, action: ConversationEvent },
    /// A reply. What it offers to do shows only under the pointer, unless it is
    /// still being revealed.
    Reply { blocks: Vec<Block>, action: Option<ConversationEvent>, action_stays: bool },
    /// A tool invocation.
    Tool(ToolCard),
    /// A notice, with its icon.
    Notice { icon: Option<IconName>, text: String },
}

/// What a drawn entry holds.
#[verifier::ext_equal]
pub enum CardView {
    Prompt { text: Option<Seq<char>>, attachments: Seq<Seq<char>>, action: EventView },
    Reply { blocks: Seq<BlockView>, action: Option<EventView>, action_stays: bool },
    Tool(ToolCardView),
    Notice { icon: Option<IconName>, text: Seq<char> },
}

impl View for Card {
    type V = CardView;

    open spec fn view(&self) -> CardView {
        match *self {
            Card::Prompt { text, attachments, action } => CardView::Prompt {
                text: opt_view(text),
                attachments: views(attachments@),
                action: action@,
            },
            Card::Reply { blocks, action, action_stays } => CardView::Reply {
                blocks: views(blocks@),
                action: opt_view(action),
                action_stays,
            },
            Card::Tool(card) => CardView::Tool(card@),
            Card::Notice { icon, text } => CardView::Notice { icon, text: text@ },
        }
    }
}

/// The names of attachments.
pub open spec fn names_of(attachments: Seq<AttachmentView>) -> Seq<Seq<char>> {
    attachments.map_values(|attachment: AttachmentView| attachment.name)
}

/// An entry as it is drawn, by its role.
pub open spec fn card_of(
    message: ItemView,
    visible: Seq<char>,
    expansion: ExpansionView,
    arguments: Option<Seq<char>>,
) -> CardView {
    match message.role {
        ConversationRole::User => CardView::Prompt {
            text: if trim_end(visible).len() == 0 {
                None
            } else {
                Some(trim_end(visible))
            },
            attachments: names_of(message.attachments),
            action: EventView::ForkAt(message.id),
        },
        ConversationRole::Assistant => CardView::Reply {
            blocks: blocks_of(
                visible,
                segments_from(encode_utf8(visible), 0),
                expansion.thinking,
                segments_from(encode_utf8(visible), 0).len(),
            ),
            action: action_of(message, visible),
            action_stays: message.streaming && visible != message.full_text,
        },
        ConversationRole::Tool => CardView::Tool(
            tool_card_of(message, expansion.tool_report, expansion.tool_details, arguments),
        ),
        ConversationRole::System => CardView::Notice {
            icon: Some(IconName::Info),
            text: visible,
        },
    }
}

fn attachment_names(attachments: &Vec<Attachment>) -> (r: Vec<String>)
    ensures
        views(r@) == names_of(views(attachments@)),
{
    let ghost want = names_of(views(attachments@));
    let mut names: Vec<String> = Vec::new();
    let mut i: usize = 0;
    while i < attachments.len()
        invariant
            i <= attachments@.len(),
            want == names_of(views(attachments@)),
            views(names@) == want.take(i as int),
        decreases attachments@.len() - i,
    {
        let name = attachments[i].name.clone();
        proof {
            lemma_views_push(names@, name);
            assert(want.take(i + 1) =~= want.take(i as int).push(name@));
        }
        names.push(name);
        i = i + 1;
    }
    proof {
        assert(want.take(i as int) =~= want);
    }
    names
}

/// An entry as it is drawn. `arguments` is what a tool's arguments say, where they
/// say anything.
pub fn render_card(
    message: &ConversationItem,
    visible_text: &str,
    expansion: &MessageExpansion,
    arguments: Option<String>,
) -> (r: Card)
    ensures
        r@ == card_of(message@, visible_text@, expansion@, opt_view(arguments)),
{
    match message.role {
        ConversationRole::User => {
            let text = user_text_for_display(visible_text);
            Card::Prompt {
                text: if text.as_str().is_empty() {
                    None
                } else {
                    Some(text)
                },
                attachments: attachment_names(&message.attachments),
                action: ConversationEvent::ForkAt(message.id.clone()),
            }
        },
        ConversationRole::Assistant => Card::Reply {
            blocks: assistant_body(visible_text, expansion),
            action: card_action(message, visible_text),
            action_stays: message.streaming && !same(visible_text, message.full_text.as_str()),
        },
        ConversationRole::Tool => Card::Tool(
            tool_card(message, expansion.tool_report, expansion.tool_details, arguments),
        ),
        ConversationRole::System => Card::Notice {
            icon: role(ConversationRole::System),
            text: visible_text.to_owned(),
        },
    }
}

/// A single entry of the conversation, with what there is to know to draw it.
pub struct MessageCard {
    pub index: usize,
    pub message: ConversationItem,
    /// The text to show, which is a start of the whole while it streams.
    pub visible_text: String,
    pub expansion: MessageExpansion,
    pub language: Language,
}

impl MessageCard {
    /// A card with its report open, and its raw event data where it is asked for.
    pub fn new(
        index: usize,
        message: ConversationItem,
        visible_text: String,
        details_expanded: bool,
    ) -> (r: MessageCard)
        ensures
            r.index == index,
            r.message == message,
            r.visible_text == visible_text,
            r.expansion@ == (ExpansionView {
                tool_report: true,
                tool_details: details_expanded,
                thinking: Set::empty(),
            }),
            r.language == Language::English,
    {
        let mut expansion = MessageExpansion::new();
        expansion.tool_report = true;
        expansion.tool_details = details_expanded;
        MessageCard::with_expansion(index, message, visible_text, expansion)
    }

    /// A card with the given sections open.
    pub fn with_expansion(
        index: usize,
        message: ConversationItem,
        visible_text: String,
        expansion: MessageExpansion,
    ) -> (r: MessageCard)
        ensures
            r == (MessageCard {
                index,
                message,
                visible_text,
                expansion,
                language: Language::English,
            }),
    {
        MessageCard { index, message, visible_text, expansion, language: Language::default() }
    }

    /// The card in another language.
    pub fn language(self, language: Language) -> (r: MessageCard)
        ensures
            r == (MessageCard { language, ..self }),
    {
        MessageCard { language, ..self }
    }

    /// The card as it is drawn. `arguments` is what a tool's arguments say, where
    /// they say anything.
    pub fn render(&self, arguments: Option<String>) -> (r: Card)
        ensures
            r@ == card_of(self.message@, self.visible_text@, self.expansion@, opt_view(arguments)),
    {
        render_card(&self.message, self.visible_text.as_str(), &self.expansion, arguments)
    }

    /// What opens and closes a reasoning section of the card, and what it says.
    pub fn thinking_toggle<F: Fn(&'static str, Language) -> &'static str>(
        &self,
        part: usize,
        table: &F,
    ) -> (r: (ConversationEvent, Option<&'static str>))
        requires
            is_table(*table),
        ensures
            r.0@ == (EventView::ToggleThinking { id: self.message.id@, segment: part }),
            is_event_label(opt_str(r.1), r.0@, self.language, *table),
    {
        let event = ConversationEvent::ToggleThinking { id: self.message.id.clone(), segment: part };
        let label = event_label(&event, self.language, table);
        (event, label)
    }

    /// What the card's action says, where it offers one.
    pub fn action_label<F: Fn(&'static str, Language) -> &'static str>(&self, table: &F) -> (r:
        Option<&'static str>)
        requires
            is_table(*table),
        ensures
            match action_of(self.message@, self.visible_text@) {
                Some(event) => r is Some && is_event_label(
                    opt_str(r),
                    event,
                    self.language,
                    *table,
                ),
                None => r is None,
            },
    {
        match card_action(&self.message, self.visible_text.as_str()) {
            Some(event) => event_label(&event, self.language, table),
            None => None,
        }
    }
}

} // verus!
