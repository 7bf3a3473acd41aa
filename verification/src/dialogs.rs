//! Questions that the agent asks the user, and the answers that go back.
//!
//! Pi's extension protocol asks for a confirmation when a tool wants permission,
//! and the agent-team supervisor asks for a decision when an agent needs one.
//! Both become a [`Prompt`], and prompts queue until they are answered.

use std::collections::VecDeque;

use vstd::prelude::*;

use crate::events::{string_list, strings_of};
use crate::json::{Json, JsonView};
use crate::protocol::{or_str, or_text};
use crate::text::{list_contains, opt_str, same};
use crate::views::{
    lemma_filter_none, lemma_filter_step, lemma_views_push, opt_view, views,
};

verus! {

/// How much a choice stands out.
#[derive(Clone, Copy, Debug, PartialEq, Eq, Structural)]
pub enum Tone {
    /// The affirmative answer.
    Primary,
    /// A refusal.
    Danger,
    /// Anything else that the request offered.
    Neutral,
}

/// Text on its way to the screen.
#[derive(Clone, Debug, PartialEq, Eq)]
pub enum Label {
    /// The application's own words, as a key into the string table.
    Key(&'static str),
    /// The agent's own text, shown as it was sent.
    Verbatim(String),
}

/// What a label holds.
#[verifier::ext_equal]
pub enum LabelView {
    Key(Seq<char>),
    Verbatim(Seq<char>),
}

impl View for Label {
    type V = LabelView;

    open spec fn view(&self) -> LabelView {
        match *self {
            Label::Key(key) => LabelView::Key(key@),
            Label::Verbatim(text) => LabelView::Verbatim(text@),
        }
    }
}

/// The agent's text if it sent any, and the application's own wording otherwise.
pub open spec fn label_or(text: Option<Seq<char>>, key: Seq<char>) -> LabelView {
    match text {
        Some(text) => if text.len() == 0 {
            LabelView::Key(key)
        } else {
            LabelView::Verbatim(text)
        },
        None => LabelView::Key(key),
    }
}

impl Label {
    /// The agent's own text.
    pub fn verbatim(text: &str) -> (r: Label)
        ensures
            r@ == LabelView::Verbatim(text@),
    {
        Label::Verbatim(text.to_owned())
    }

    /// The agent's text if it sent any, and the application's own wording
    /// otherwise.
    pub fn or_key(text: Option<&str>, key: &'static str) -> (r: Label)
        ensures
            r@ == label_or(opt_str(text), key@),
    {
        match text {
            Some(text) => if text.is_empty() {
                Label::Key(key)
            } else {
                Label::verbatim(text)
            },
            None => Label::Key(key),
        }
    }

    /// Whether there is nothing to show.
    pub fn is_empty(&self) -> (r: bool)
        ensures
            r == (self@ matches LabelView::Verbatim(text) && text.len() == 0),
    {
        match self {
            Label::Key(_) => false,
            Label::Verbatim(text) => text.as_str().is_empty(),
        }
    }
}

/// One answer that the reader can give.
#[derive(Clone, Debug, PartialEq, Eq)]
pub struct Choice {
    /// What travels back to the agent.
    pub value: String,
    /// What the button says.
    pub label: Label,
    pub tone: Tone,
}

/// What a choice holds.
#[verifier::ext_equal]
pub struct ChoiceView {
    pub value: Seq<char>,
    pub label: LabelView,
    pub tone: Tone,
}

impl View for Choice {
    type V = ChoiceView;

    open spec fn view(&self) -> ChoiceView {
        ChoiceView { value: self.value@, label: self.label@, tone: self.tone }
    }
}

impl Choice {
    /// An answer with its button.
    pub fn new(value: &str, label: Label, tone: Tone) -> (r: Choice)
        ensures
            r@ == (ChoiceView { value: value@, label: label@, tone }),
    {
        Choice { value: value.to_owned(), label, tone }
    }
}

/// Which protocol asked, and so how the answer travels back.
#[derive(Clone, Copy, Debug, PartialEq, Eq, Structural)]
pub enum Source {
    /// Pi's extension confirmation.
    Extension,
    /// A supervisor interaction.
    Interaction,
}

/// A question waiting for the user.
#[derive(Clone, Debug, PartialEq, Eq)]
pub struct Prompt {
    /// Which session asked.
    pub session_key: String,
    pub source: Source,
    pub request_id: String,
    pub title: Label,
    pub message: Label,
    pub choices: Vec<Choice>,
    /// What is answered when the question is closed unanswered.
    pub dismissal: String,
}

/// What a question holds.
#[verifier::ext_equal]
pub struct PromptView {
    pub session_key: Seq<char>,
    pub source: Source,
    pub request_id: Seq<char>,
    pub title: LabelView,
    pub message: LabelView,
    pub choices: Seq<ChoiceView>,
    pub dismissal: Seq<char>,
}

impl View for Prompt {
    type V = PromptView;

    open spec fn view(&self) -> PromptView {
        PromptView {
            session_key: self.session_key@,
            source: self.source,
            request_id: self.request_id@,
            title: self.title@,
            message: self.message@,
            choices: views(self.choices@),
            dismissal: self.dismissal@,
        }
    }
}

/// The question that an extension request asks. Only a confirmation is one.
pub open spec fn extension_prompt(session_key: Seq<char>, request: JsonView) -> Option<PromptView> {
    if request.text_at("method"@) == Some("confirm"@) {
        Some(
            PromptView {
                session_key,
                source: Source::Extension,
                request_id: or_text(request.text_at("id"@), ""@),
                title: label_or(request.text_at("title"@), "confirm-title"@),
                message: label_or(request.text_at("message"@), "confirm-message"@),
                choices: seq![
                    ChoiceView {
                        value: "allow"@,
                        label: LabelView::Key("allow"@),
                        tone: Tone::Primary,
                    },
                    ChoiceView {
                        value: "deny"@,
                        label: LabelView::Key("deny"@),
                        tone: Tone::Danger,
                    },
                ],
                dismissal: "deny"@,
            },
        )
    } else {
        None
    }
}

/// How an option of an interaction reads and looks. The options of an approval
/// are words of the protocol; others are written for a person.
pub open spec fn option_choice(kind: Seq<char>, option: Seq<char>) -> ChoiceView {
    if kind == "approval"@ && option == "approve"@ {
        ChoiceView {
            value: option,
            label: LabelView::Key("allow-once"@),
            tone: Tone::Primary,
        }
    } else if kind == "approval"@ && option == "deny"@ {
        ChoiceView { value: option, label: LabelView::Key("deny"@), tone: Tone::Danger }
    } else {
        ChoiceView { value: option, label: LabelView::Verbatim(option), tone: Tone::Neutral }
    }
}

/// What is answered when an interaction is closed: its own default where it
/// offers it, and the cautious word otherwise.
pub open spec fn interaction_dismissal(
    kind: Seq<char>,
    options: Seq<Seq<char>>,
    default_option: Option<Seq<char>>,
) -> Seq<char> {
    match default_option {
        Some(option) if options.contains(option) => option,
        _ => if kind == "approval"@ {
            "deny"@
        } else {
            "cancel"@
        },
    }
}

/// The question that a supervisor interaction asks.
pub open spec fn interaction_prompt(session_key: Seq<char>, request: JsonView) -> PromptView {
    let kind = or_text(request.text_at("kind"@), "question"@);
    let options = strings_of(request.field("options"@));
    PromptView {
        session_key,
        source: Source::Interaction,
        request_id: or_text(request.text_at("request_id"@), ""@),
        title: label_or(request.text_at("title"@), "agent-request"@),
        message: LabelView::Verbatim(or_text(request.text_at("message"@), ""@)),
        choices: options.map_values(|option: Seq<char>| option_choice(kind, option)),
        dismissal: interaction_dismissal(kind, options, request.text_at("default_option"@)),
    }
}

/// A decision on its way back to the agent.
#[derive(Clone, Debug, PartialEq, Eq)]
pub enum Answer {
    Extension { session_key: String, request_id: String, confirmed: bool },
    Interaction { session_key: String, request_id: String, decision: String },
}

/// What an answer holds.
#[verifier::ext_equal]
pub enum AnswerView {
    Extension { session_key: Seq<char>, request_id: Seq<char>, confirmed: bool },
    Interaction { session_key: Seq<char>, request_id: Seq<char>, decision: Seq<char> },
}

impl View for Answer {
    type V = AnswerView;

    open spec fn view(&self) -> AnswerView {
        match *self {
            Answer::Extension { session_key, request_id, confirmed } => AnswerView::Extension {
                session_key: session_key@,
                request_id: request_id@,
                confirmed,
            },
            Answer::Interaction { session_key, request_id, decision } => AnswerView::Interaction {
                session_key: session_key@,
                request_id: request_id@,
                decision: decision@,
            },
        }
    }
}

/// The session that an answer belongs to.
pub open spec fn answer_session(answer: AnswerView) -> Seq<char> {
    match answer {
        AnswerView::Extension { session_key, .. } => session_key,
        AnswerView::Interaction { session_key, .. } => session_key,
    }
}

impl Answer {
    /// The session that the answer belongs to.
    pub fn session_key(&self) -> (r: &str)
        ensures
            r@ == answer_session(self@),
    {
        match self {
            Answer::Extension { session_key, .. } => session_key.as_str(),
            Answer::Interaction { session_key, .. } => session_key.as_str(),
        }
    }
}

/// What goes back for `value`. Only the word for consent is consent.
pub open spec fn prompt_answer(prompt: PromptView, value: Seq<char>) -> AnswerView {
    match prompt.source {
        Source::Extension => AnswerView::Extension {
            session_key: prompt.session_key,
            request_id: prompt.request_id,
            confirmed: value == "allow"@,
        },
        Source::Interaction => AnswerView::Interaction {
            session_key: prompt.session_key,
            request_id: prompt.request_id,
            decision: value,
        },
    }
}

/// How an option of an interaction reads and looks.
fn choice_for(kind: &str, option: &str) -> (r: Choice)
    ensures
        r@ == option_choice(kind@, option@),
{
    if same(kind, "approval") && same(option, "approve") {
        Choice::new(option, Label::Key("allow-once"), Tone::Primary)
    } else if same(kind, "approval") && same(option, "deny") {
        Choice::new(option, Label::Key("deny"), Tone::Danger)
    } else {
        Choice::new(option, Label::verbatim(option), Tone::Neutral)
    }
}

impl Prompt {
    /// Reads an extension request.
    pub fn from_extension(session_key: &str, request: &Json) -> (r: Option<Prompt>)
        ensures
            opt_view(r) == extension_prompt(session_key@, request@),
    {
        let confirms = match request.str_at("method") {
            Some(method) => same(method, "confirm"),
            None => false,
        };
        if !confirms {
            return None;
        }
        let mut choices: Vec<Choice> = Vec::new();
        choices.push(Choice::new("allow", Label::Key("allow"), Tone::Primary));
        choices.push(Choice::new("deny", Label::Key("deny"), Tone::Danger));
        let prompt = Prompt {
            session_key: session_key.to_owned(),
            source: Source::Extension,
            request_id: or_str(request.str_at("id"), "").to_owned(),
            title: Label::or_key(request.str_at("title"), "confirm-title"),
            message: Label::or_key(request.str_at("message"), "confirm-message"),
            choices,
            dismissal: "deny".to_owned(),
        };
        proof {
            let want = extension_prompt(session_key@, request@)->0;
            assert(prompt@.choices =~= want.choices);
        }
        Some(prompt)
    }

    /// Reads a supervisor interaction. Every one of them is a question.
    pub fn from_interaction(session_key: &str, request: &Json) -> (r: Option<Prompt>)
        ensures
            r is Some,
            r->0@ == interaction_prompt(session_key@, request@),
    {
        let kind = or_str(request.str_at("kind"), "question");
        let options = string_list(request.get("options"));
        let fallback = if same(kind, "approval") {
            "deny"
        } else {
            "cancel"
        };
        let dismissal = match request.str_at("default_option") {
            Some(option) => if list_contains(&options, option) {
                option
            } else {
                fallback
            },
            None => fallback,
        };
        let mut choices: Vec<Choice> = Vec::new();
        let mut i: usize = 0;
        while i < options.len()
            invariant
                i <= options@.len(),
                choices@.len() == i,
                forall|k: int|
                    0 <= k < i ==> (#[trigger] choices@[k])@ == option_choice(kind@, options@[k]@),
            decreases options@.len() - i,
        {
            choices.push(choice_for(kind, options[i].as_str()));
            i = i + 1;
        }
        let prompt = Prompt {
            session_key: session_key.to_owned(),
            source: Source::Interaction,
            request_id: or_str(request.str_at("request_id"), "").to_owned(),
            title: Label::or_key(request.str_at("title"), "agent-request"),
            message: Label::verbatim(or_str(request.str_at("message"), "")),
            choices,
            dismissal: dismissal.to_owned(),
        };
        proof {
            let want = interaction_prompt(session_key@, request@);
            assert(prompt@.choices =~= want.choices);
        }
        Some(prompt)
    }

    /// What goes back for `value`.
    pub fn answer(&self, value: &str) -> (r: Answer)
        ensures
            r@ == prompt_answer(self@, value@),
    {
        match self.source {
            Source::Extension => Answer::Extension {
                session_key: self.session_key.clone(),
                request_id: self.request_id.clone(),
                confirmed: same(value, "allow"),
            },
            Source::Interaction => Answer::Interaction {
                session_key: self.session_key.clone(),
                request_id: self.request_id.clone(),
                decision: value.to_owned(),
            },
        }
    }

    /// What goes back when the question is closed unanswered.
    pub fn dismissed(&self) -> (r: Answer)
        ensures
            r@ == prompt_answer(self@, self@.dismissal),
    {
        self.answer(self.dismissal.as_str())
    }
}

/// Whether two questions are one and the same request.
pub open spec fn same_request(a: PromptView, b: PromptView) -> bool {
    a.session_key == b.session_key && a.request_id == b.request_id
}

/// Whether a request is waiting already.
pub open spec fn is_waiting(pending: Seq<PromptView>, prompt: PromptView) -> bool {
    exists|i: int| 0 <= i < pending.len() && same_request(#[trigger] pending[i], prompt)
}

/// The waiting questions once `prompt` has been asked. A request that waits
/// already is not asked twice.
pub open spec fn asked(pending: Seq<PromptView>, prompt: PromptView) -> Seq<PromptView> {
    if is_waiting(pending, prompt) {
        pending
    } else {
        pending.push(prompt)
    }
}

/// The waiting questions of other sessions.
pub open spec fn of_others(pending: Seq<PromptView>, session_key: Seq<char>) -> Seq<PromptView> {
    pending.filter(|p: PromptView| p.session_key != session_key)
}

/// Questions waiting to be asked, oldest first.
#[derive(Debug)]
pub struct Queue {
    pending: VecDeque<Prompt>,
}

impl View for Queue {
    type V = Seq<PromptView>;

    closed spec fn view(&self) -> Seq<PromptView> {
        views(self.pending@)
    }
}

impl Queue {
    /// Nothing waiting.
    pub fn new() -> (r: Queue)
        ensures
            r@ == Seq::<PromptView>::empty(),
    {
        let r = Queue { pending: VecDeque::new() };
        proof {
            assert(r@ =~= Seq::<PromptView>::empty());
        }
        r
    }

    /// Queues a question, unless it waits already.
    pub fn push(&mut self, prompt: Prompt)
        ensures
            final(self)@ == asked(old(self)@, prompt@),
    {
        let ghost before = self@;
        let mut i: usize = 0;
        while i < self.pending.len()
            invariant
                i <= self.pending@.len(),
                before == self@,
                before == old(self)@,
                forall|k: int|
                    0 <= k < i ==> !same_request(#[trigger] before[k], prompt@),
            decreases self.pending@.len() - i,
        {
            let waiting = &self.pending[i];
            if same(waiting.session_key.as_str(), prompt.session_key.as_str()) && same(
                waiting.request_id.as_str(),
                prompt.request_id.as_str(),
            ) {
                proof {
                    assert(same_request(before[i as int], prompt@));
                }
                return;
            }
            i = i + 1;
        }
        proof {
            lemma_views_push(self.pending@, prompt);
        }
        self.pending.push_back(prompt);
    }

    /// Queues an extension request, if it is a question.
    pub fn push_extension(&mut self, session_key: &str, request: &Json)
        ensures
            final(self)@ == match extension_prompt(session_key@, request@) {
                Some(prompt) => asked(old(self)@, prompt),
                None => old(self)@,
            },
    {
        if let Some(prompt) = Prompt::from_extension(session_key, request) {
            self.push(prompt);
        }
    }

    /// Queues a supervisor interaction.
    pub fn push_interaction(&mut self, session_key: &str, request: &Json)
        ensures
            final(self)@ == asked(old(self)@, interaction_prompt(session_key@, request@)),
    {
        if let Some(prompt) = Prompt::from_interaction(session_key, request) {
            self.push(prompt);
        }
    }

    /// The question on screen.
    pub fn current(&self) -> (r: Option<&Prompt>)
        ensures
            match r {
                Some(prompt) => self@.len() > 0 && prompt@ == self@.first(),
                None => self@.len() == 0,
            },
    {
        if self.pending.len() == 0 {
            None
        } else {
            Some(&self.pending[0])
        }
    }

    fn next(&mut self) -> (r: Option<Prompt>)
        ensures
            match r {
                Some(prompt) => {
                    &&& old(self)@.len() > 0
                    &&& prompt@ == old(self)@.first()
                    &&& final(self)@ == old(self)@.drop_first()
                },
                None => old(self)@.len() == 0 && final(self)@ == old(self)@,
            },
    {
        let ghost before = self.pending@;
        let r = self.pending.pop_front();
        proof {
            if before.len() > 0 {
                assert(views(self.pending@) =~= views(before).drop_first());
            }
        }
        r
    }

    /// Answers the question on screen and moves on.
    pub fn answer(&mut self, value: &str) -> (r: Option<Answer>)
        ensures
            match r {
                Some(answer) => {
                    &&& old(self)@.len() > 0
                    &&& answer@ == prompt_answer(old(self)@.first(), value@)
                    &&& final(self)@ == old(self)@.drop_first()
                },
                None => old(self)@.len() == 0 && final(self)@ == old(self)@,
            },
    {
        match self.next() {
            Some(prompt) => Some(prompt.answer(value)),
            None => None,
        }
    }

    /// Closes the question on screen unanswered and moves on.
    pub fn dismiss(&mut self) -> (r: Option<Answer>)
        ensures
            match r {
                Some(answer) => {
                    &&& old(self)@.len() > 0
                    &&& answer@ == prompt_answer(old(self)@.first(), old(self)@.first().dismissal)
                    &&& final(self)@ == old(self)@.drop_first()
                },
                None => old(self)@.len() == 0 && final(self)@ == old(self)@,
            },
    {
        match self.next() {
            Some(prompt) => Some(prompt.dismissed()),
            None => None,
        }
    }

    /// Drops everything that a session asked, because it has gone.
    pub fn forget_session(&mut self, session_key: &str)
        ensures
            final(self)@ == of_others(old(self)@, session_key@),
    {
        let ghost all = self@;
        let ghost f = |p: PromptView| p.session_key != session_key@;
        let n: usize = self.pending.len();
        let mut i: usize = 0;
        proof {
            lemma_filter_none(all, f);
            assert(all.skip(0) + Seq::<PromptView>::empty() =~= all);
        }
        while i < n
            invariant
                i <= n == all.len(),
                f == (|p: PromptView| p.session_key != session_key@),
                self@ == all.skip(i as int) + all.take(i as int).filter(f),
            decreases n - i,
        {
            let ghost kept = all.take(i as int).filter(f);
            proof {
                lemma_filter_step(all, f, i as int);
                assert(self@.first() == all[i as int]);
                assert(self@.drop_first() =~= all.skip(i + 1) + kept);
            }
            match self.next() {
                Some(prompt) => {
                    if !same(prompt.session_key.as_str(), session_key) {
                        proof {
                            lemma_views_push(self.pending@, prompt);
                            assert((all.skip(i + 1) + kept).push(prompt@) =~= all.skip(i + 1)
                                + kept.push(prompt@));
                        }
                        self.pending.push_back(prompt);
                    }
                },
                None => {},
            }
            i = i + 1;
        }
        proof {
            assert(all.take(i as int) =~= all);
            assert(all.skip(i as int) + all.filter(f) =~= all.filter(f));
        }
    }

    /// Whether nothing is waiting.
    pub fn is_empty(&self) -> (r: bool)
        ensures
            r == (self@.len() == 0),
    {
        self.pending.len() == 0
    }

    /// How many questions are waiting.
    pub fn len(&self) -> (r: usize)
        ensures
            r == self@.len(),
    {
        self.pending.len()
    }
}

/// Closing a confirmation unanswered never grants it.
pub proof fn lemma_dismissal_denies(session_key: Seq<char>, request: JsonView)
    requires
        extension_prompt(session_key, request) is Some,
    ensures
        ({
            let prompt = extension_prompt(session_key, request)->0;
            prompt_answer(prompt, prompt.dismissal) == (AnswerView::Extension {
                session_key,
                request_id: prompt.request_id,
                confirmed: false,
            })
        }),
{
    reveal_strlit("allow");
    reveal_strlit("deny");
    assert("allow"@.len() != "deny"@.len());
}

/// What an interaction is closed with is one of its options or a word that
/// refuses.
pub proof fn lemma_dismissal_is_on_offer(session_key: Seq<char>, request: JsonView)
    ensures
        ({
            let prompt = interaction_prompt(session_key, request);
            ||| prompt.dismissal == "deny"@
            ||| prompt.dismissal == "cancel"@
            ||| exists|i: int|
                0 <= i < prompt.choices.len() && (#[trigger] prompt.choices[i]).value
                    == prompt.dismissal
        }),
{
    let prompt = interaction_prompt(session_key, request);
    let kind = or_text(request.text_at("kind"@), "question"@);
    let options = strings_of(request.field("options"@));
    if let Some(option) = request.text_at("default_option"@) {
        if options.contains(option) {
            let i = options.index_of(option);
            assert(prompt.choices[i] == option_choice(kind, options[i]));
        }
    }
}

/// An answer goes back to the session that asked.
pub proof fn lemma_answer_goes_home(prompt: PromptView, value: Seq<char>)
    ensures
        answer_session(prompt_answer(prompt, value)) == prompt.session_key,
{
}

} // verus!
