//! The chooser for questions that an agent asks: one at a time, in the place of
//! the composer.

use vstd::prelude::*;

use crate::dialogs::{
    asked, of_others, prompt_answer, Answer, AnswerView, Choice, ChoiceView, Label, LabelView,
    Prompt, PromptView, Queue, Tone,
};
use crate::domain::Language;
use crate::protocol::{or_str, or_text};
use crate::strings::{is_table, reads, translate};
use crate::text::{blank, is_blank, opt_as_str, opt_str, same_opt, trim, trimmed};
use crate::views::{opt_view, views};

verus! {

/// What the chooser asks for.
#[derive(Clone, Debug, PartialEq, Eq)]
pub enum PromptEvent {
    /// Send this decision back to the session that asked.
    Answered(Answer),
}

impl View for PromptEvent {
    type V = AnswerView;

    open spec fn view(&self) -> AnswerView {
        match *self {
            PromptEvent::Answered(answer) => answer@,
        }
    }
}

/// How a button looks.
#[derive(Clone, Copy, Debug, PartialEq, Eq, Structural)]
pub enum ButtonVariant {
    Primary,
    Danger,
    Default,
}

/// How a choice looks as a button: the expected answer stands out, and a refusal
/// warns.
pub open spec fn variant_of(tone: Tone) -> ButtonVariant {
    match tone {
        Tone::Primary => ButtonVariant::Primary,
        Tone::Danger => ButtonVariant::Danger,
        Tone::Neutral => ButtonVariant::Default,
    }
}

/// How a choice looks as a button.
pub fn variant(tone: Tone) -> (r: ButtonVariant)
    ensures
        r == variant_of(tone),
{
    match tone {
        Tone::Primary => ButtonVariant::Primary,
        Tone::Danger => ButtonVariant::Danger,
        Tone::Neutral => ButtonVariant::Default,
    }
}

/// Whether `words` is what a label says in a language: the application's own words
/// for its key, or the agent's own text.
pub open spec fn says<F: Fn(&'static str, Language) -> &'static str>(
    label: LabelView,
    language: Language,
    table: F,
    words: Seq<char>,
) -> bool {
    match label {
        LabelView::Key(key) => reads(table, key, language, words),
        LabelView::Verbatim(text) => words == text,
    }
}

/// What a label says in a language.
pub fn read<F: Fn(&'static str, Language) -> &'static str>(
    label: &Label,
    language: Language,
    table: &F,
) -> (r: String)
    requires
        is_table(*table),
    ensures
        says(label@, language, *table, r@),
{
    match label {
        Label::Key(key) => translate(table, key, language).to_owned(),
        Label::Verbatim(text) => text.clone(),
    }
}

/// A choice as a button.
#[derive(Clone, Debug, PartialEq, Eq)]
pub struct ChoiceButton {
    pub label: String,
    pub variant: ButtonVariant,
    /// What is answered when it is pressed.
    pub value: String,
}

/// What a button holds.
#[verifier::ext_equal]
pub struct ButtonView {
    pub label: Seq<char>,
    pub variant: ButtonVariant,
    pub value: Seq<char>,
}

impl View for ChoiceButton {
    type V = ButtonView;

    open spec fn view(&self) -> ButtonView {
        ButtonView { label: self.label@, variant: self.variant, value: self.value@ }
    }
}

/// Whether `button` is a choice as a button.
pub open spec fn is_button<F: Fn(&'static str, Language) -> &'static str>(
    button: ButtonView,
    choice: ChoiceView,
    language: Language,
    table: F,
) -> bool {
    &&& says(choice.label, language, table, button.label)
    &&& button.variant == variant_of(choice.tone)
    &&& button.value == choice.value
}

/// A question as it is drawn: a message that says nothing is left out.
#[derive(Clone, Debug, PartialEq, Eq)]
pub struct PromptCard {
    pub title: String,
    pub message: Option<String>,
    pub buttons: Vec<ChoiceButton>,
}

/// Whether a label has nothing to show.
pub open spec fn says_nothing(label: LabelView) -> bool {
    label matches LabelView::Verbatim(text) && text.len() == 0
}

/// Whether the buttons are the choices of a question, one for one.
pub open spec fn are_buttons<F: Fn(&'static str, Language) -> &'static str>(
    buttons: Seq<ButtonView>,
    choices: Seq<ChoiceView>,
    language: Language,
    table: F,
) -> bool {
    &&& buttons.len() == choices.len()
    &&& forall|i: int|
        0 <= i < choices.len() ==> is_button(#[trigger] buttons[i], choices[i], language, table)
}

/// Whether `card` is a question as it is drawn.
pub open spec fn is_card<F: Fn(&'static str, Language) -> &'static str>(
    card: PromptCard,
    prompt: PromptView,
    language: Language,
    table: F,
) -> bool {
    &&& says(prompt.title, language, table, card.title@)
    &&& match card.message {
        Some(message) => !says_nothing(prompt.message) && says(
            prompt.message,
            language,
            table,
            message@,
        ),
        None => says_nothing(prompt.message),
    }
    &&& are_buttons(views(card.buttons@), prompt.choices, language, table)
}

/// What the answer field is reset to for a new question.
#[derive(Clone, Debug, PartialEq, Eq)]
pub struct FieldReset {
    /// What the field says while it is empty.
    pub placeholder: String,
    /// What stands in the field.
    pub value: String,
    /// Whether typing goes straight to the field.
    pub focuses: bool,
}

/// Whether `reset` is what the answer field is reset to: the question's own
/// placeholder and prefill where it has them.
pub open spec fn is_reset<F: Fn(&'static str, Language) -> &'static str>(
    reset: FieldReset,
    allows_custom_answer: bool,
    placeholder: Option<Seq<char>>,
    prefill: Option<Seq<char>>,
    language: Language,
    table: F,
) -> bool {
    &&& match placeholder {
        Some(text) => reset.placeholder@ == text,
        None => reads(table, "prompt-custom-placeholder"@, language, reset.placeholder@),
    }
    &&& reset.value@ == or_text(prefill, ""@)
    &&& reset.focuses == allows_custom_answer
}

/// The answer field as it is drawn beside its button.
#[derive(Clone, Debug, PartialEq, Eq)]
pub struct AnswerField {
    pub send_label: &'static str,
    /// Whether the button can be pressed.
    pub can_send: bool,
}

/// What the chooser holds.
#[verifier::ext_equal]
pub struct PromptsView {
    /// The questions, the one on screen first.
    pub waiting: Seq<PromptView>,
    /// The question that the answer field was last reset for.
    pub draft_for: Option<Seq<char>>,
    pub language: Language,
}

/// The choices of a question as buttons.
fn buttons_of<F: Fn(&'static str, Language) -> &'static str>(
    choices: &Vec<Choice>,
    language: Language,
    table: &F,
) -> (r: Vec<ChoiceButton>)
    requires
        is_table(*table),
    ensures
        are_buttons(views(r@), views(choices@), language, *table),
{
    let mut buttons: Vec<ChoiceButton> = Vec::new();
    let mut i: usize = 0;
    while i < choices.len()
        invariant
            i <= choices@.len(),
            is_table(*table),
            buttons@.len() == i,
            forall|k: int|
                0 <= k < i ==> is_button(
                    (#[trigger] buttons@[k])@,
                    choices@[k]@,
                    language,
                    *table,
                ),
        decreases choices@.len() - i,
    {
        let choice = &choices[i];
        buttons.push(
            ChoiceButton {
                label: read(&choice.label, language, table),
                variant: variant(choice.tone),
                value: choice.value.clone(),
            },
        );
        i = i + 1;
    }
    buttons
}

/// The chooser once the question on screen was answered, and the answer.
pub open spec fn answered(view: PromptsView, value: Seq<char>) -> (PromptsView, Option<AnswerView>) {
    if view.waiting.len() > 0 {
        (
            PromptsView { waiting: view.waiting.drop_first(), ..view },
            Some(prompt_answer(view.waiting.first(), value)),
        )
    } else {
        (view, None)
    }
}

/// Whether another question is on screen than the one that the answer field was
/// reset for.
pub open spec fn needs_reset(view: PromptsView) -> bool {
    view.waiting.len() > 0 && view.draft_for != Some(view.waiting.first().request_id)
}

/// The chooser once the question on screen was shown: the answer field then counts
/// as reset for it.
pub open spec fn shown(view: PromptsView) -> PromptsView {
    if view.waiting.len() > 0 {
        PromptsView { draft_for: Some(view.waiting.first().request_id), ..view }
    } else {
        view
    }
}

/// The questions that wait, and the one on screen.
pub struct Prompts {
    queue: Queue,
    draft_for: Option<String>,
    language: Language,
}

impl View for Prompts {
    type V = PromptsView;

    closed spec fn view(&self) -> PromptsView {
        PromptsView {
            waiting: self.queue@,
            draft_for: opt_view(self.draft_for),
            language: self.language,
        }
    }
}

impl Prompts {
    /// No questions.
    pub fn new() -> (r: Prompts)
        ensures
            r@ == (PromptsView {
                waiting: Seq::empty(),
                draft_for: None,
                language: Language::English,
            }),
    {
        Prompts { queue: Queue::new(), draft_for: None, language: Language::default() }
    }

    /// Takes a language. Says whether it is another one.
    pub fn set_language(&mut self, language: Language) -> (r: bool)
        ensures
            final(self)@ == (PromptsView { language, ..old(self)@ }),
            r == (old(self)@.language != language),
    {
        let changed = self.language != language;
        self.language = language;
        changed
    }

    /// Whether a question is on screen.
    pub fn is_asking(&self) -> (r: bool)
        ensures
            r == (self@.waiting.len() > 0),
    {
        !self.queue.is_empty()
    }

    /// The question on screen.
    pub fn current(&self) -> (r: Option<&Prompt>)
        ensures
            match r {
                Some(prompt) => self@.waiting.len() > 0 && prompt@ == self@.waiting.first(),
                None => self@.waiting.len() == 0,
            },
    {
        self.queue.current()
    }

    /// Queues a question, unless it waits already.
    pub fn push(&mut self, prompt: Prompt)
        ensures
            final(self)@ == (PromptsView {
                waiting: asked(old(self)@.waiting, prompt@),
                ..old(self)@
            }),
    {
        self.queue.push(prompt);
    }

    /// Drops everything that a session asked, because it has gone.
    pub fn forget_session(&mut self, session_key: &str)
        ensures
            final(self)@ == (PromptsView {
                waiting: of_others(old(self)@.waiting, session_key@),
                ..old(self)@
            }),
    {
        self.queue.forget_session(session_key);
    }

    /// Answers the question on screen and moves to the next.
    pub fn answer(&mut self, value: &str) -> (r: Option<PromptEvent>)
        ensures
            (final(self)@, opt_view(r)) == answered(old(self)@, value@),
    {
        match self.queue.answer(value) {
            Some(answer) => Some(PromptEvent::Answered(answer)),
            None => None,
        }
    }

    /// Closes the question on screen without picking. That is an answer too, the
    /// cautious one that the question names.
    pub fn dismiss(&mut self) -> (r: Option<PromptEvent>)
        ensures
            (final(self)@, opt_view(r)) == if old(self)@.waiting.len() > 0 {
                answered(old(self)@, old(self)@.waiting.first().dismissal)
            } else {
                (old(self)@, None)
            },
    {
        match self.queue.dismiss() {
            Some(answer) => Some(PromptEvent::Answered(answer)),
            None => None,
        }
    }

    /// Sends the answer that was typed, where there is one.
    pub fn submit_custom(&mut self, typed: &str) -> (r: Option<PromptEvent>)
        ensures
            (final(self)@, opt_view(r)) == if is_blank(typed@) {
                (old(self)@, None)
            } else {
                answered(old(self)@, trim(typed@))
            },
    {
        if blank(typed) {
            return None;
        }
        self.answer(trimmed(typed).as_str())
    }

    /// Whether what is typed can be sent.
    pub fn can_send(typed: &str) -> (r: bool)
        ensures
            r == !is_blank(typed@),
    {
        !blank(typed)
    }

    /// The question on screen as it is drawn.
    pub fn render<F: Fn(&'static str, Language) -> &'static str>(&self, table: &F) -> (r: Option<
        PromptCard,
    >)
        requires
            is_table(*table),
        ensures
            match r {
                Some(card) => self@.waiting.len() > 0 && is_card(
                    card,
                    self@.waiting.first(),
                    self@.language,
                    *table,
                ),
                None => self@.waiting.len() == 0,
            },
    {
        let prompt = self.queue.current()?;
        Some(
            PromptCard {
                title: read(&prompt.title, self.language, table),
                message: if prompt.message.is_empty() {
                    None
                } else {
                    Some(read(&prompt.message, self.language, table))
                },
                buttons: buttons_of(&prompt.choices, self.language, table),
            },
        )
    }

    /// The answer field as it is drawn, where the question on screen takes an answer
    /// that is typed.
    pub fn render_field<F: Fn(&'static str, Language) -> &'static str>(
        &self,
        allows_custom_answer: bool,
        typed: &str,
        table: &F,
    ) -> (r: Option<AnswerField>)
        requires
            is_table(*table),
        ensures
            match r {
                Some(field) => {
                    &&& self@.waiting.len() > 0 && allows_custom_answer
                    &&& reads(*table, "prompt-custom-send"@, self@.language, field.send_label@)
                    &&& field.can_send == !is_blank(typed@)
                },
                None => self@.waiting.len() == 0 || !allows_custom_answer,
            },
    {
        if self.queue.is_empty() || !allows_custom_answer {
            return None;
        }
        Some(
            AnswerField {
                send_label: translate(table, "prompt-custom-send", self.language),
                can_send: Prompts::can_send(typed),
            },
        )
    }

    /// Resets the answer field where another question is on screen than the one that
    /// it was reset for. Returns what it is reset to.
    pub fn reset_field<F: Fn(&'static str, Language) -> &'static str>(
        &mut self,
        allows_custom_answer: bool,
        placeholder: Option<&str>,
        prefill: Option<&str>,
        table: &F,
    ) -> (r: Option<FieldReset>)
        requires
            is_table(*table),
        ensures
            final(self)@ == shown(old(self)@),
            match r {
                Some(reset) => needs_reset(old(self)@) && is_reset(
                    reset,
                    allows_custom_answer,
                    opt_str(placeholder),
                    opt_str(prefill),
                    old(self)@.language,
                    *table,
                ),
                None => !needs_reset(old(self)@),
            },
    {
        if !self.resets_draft() {
            return None;
        }
        Some(
            FieldReset {
                placeholder: match placeholder {
                    Some(text) => text.to_owned(),
                    None => translate(table, "prompt-custom-placeholder", self.language).to_owned(),
                },
                value: or_str(prefill, "").to_owned(),
                focuses: allows_custom_answer,
            },
        )
    }

    /// Whether the answer field has to be reset, because another question is on
    /// screen than the one that it was reset for. It then counts as reset.
    pub fn resets_draft(&mut self) -> (r: bool)
        ensures
            r == needs_reset(old(self)@),
            final(self)@ == shown(old(self)@),
    {
        let id = match self.queue.current() {
            Some(prompt) => prompt.request_id.clone(),
            None => {
                return false;
            },
        };
        if same_opt(opt_as_str(&self.draft_for), Some(id.as_str())) {
            return false;
        }
        self.draft_for = Some(id);
        true
    }
}

/// What was typed for one question never leaks into the next: once a question was
/// answered, the field counts as reset for it and not for another one.
pub proof fn lemma_draft_does_not_leak(view: PromptsView, value: Seq<char>)
    requires
        view.waiting.len() > 1,
        view.draft_for == Some(view.waiting[0].request_id),
        view.waiting[1].request_id != view.waiting[0].request_id,
    ensures
        !needs_reset(view),
        needs_reset(answered(view, value).0),
        !needs_reset(shown(answered(view, value).0)),
{
}

} // verus!
