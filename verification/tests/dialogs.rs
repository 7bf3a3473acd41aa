//! Questions that agents ask.

use pi_whim::dialogs::{Answer, Choice, Label, Prompt, Queue, Source, Tone};
use pi_whim::domain::Language;
use pi_whim::json::Json;
use pi_whim::shell::prompts::{variant, ButtonVariant, PromptEvent, Prompts};

fn json(text: &str) -> Json {
    Json::parse(text).expect("a document")
}

fn confirm() -> Json {
    json(r##"{ "id": "req-1", "method": "confirm", "title": "Run a command?", "message": "Pi wants to run `rm -rf build`." }"##)
}

fn approval() -> Json {
    json(r##"{ "request_id": "int-1", "kind": "approval", "title": "Sub-agent wants to write", "message": "Write to src/main.rs?", "options": ["approve", "deny"] }"##)
}

#[test]
fn a_confirmation_offers_allow_and_deny() {
    let prompt = Prompt::from_extension("s1", &confirm()).expect("a prompt");

    assert_eq!(prompt.source, Source::Extension);
    assert_eq!(prompt.request_id, "req-1");
    assert_eq!(prompt.title, Label::verbatim("Run a command?"));
    assert_eq!(
        prompt.choices,
        vec![
            Choice::new("allow", Label::Key("allow"), Tone::Primary),
            Choice::new("deny", Label::Key("deny"), Tone::Danger),
        ]
    );
}

#[test]
fn a_confirmation_without_text_still_reads_as_a_question() {
    let prompt =
        Prompt::from_extension("s1", &json(r##"{"id": "req-1", "method": "confirm"}"##)).unwrap();

    assert!(!prompt.title.is_empty());
    assert!(!prompt.message.is_empty());
    assert_eq!(prompt.title, Label::Key("confirm-title"));
    assert_eq!(prompt.message, Label::Key("confirm-message"));
}

#[test]
fn other_extension_methods_are_not_questions() {
    assert!(Prompt::from_extension("s1", &json(r##"{"id": "x", "method": "log"}"##)).is_none());
    assert!(Prompt::from_extension("s1", &json(r##"{"id": "x"}"##)).is_none());
}

#[test]
fn dismissing_a_confirmation_denies_it() {
    let prompt = Prompt::from_extension("s1", &confirm()).unwrap();

    assert_eq!(
        prompt.dismissed(),
        Answer::Extension {
            session_key: "s1".into(),
            request_id: "req-1".into(),
            confirmed: false,
        }
    );
}

#[test]
fn only_allow_counts_as_consent() {
    let prompt = Prompt::from_extension("s1", &confirm()).unwrap();

    let Answer::Extension { confirmed, .. } = prompt.answer("allow") else {
        panic!("an extension answer");
    };
    assert!(confirmed);

    let Answer::Extension { confirmed, .. } = prompt.answer("deny") else {
        panic!("an extension answer");
    };
    assert!(!confirmed);
}

#[test]
fn approval_options_read_as_actions() {
    let prompt = Prompt::from_interaction("s1", &approval()).expect("a prompt");

    assert_eq!(
        prompt.choices,
        vec![
            Choice::new("approve", Label::Key("allow-once"), Tone::Primary),
            Choice::new("deny", Label::Key("deny"), Tone::Danger),
        ]
    );
}

#[test]
fn question_options_are_already_written_for_a_person() {
    let prompt = Prompt::from_interaction(
        "s1",
        &json(r##"{ "request_id": "int-2", "kind": "question", "title": "Which branch?", "options": ["main", "develop"] }"##),
    )
    .unwrap();

    assert_eq!(
        prompt.choices,
        vec![
            Choice::new("main", Label::verbatim("main"), Tone::Neutral),
            Choice::new("develop", Label::verbatim("develop"), Tone::Neutral),
        ]
    );
}

#[test]
fn a_dismissed_approval_denies_and_a_question_cancels() {
    let approval = Prompt::from_interaction("s1", &approval()).unwrap();
    assert_eq!(approval.dismissal, "deny");

    let question =
        Prompt::from_interaction("s1", &json(r##"{"request_id": "q", "kind": "question"}"##))
            .unwrap();
    assert_eq!(question.dismissal, "cancel");
}

#[test]
fn the_requests_own_default_wins_when_it_is_on_offer() {
    let prompt = Prompt::from_interaction(
        "s1",
        &json(r##"{ "request_id": "int-3", "kind": "question", "options": ["keep", "discard"], "default_option": "keep" }"##),
    )
    .unwrap();

    assert_eq!(prompt.dismissal, "keep");
}

#[test]
fn a_default_that_is_not_on_offer_is_ignored() {
    let prompt = Prompt::from_interaction(
        "s1",
        &json(r##"{ "request_id": "int-4", "kind": "approval", "options": ["approve", "deny"], "default_option": "maybe" }"##),
    )
    .unwrap();

    assert_eq!(prompt.dismissal, "deny");
}

#[test]
fn an_interaction_answer_carries_the_option_verbatim() {
    let prompt = Prompt::from_interaction("s1", &approval()).unwrap();

    assert_eq!(
        prompt.answer("approve"),
        Answer::Interaction {
            session_key: "s1".into(),
            request_id: "int-1".into(),
            decision: "approve".into(),
        }
    );
}

#[test]
fn questions_are_asked_in_the_order_they_arrived() {
    let mut queue = Queue::new();
    queue.push_extension("s1", &confirm());
    queue.push_interaction("s2", &approval());

    assert_eq!(
        queue.current().map(|prompt| prompt.source),
        Some(Source::Extension)
    );
    assert_eq!(
        queue.answer("allow"),
        Some(Answer::Extension {
            session_key: "s1".into(),
            request_id: "req-1".into(),
            confirmed: true,
        })
    );
    assert_eq!(
        queue.current().map(|prompt| prompt.source),
        Some(Source::Interaction)
    );
}

#[test]
fn a_second_confirmation_does_not_replace_an_unanswered_one() {
    let mut queue = Queue::new();
    queue.push_extension("s1", &confirm());
    queue.push_extension("s2", &json(r##"{"id": "req-2", "method": "confirm"}"##));

    assert_eq!(queue.len(), 2);
}

#[test]
fn a_retried_request_is_asked_once() {
    let mut queue = Queue::new();
    queue.push_extension("s1", &confirm());
    queue.push_extension("s1", &confirm());

    assert_eq!(queue.len(), 1);
}

#[test]
fn the_same_id_from_a_different_session_is_a_different_question() {
    let mut queue = Queue::new();
    queue.push_extension("s1", &confirm());
    queue.push_extension("s2", &confirm());

    assert_eq!(queue.len(), 2);
}

#[test]
fn a_non_question_is_never_queued() {
    let mut queue = Queue::new();
    queue.push_extension("s1", &json(r##"{"id": "x", "method": "log"}"##));

    assert!(queue.is_empty());
}

#[test]
fn a_dead_sessions_questions_are_dropped() {
    let mut queue = Queue::new();
    queue.push_extension("s1", &confirm());
    queue.push_interaction("s2", &approval());

    queue.forget_session("s1");

    assert_eq!(queue.len(), 1);
    assert_eq!(
        queue.current().map(|prompt| prompt.session_key.as_str()),
        Some("s2")
    );
}

#[test]
fn answering_an_empty_queue_reports_nothing() {
    let mut queue = Queue::new();

    assert_eq!(queue.answer("allow"), None);
    assert_eq!(queue.dismiss(), None);
}

#[test]
fn an_answer_knows_which_session_it_belongs_to() {
    let prompt = Prompt::from_interaction("s7", &approval()).unwrap();

    assert_eq!(prompt.answer("deny").session_key(), "s7");
}

#[test]
fn the_expected_answer_stands_out_and_a_refusal_warns() {
    assert_eq!(variant(Tone::Primary), ButtonVariant::Primary);
    assert_eq!(variant(Tone::Danger), ButtonVariant::Danger);
    assert_eq!(variant(Tone::Neutral), ButtonVariant::Default);
}

#[test]
fn a_refusal_never_looks_like_the_expected_answer() {
    assert_ne!(variant(Tone::Primary), variant(Tone::Danger));
    assert_ne!(variant(Tone::Neutral), variant(Tone::Danger));
}

#[test]
fn the_chooser_asks_one_question_at_a_time() {
    let mut prompts = Prompts::new();
    assert!(!prompts.is_asking());
    assert!(!prompts.resets_draft());
    prompts.push(Prompt::from_extension("s1", &confirm()).unwrap());
    prompts.push(Prompt::from_interaction("s2", &approval()).unwrap());

    assert!(prompts.resets_draft());
    assert!(!prompts.resets_draft());
    assert_eq!(
        prompts.dismiss(),
        Some(PromptEvent::Answered(Answer::Extension {
            session_key: "s1".into(),
            request_id: "req-1".into(),
            confirmed: false,
        }))
    );
    assert!(prompts.resets_draft());
    assert_eq!(prompts.submit_custom("  \n"), None);
    assert_eq!(
        prompts.submit_custom("  later "),
        Some(PromptEvent::Answered(Answer::Interaction {
            session_key: "s2".into(),
            request_id: "int-1".into(),
            decision: "later".into(),
        }))
    );
    assert_eq!(prompts.answer("allow"), None);
}

#[test]
fn a_session_that_has_gone_asks_nothing_more() {
    let mut prompts = Prompts::new();
    prompts.push(Prompt::from_extension("s1", &confirm()).unwrap());
    prompts.push(Prompt::from_interaction("s2", &approval()).unwrap());
    prompts.forget_session("s1");
    assert_eq!(prompts.current().map(|prompt| prompt.session_key.as_str()), Some("s2"));
}

/// A string table.
fn table(key: &'static str, language: Language) -> &'static str {
    let chinese = language == Language::SimplifiedChinese;
    match (key, chinese) {
        ("allow", false) => "Allow",
        ("allow", true) => "允许",
        ("deny", false) => "Deny",
        ("deny", true) => "拒绝",
        ("prompt-custom-placeholder", false) => "Type an answer",
        ("prompt-custom-send", false) => "Send",
        _ => "?",
    }
}

#[test]
fn a_question_is_drawn_with_its_choices() {
    let mut prompts = Prompts::new();
    assert!(prompts.render(&table).is_none());
    prompts.push(Prompt::from_extension("s1", &confirm()).unwrap());
    let card = prompts.render(&table).expect("a question");
    assert_eq!(card.title, "Run a command?");
    assert_eq!(card.message.as_deref(), Some("Pi wants to run `rm -rf build`."));
    let drawn: Vec<(&str, ButtonVariant, &str)> = card
        .buttons
        .iter()
        .map(|button| (button.value.as_str(), button.variant, button.label.as_str()))
        .collect();
    assert_eq!(
        drawn,
        vec![("allow", ButtonVariant::Primary, "Allow"), ("deny", ButtonVariant::Danger, "Deny")]
    );
    assert!(prompts.set_language(Language::SimplifiedChinese));
    assert!(!prompts.set_language(Language::SimplifiedChinese));
    let card = prompts.render(&table).expect("a question");
    assert_eq!(card.buttons[0].label, "允许");
}

#[test]
fn a_fresh_question_resets_the_answer_field() {
    let mut prompts = Prompts::new();
    assert!(prompts.reset_field(true, None, None, &table).is_none());
    assert!(prompts.render_field(true, "yes", &table).is_none());
    prompts.push(Prompt::from_extension("s1", &confirm()).unwrap());
    prompts.push(Prompt::from_interaction("s2", &approval()).unwrap());

    let reset = prompts.reset_field(true, None, Some("draft"), &table).expect("a reset");
    assert_eq!(reset.placeholder, "Type an answer");
    assert_eq!(reset.value, "draft");
    assert!(reset.focuses);
    assert!(prompts.reset_field(true, None, None, &table).is_none());

    let field = prompts.render_field(true, " yes ", &table).expect("a field");
    assert_eq!(field.send_label, "Send");
    assert!(field.can_send);
    assert!(!prompts.render_field(true, " \n", &table).expect("a field").can_send);
    assert!(prompts.render_field(false, "yes", &table).is_none());

    prompts.dismiss();
    let reset = prompts.reset_field(false, Some("Why?"), None, &table).expect("a reset");
    assert_eq!((reset.placeholder.as_str(), reset.value.as_str()), ("Why?", ""));
    assert!(!reset.focuses);
}
