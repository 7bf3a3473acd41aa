//! The draft, and the prompt input around it.

use pi_whim::chat::composer::{
    clipboard_of, intercept_paste, submit_mode, ClipboardEntry, Composer as PromptInput,
    ComposerEvent, SendButton, SUBMIT_HINT,
};
use pi_whim::chat::paste::{classify, Clipboard, Paste};
use pi_whim::composer::Composer;
use pi_whim::domain::{Attachment, AttachmentKind, SubmitMode};
use pi_whim::session::is_large_paste;

fn attachment(path: &str) -> Attachment {
    Attachment {
        name: path.rsplit('/').next().unwrap_or(path).to_owned(),
        path: path.into(),
        kind: AttachmentKind::File,
        generated_by_app: false,
    }
}

fn text(value: &str) -> Clipboard {
    Clipboard { text: Some(value.to_owned()), ..Clipboard::default() }
}

#[test]
fn attachments_are_deduplicated_by_path() {
    let mut composer = Composer::new();
    composer.add_attachment(attachment("/tmp/example.txt"));
    composer.add_attachment(attachment("/tmp/example.txt"));

    assert_eq!(composer.attachments().len(), 1);
}

#[test]
fn attachments_are_removable_by_path() {
    let mut composer = Composer::new();
    composer.add_attachment(attachment("/tmp/example.txt"));
    composer.add_attachment(attachment("/tmp/other.txt"));

    composer.remove_attachment("/tmp/example.txt");

    assert_eq!(composer.attachments().len(), 1);
    assert_eq!(composer.attachments()[0].path, "/tmp/other.txt");
}

#[test]
fn a_draft_with_only_whitespace_is_empty() {
    let mut composer = Composer::new();
    assert!(composer.is_empty());

    composer.set_text("   \n\t ");
    assert!(composer.is_empty());

    composer.set_text("hello");
    assert!(!composer.is_empty());
}

#[test]
fn attachments_alone_are_worth_submitting() {
    let mut composer = Composer::new();
    composer.add_attachment(attachment("/tmp/image.png"));

    assert!(!composer.is_empty());
}

#[test]
fn taking_the_draft_leaves_it_empty() {
    let mut composer = Composer::new();
    composer.set_text("hello");
    composer.add_attachment(attachment("/tmp/example.txt"));

    let (text, attachments) = composer.take();

    assert_eq!(text, "hello");
    assert_eq!(attachments.len(), 1);
    assert!(composer.is_empty());
    assert!(composer.attachments().is_empty());
}

#[test]
fn search_is_independent_of_the_draft() {
    let mut composer = Composer::new();
    composer.set_search("opus");
    composer.set_text("hello");

    composer.clear_text();

    assert_eq!(composer.search(), "opus");
}

#[test]
fn typing_while_the_agent_works_steers_the_turn() {
    assert_eq!(submit_mode(true), SubmitMode::Steer);
    assert_eq!(submit_mode(false), SubmitMode::Prompt);
}

#[test]
fn the_draft_keeps_attachment_paths_unique() {
    let mut draft = Composer::new();
    draft.add_attachment(attachment("/tmp/notes.txt"));
    draft.add_attachment(attachment("/tmp/notes.txt"));
    assert_eq!(draft.attachments().len(), 1);

    draft.remove_attachment("/tmp/notes.txt");
    assert!(draft.attachments().is_empty());
}

#[test]
fn an_empty_draft_is_not_worth_submitting() {
    let mut draft = Composer::new();
    draft.set_text("   \n ");
    assert!(draft.is_empty());

    draft.add_attachment(attachment("/tmp/image.png"));
    assert!(!draft.is_empty());
}

#[test]
fn ordinary_text_goes_into_the_field() {
    assert_eq!(classify(text("a short question"), is_large_paste), Paste::Insert);
}

#[test]
fn a_wall_of_text_becomes_an_attachment() {
    let long = "line\n".repeat(40);
    assert_eq!(classify(text(&long), is_large_paste), Paste::LongText(long.clone()));
}

#[test]
fn copied_files_win_over_the_paths_as_text() {
    let clipboard = Clipboard {
        paths: vec!["/tmp/a.rs".to_owned()],
        text: Some("/tmp/a.rs".to_owned()),
        image: None,
    };

    assert_eq!(
        classify(clipboard, is_large_paste),
        Paste::Files(vec!["/tmp/a.rs".to_owned()])
    );
}

#[test]
fn an_image_wins_over_text_that_came_with_it() {
    let clipboard = Clipboard {
        paths: Vec::new(),
        text: Some("screenshot".to_owned()),
        image: Some(("png".to_owned(), vec![0x89, b'P', b'N', b'G'])),
    };

    assert_eq!(
        classify(clipboard, is_large_paste),
        Paste::Image { extension: "png".to_owned(), bytes: vec![0x89, b'P', b'N', b'G'] }
    );
}

#[test]
fn an_empty_clipboard_is_left_to_the_input() {
    assert_eq!(classify(Clipboard::default(), is_large_paste), Paste::Insert);
}

#[test]
fn a_paste_is_large_past_a_thousand_characters_or_ten_lines() {
    assert!(!is_large_paste(&"x".repeat(1000)));
    assert!(is_large_paste(&"x".repeat(1001)));
    assert!(!is_large_paste(&"line\n".repeat(10)));
    assert!(is_large_paste("1\n2\n3\n4\n5\n6\n7\n8\n9\n10\n11"));
    assert!(!is_large_paste("\r\n\r\n"));
}

#[test]
fn entries_of_the_clipboard_come_together() {
    let clipboard = clipboard_of(
        vec![
            ClipboardEntry::Paths(vec!["/a".to_owned(), "/b".to_owned()]),
            ClipboardEntry::Text,
            ClipboardEntry::Image { extension: "gif".to_owned(), bytes: vec![1] },
            ClipboardEntry::Image { extension: "png".to_owned(), bytes: vec![2] },
            ClipboardEntry::Paths(vec!["/c".to_owned()]),
        ],
        Some("both".to_owned()),
    );

    assert_eq!(clipboard.paths, vec!["/a", "/b", "/c"]);
    assert_eq!(clipboard.image, Some(("png".to_owned(), vec![2])));
    assert_eq!(clipboard.text.as_deref(), Some("both"));
}

#[test]
fn only_what_belongs_on_disk_is_intercepted() {
    assert_eq!(intercept_paste(text("a short question")), None);
    let long = "line\n".repeat(40);
    assert_eq!(
        intercept_paste(text(&long)),
        Some(ComposerEvent::AttachPaste(Paste::LongText(long)))
    );
}

#[test]
fn submitting_sends_the_draft_once() {
    let mut input = PromptInput::new();
    assert_eq!(input.submit("  \n"), None);

    input.add_attachment(attachment("/tmp/a.txt"));
    input.add_attachment(attachment("/tmp/a.txt"));
    assert!(input.set_busy(true));
    assert!(!input.set_busy(true));

    assert_eq!(
        input.submit("look"),
        Some(ComposerEvent::Submit {
            content: "look".to_owned(),
            attachments: vec![attachment("/tmp/a.txt")],
            mode: SubmitMode::Steer,
        })
    );
    assert!(input.attachments().is_empty());
    assert_eq!(input.submit(""), None);
}

#[test]
fn the_button_stops_a_turn_in_flight() {
    let mut input = PromptInput::new();
    assert_eq!(input.send_button(), SendButton::Send);
    assert_eq!(input.send_button().tooltip(), SUBMIT_HINT);
    input.set_busy(true);
    assert_eq!(input.send_button(), SendButton::Stop);
    assert_eq!(input.press_button("hello"), Some(ComposerEvent::Stop));
    input.set_busy(false);
    assert!(matches!(
        input.press_button("hello"),
        Some(ComposerEvent::Submit { mode: SubmitMode::Prompt, .. })
    ));
}
