//! Prompts and their attachments.

use pi_whim::domain::{Attachment, AttachmentKind, BashPolicy};
use pi_whim::session::{
    attachment_of, bash_policy_name, prompt_with_attachment_paths, split_attachment_paths,
};

/// Resolves the paths of a known list.
fn among(known: &[&str]) -> impl Fn(&str) -> Option<Attachment> {
    let known: Vec<String> = known.iter().map(|path| path.to_string()).collect();
    move |line: &str| {
        known
            .iter()
            .any(|path| path == line)
            .then(|| attachment_of(line, line.rsplit('/').next(), false, false))
    }
}

fn file(path: &str) -> Attachment {
    attachment_of(path, path.rsplit('/').next(), false, false)
}

#[test]
fn trailing_paths_come_off_as_attachments_in_order() {
    let wire = prompt_with_attachment_paths(
        "look at these",
        &vec![file("/tmp/d/one.png"), file("/tmp/d/two.txt")],
    );
    assert_eq!(wire, "look at these\n/tmp/d/one.png\n/tmp/d/two.txt");

    let (text, attachments) =
        split_attachment_paths(&wire, among(&["/tmp/d/one.png", "/tmp/d/two.txt"]));

    assert_eq!(text, "look at these");
    assert_eq!(attachments.len(), 2);
    assert_eq!(attachments[0].name, "one.png");
    assert_eq!(attachments[1].name, "two.txt");
    assert!(!attachments[0].generated_by_app);
}

#[test]
fn a_prompt_of_only_paths_leaves_no_text() {
    let wire = prompt_with_attachment_paths("", &vec![file("/tmp/d/only.png")]);

    let (text, attachments) = split_attachment_paths(&wire, among(&["/tmp/d/only.png"]));

    assert!(text.is_empty());
    assert_eq!(attachments.len(), 1);
}

#[test]
fn prose_relative_paths_and_missing_files_stay_text() {
    let prose = "see /definitely/not/here.png\nand relative/path.rs";
    let (text, attachments) = split_attachment_paths(prose, among(&[]));
    assert_eq!(text, prose);
    assert!(attachments.is_empty());

    let missing = "question\n/definitely/not/here.png";
    let (text, attachments) = split_attachment_paths(missing, among(&[]));
    assert_eq!(text, missing);
    assert!(attachments.is_empty());
}

#[test]
fn a_path_above_prose_stays() {
    let (text, attachments) =
        split_attachment_paths("/a\nthen this\n/b \n\n", among(&["/a", "/b"]));
    assert_eq!(text, "/a\nthen this");
    assert_eq!(attachments, vec![file("/b")]);
}

#[test]
fn a_prompt_without_attachments_is_left_alone() {
    assert_eq!(prompt_with_attachment_paths("hello ", &Vec::new()), "hello ");
}

#[test]
fn a_folder_without_a_name_is_still_named() {
    let root = attachment_of("/", None, true, true);
    assert_eq!(root.name, "attachment");
    assert_eq!(root.kind, AttachmentKind::Directory);
    assert!(root.generated_by_app);
}

#[test]
fn policies_have_names() {
    assert_eq!(bash_policy_name(&BashPolicy::Allow), "allow");
    assert_eq!(bash_policy_name(&BashPolicy::Ask), "ask");
    assert_eq!(bash_policy_name(&BashPolicy::Deny), "deny");
}
