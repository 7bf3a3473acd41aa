//! Reasoning inside a reply.

use pi_whim::chat::message_card::{
    assistant_body, hugs_its_content, render_card, user_text_for_display, Block, Card,
    MessageExpansion,
};
use pi_whim::domain::{ConversationItem, ConversationRole};
use pi_whim::thinking::{fenced_ranges, split_thinking_segments, trim_incomplete_tag, Segment};

fn message(role: ConversationRole, text: &str) -> ConversationItem {
    ConversationItem {
        id: "m1".into(),
        role,
        full_text: text.into(),
        streaming: false,
        tool_name: None,
        tool_report: None,
        tool_details: None,
        is_error: false,
        model: None,
        attachments: Vec::new(),
    }
}

fn body(text: &str) -> Vec<Block> {
    assistant_body(text, &MessageExpansion::new())
}

#[test]
fn thinking_segments_split_closed_blocks() {
    let source = "before\n\n<thinking>\nwhy\n</thinking>\n\nafter";
    let segments = split_thinking_segments(source);
    assert_eq!(segments.len(), 3);
    match (&segments[0], &segments[1], &segments[2]) {
        (Segment::Markdown(a), Segment::Thinking(b), Segment::Markdown(c)) => {
            assert_eq!(&source[a.clone()], "before\n\n");
            assert_eq!(&source[b.clone()], "\nwhy\n");
            assert_eq!(&source[c.clone()], "\n\nafter");
        }
        _ => panic!("unexpected segments: {segments:?}"),
    }
}

#[test]
fn thinking_segments_unclosed_block_runs_to_end() {
    let source = "before\n\n<thinking>\nstill streaming";
    let segments = split_thinking_segments(source);
    assert_eq!(segments.len(), 2);
    match (&segments[0], &segments[1]) {
        (Segment::Markdown(a), Segment::Thinking(b)) => {
            assert_eq!(&source[a.clone()], "before\n\n");
            assert_eq!(&source[b.clone()], "\nstill streaming");
        }
        _ => panic!("unexpected segments"),
    }
}

#[test]
fn thinking_tags_inside_code_fences_stay_markdown() {
    let source = "text\n\n```\n<thinking>\nnot a block\n</thinking>\n```\n\nafter";
    let segments = split_thinking_segments(source);
    assert_eq!(segments.len(), 1);
    match &segments[0] {
        Segment::Markdown(range) => assert_eq!(&source[range.clone()], source),
        Segment::Thinking(_) => panic!("expected a single markdown segment"),
    }
}

#[test]
fn thinking_tags_after_unclosed_fence_stay_markdown() {
    let source = "```\nunclosed fence\n<thinking>\nrest";
    let segments = split_thinking_segments(source);
    assert_eq!(segments.len(), 1);
    assert!(matches!(segments[0], Segment::Markdown(_)));
}

#[test]
fn incomplete_streaming_tags_are_withheld_until_complete() {
    let full = "before<thinking>reason</thinking>after";
    assert_eq!(trim_incomplete_tag("before<thi", full), "before");
    assert_eq!(
        trim_incomplete_tag("before<thinking>reason</thin", full),
        "before<thinking>reason"
    );
    assert_eq!(trim_incomplete_tag("before<thinking>", full), "before<thinking>");
}

#[test]
fn non_tag_suffixes_are_not_withheld() {
    assert_eq!(trim_incomplete_tag("x <", "x < y"), "x <");
    assert_eq!(trim_incomplete_tag("literal <thi", "literal <thing"), "literal <thi");
}

#[test]
fn a_fence_closes_on_a_run_that_is_long_enough() {
    let source = "````\n```\n<thinking>\n````\nafter";
    let ranges = fenced_ranges(source);
    assert_eq!(ranges.len(), 1);
    assert_eq!(&source[ranges[0].clone()], "````\n```\n<thinking>\n````\n");
    assert!(fenced_ranges("    ```\ntext").is_empty());
    assert_eq!(fenced_ranges("~~~\ntext").len(), 1);
}

#[test]
fn assistant_text_splits_reasoning_from_the_reply() {
    let blocks = body("<thinking>weighing it up</thinking>Here is the answer.");
    assert_eq!(blocks.len(), 2);
    assert_eq!(
        blocks[0],
        Block::Reasoning { part: 0, text: "weighing it up".to_owned(), expanded: false }
    );
    assert_eq!(blocks[1], Block::Prose { part: 1, text: "Here is the answer.".to_owned() });
}

#[test]
fn plain_replies_render_as_one_block() {
    assert_eq!(body("Just an answer.").len(), 1);
}

#[test]
fn empty_segments_are_dropped() {
    assert_eq!(body("<thinking>still working</thinking>").len(), 1);
    assert!(body("   ").is_empty());
}

#[test]
fn a_prompt_hugs_its_text_while_a_reply_fills_the_measure() {
    assert!(hugs_its_content(ConversationRole::User));
    assert!(!hugs_its_content(ConversationRole::Assistant));
    assert!(!hugs_its_content(ConversationRole::Tool));
    assert!(!hugs_its_content(ConversationRole::System));
}

#[test]
fn a_streaming_prefix_is_what_gets_rendered() {
    let full = message(ConversationRole::Assistant, "the whole answer");
    let card = render_card(&full, "the whole", &MessageExpansion::new(), None);
    let Card::Reply { blocks, .. } = card else {
        panic!("expected a reply");
    };
    assert_eq!(blocks, vec![Block::Prose { part: 0, text: "the whole".to_owned() }]);
}

#[test]
fn prompt_display_drops_only_trailing_whitespace() {
    assert_eq!(user_text_for_display("question\n"), "question");
    assert_eq!(user_text_for_display("question  \n\n"), "question");
    assert_eq!(user_text_for_display("  question"), "  question");
}

#[test]
fn reasoning_between_wide_characters_is_cut_whole() {
    let blocks = body("前<thinking>思考</thinking>后🙂");
    assert_eq!(
        blocks,
        vec![
            Block::Prose { part: 0, text: "前".to_owned() },
            Block::Reasoning { part: 1, text: "思考".to_owned(), expanded: false },
            Block::Prose { part: 2, text: "后🙂".to_owned() },
        ]
    );
}

#[test]
fn open_reasoning_is_shown() {
    let mut expansion = MessageExpansion::new();
    expansion.flip(0);
    let blocks = assistant_body("<thinking>why</thinking>", &expansion);
    assert!(matches!(blocks[0], Block::Reasoning { expanded: true, .. }));
    expansion.flip(0);
    assert!(expansion.is_empty());
}
