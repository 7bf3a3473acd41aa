//! The prompt input: what submitting, pasting and its buttons come to.

use vstd::prelude::*;

use crate::chat::paste::{classify, is_meaning, Clipboard, Paste};
use crate::chrome::icons::{send, stop, IconName};
use crate::composer::{detached, is_attached, Composer as Draft, ComposerView};
use crate::domain::{Attachment, SubmitMode};
use crate::session::{is_large_paste, line_count, MAX_PASTE_CHARS, MAX_PASTE_LINES};
use crate::text::trim;
use crate::views::views;

verus! {

/// What the two keys of the input do.
pub const SUBMIT_HINT: &'static str = "Enter to send · Shift+Enter for a newline";

/// What the composer asks for.
#[derive(Clone, Debug, PartialEq)]
pub enum ComposerEvent {
    /// Send the drafted prompt.
    Submit { content: String, attachments: Vec<Attachment>, mode: SubmitMode },
    /// Interrupt the turn in flight.
    Stop,
    /// Drop an attachment from the draft.
    RemoveAttachment(String),
    /// What is typed changed.
    TextChanged(String),
    /// A paste that belongs on disk rather than in the field.
    AttachPaste(Paste),
    /// Ask for files or folders to attach.
    PickAttachments,
}

/// How a prompt travels: one that is typed while the agent works steers the turn.
pub fn submit_mode(busy: bool) -> (r: SubmitMode)
    ensures
        r == if busy {
            SubmitMode::Steer
        } else {
            SubmitMode::Prompt
        },
{
    if busy {
        SubmitMode::Steer
    } else {
        SubmitMode::Prompt
    }
}

/// An entry of the clipboard.
pub enum ClipboardEntry {
    /// Paths that were copied.
    Paths(Vec<String>),
    /// An image, with the extension that names its encoding.
    Image { extension: String, bytes: Vec<u8> },
    /// Text, which is read as a whole instead.
    Text,
}

/// The paths of the first `n` entries, in order.
pub open spec fn paths_in(entries: Seq<ClipboardEntry>, n: nat) -> Seq<Seq<char>>
    decreases n,
{
    if n == 0 {
        Seq::empty()
    } else {
        paths_in(entries, (n - 1) as nat) + match entries[n - 1] {
            ClipboardEntry::Paths(paths) => views(paths@),
            _ => Seq::empty(),
        }
    }
}

/// The last image of the first `n` entries.
pub open spec fn image_in(entries: Seq<ClipboardEntry>, n: nat) -> Option<(Seq<char>, Seq<u8>)>
    decreases n,
{
    if n == 0 {
        None
    } else {
        match entries[n - 1] {
            ClipboardEntry::Image { extension, bytes } => Some((extension@, bytes@)),
            _ => image_in(entries, (n - 1) as nat),
        }
    }
}

/// What an optional image holds.
pub open spec fn image_view(image: Option<(String, Vec<u8>)>) -> Option<(Seq<char>, Seq<u8>)> {
    match image {
        Some((extension, bytes)) => Some((extension@, bytes@)),
        None => None,
    }
}

/// The clipboard of its entries, and of the text that they come to.
pub fn clipboard_of(entries: Vec<ClipboardEntry>, text: Option<String>) -> (r: Clipboard)
    ensures
        views(r.paths@) == paths_in(entries@, entries@.len()),
        image_view(r.image) == image_in(entries@, entries@.len()),
        r.text == text,
{
    let ghost all = entries@;
    let mut left = entries;
    let mut paths: Vec<String> = Vec::new();
    let mut image: Option<(String, Vec<u8>)> = None;
    let n: usize = left.len();
    let mut i: usize = 0;
    proof {
        assert(left@ =~= all.skip(0));
        assert(views(paths@) =~= Seq::empty());
    }
    while i < n
        invariant
            i <= n == all.len(),
            left@ == all.skip(i as int),
            views(paths@) == paths_in(all, i as nat),
            image_view(image) == image_in(all, i as nat),
        decreases n - i,
    {
        let entry = left.remove(0);
        proof {
            assert(entry == all[i as int]);
            assert(left@ =~= all.skip(i + 1));
        }
        match entry {
            ClipboardEntry::Paths(more) => {
                let ghost before = views(paths@);
                let ghost added = views(more@);
                let mut more = more;
                paths.append(&mut more);
                proof {
                    assert(views(paths@) =~= before + added);
                }
            },
            ClipboardEntry::Image { extension, bytes } => {
                image = Some((extension, bytes));
                proof {
                    assert(views(paths@) + Seq::<Seq<char>>::empty() =~= views(paths@));
                }
            },
            ClipboardEntry::Text => {
                proof {
                    assert(views(paths@) + Seq::<Seq<char>>::empty() =~= views(paths@));
                }
            },
        }
        i = i + 1;
    }
    Clipboard { paths, text, image }
}

/// Whether a text is too long for the field.
pub open spec fn is_long(text: Seq<char>) -> bool {
    text.len() > MAX_PASTE_CHARS || line_count(text) > MAX_PASTE_LINES
}

/// Whether the text of a clipboard is too long for the field.
pub open spec fn holds_long_text(clipboard: Clipboard) -> bool {
    match clipboard.text {
        Some(text) => is_long(text@),
        None => false,
    }
}

/// What a paste asks for, where it belongs on disk rather than in the field.
pub fn intercept_paste(clipboard: Clipboard) -> (r: Option<ComposerEvent>)
    ensures
        match r {
            Some(event) => event is AttachPaste && !(event->AttachPaste_0 is Insert) && is_meaning(
                clipboard,
                holds_long_text(clipboard),
                event->AttachPaste_0,
            ),
            None => is_meaning(clipboard, holds_long_text(clipboard), Paste::Insert),
        },
{
    let is_long_text = |text: &str| -> (r: bool)
        ensures
            r == is_long(text@),
        { is_large_paste(text) };
    match classify(clipboard, is_long_text) {
        Paste::Insert => None,
        paste => Some(ComposerEvent::AttachPaste(paste)),
    }
}

/// The one button: there is only ever one thing to do with a turn.
#[derive(Clone, Copy, Debug, PartialEq, Eq, Structural)]
pub enum SendButton {
    Send,
    Stop,
}

impl SendButton {
    /// What the button says it does.
    pub fn tooltip(self) -> (r: &'static str)
        ensures
            r@ == match self {
                SendButton::Send => SUBMIT_HINT@,
                SendButton::Stop => "Stop the turn in flight"@,
            },
    {
        match self {
            SendButton::Send => SUBMIT_HINT,
            SendButton::Stop => "Stop the turn in flight",
        }
    }

    /// The glyph of the button.
    pub fn icon(self) -> (r: IconName)
        ensures
            r == match self {
                SendButton::Send => IconName::ArrowUp,
                SendButton::Stop => IconName::Pause,
            },
    {
        match self {
            SendButton::Send => send(),
            SendButton::Stop => stop(),
        }
    }
}

/// What the composer holds.
#[verifier::ext_equal]
pub struct PromptView {
    pub draft: ComposerView,
    /// Whether the agent is at work.
    pub busy: bool,
}

/// Whether submitting what is typed turns `before` into `after` and asks for `r`.
/// A draft without text or attachments is not sent; another one is, and leaves the
/// composer empty.
pub open spec fn is_submission(
    before: PromptView,
    typed: Seq<char>,
    after: PromptView,
    r: Option<ComposerEvent>,
) -> bool {
    if trim(typed).len() == 0 && before.draft.attachments.len() == 0 {
        &&& r is None
        &&& after == (PromptView {
            draft: ComposerView { text: typed, ..before.draft },
            ..before
        })
    } else {
        &&& after == (PromptView {
            draft: ComposerView {
                text: Seq::empty(),
                attachments: Seq::empty(),
                ..before.draft
            },
            ..before
        })
        &&& match r {
            Some(ComposerEvent::Submit { content, attachments, mode }) => {
                &&& content@ == typed
                &&& views(attachments@) == before.draft.attachments
                &&& mode == if before.busy {
                    SubmitMode::Steer
                } else {
                    SubmitMode::Prompt
                }
            },
            _ => false,
        }
    }
}

/// The prompt input and its attachments.
pub struct Composer {
    draft: Draft,
    busy: bool,
}

impl View for Composer {
    type V = PromptView;

    closed spec fn view(&self) -> PromptView {
        PromptView { draft: self.draft@, busy: self.busy }
    }
}

impl Composer {
    /// No path is attached twice.
    pub closed spec fn wf(&self) -> bool {
        self.draft.wf()
    }

    /// An empty composer.
    pub fn new() -> (r: Composer)
        ensures
            r.wf(),
            !r@.busy,
            r@.draft == (ComposerView {
                text: Seq::empty(),
                attachments: Seq::empty(),
                search: Seq::empty(),
            }),
    {
        Composer { draft: Draft::new(), busy: false }
    }

    /// Says whether the agent is at work. Returns whether that is news.
    pub fn set_busy(&mut self, busy: bool) -> (r: bool)
        requires
            old(self).wf(),
        ensures
            final(self).wf(),
            final(self)@ == (PromptView { busy, ..old(self)@ }),
            r == (old(self)@.busy != busy),
    {
        let news = self.busy != busy;
        self.busy = busy;
        news
    }

    /// Attaches something, unless its path is attached already.
    pub fn add_attachment(&mut self, attachment: Attachment)
        requires
            old(self).wf(),
        ensures
            final(self).wf(),
            final(self)@ == if is_attached(old(self)@.draft.attachments, attachment.path@) {
                old(self)@
            } else {
                PromptView {
                    draft: ComposerView {
                        attachments: old(self)@.draft.attachments.push(attachment@),
                        ..old(self)@.draft
                    },
                    ..old(self)@
                }
            },
    {
        self.draft.add_attachment(attachment);
    }

    /// Drops the attachment at a path.
    pub fn remove_attachment(&mut self, path: &str)
        requires
            old(self).wf(),
        ensures
            final(self).wf(),
            final(self)@ == (PromptView {
                draft: ComposerView {
                    attachments: detached(old(self)@.draft.attachments, path@),
                    ..old(self)@.draft
                },
                ..old(self)@
            }),
    {
        self.draft.remove_attachment(path);
    }

    /// The attachments.
    pub fn attachments(&self) -> (r: &Vec<Attachment>)
        ensures
            views(r@) == self@.draft.attachments,
    {
        self.draft.attachments()
    }

    /// Submits what is typed with what is attached, where that is worth sending:
    /// the draft is then empty again, and so is the field.
    pub fn submit(&mut self, typed: &str) -> (r: Option<ComposerEvent>)
        requires
            old(self).wf(),
        ensures
            final(self).wf(),
            is_submission(old(self)@, typed@, final(self)@, r),
    {
        self.draft.set_text(typed);
        if self.draft.is_empty() {
            return None;
        }
        let mode = submit_mode(self.busy);
        let (content, attachments) = self.draft.take();
        Some(ComposerEvent::Submit { content, attachments, mode })
    }

    /// The one button as it is drawn: it ends the turn in flight, or sends.
    pub fn send_button(&self) -> (r: SendButton)
        ensures
            r == if self@.busy {
                SendButton::Stop
            } else {
                SendButton::Send
            },
    {
        if self.busy {
            SendButton::Stop
        } else {
            SendButton::Send
        }
    }

    /// What the one button does: it ends the turn in flight, or submits.
    pub fn press_button(&mut self, typed: &str) -> (r: Option<ComposerEvent>)
        requires
            old(self).wf(),
        ensures
            final(self).wf(),
            old(self)@.busy ==> r == Some(ComposerEvent::Stop) && final(self)@ == old(self)@,
            !old(self)@.busy ==> is_submission(old(self)@, typed@, final(self)@, r),
    {
        if self.busy {
            return Some(ComposerEvent::Stop);
        }
        self.submit(typed)
    }
}

} // verus!
