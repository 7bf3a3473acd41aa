//! What a paste into the composer means.
//!
//! Most pastes are text and belong in the field. Copied files, a screenshot and a
//! wall of text become attachments, so that the model gets a path to read.

use vstd::prelude::*;

verus! {

/// What should happen to a paste.
#[derive(Clone, Debug, PartialEq, Eq)]
pub enum Paste {
    /// Let the input insert it.
    Insert,
    /// Attach the copied files.
    Files(Vec<String>),
    /// Attach the image: its encoded bytes, and the extension that names the
    /// encoding.
    Image { extension: String, bytes: Vec<u8> },
    /// Attach the text.
    LongText(String),
}

/// What is on the clipboard.
#[derive(Clone, Debug, PartialEq, Eq)]
pub struct Clipboard {
    /// The paths, where files were copied.
    pub paths: Vec<String>,
    pub text: Option<String>,
    /// An encoded image, and the extension that names its encoding.
    pub image: Option<(String, Vec<u8>)>,
}

impl Default for Clipboard {
    fn default() -> (r: Self)
        ensures
            r.paths@.len() == 0,
            r.text is None,
            r.image is None,
    {
        Clipboard { paths: Vec::new(), text: None, image: None }
    }
}

/// Whether `r` is what a paste of `clipboard` means, where `long` says whether
/// its text is too long for the field. Files win over text and an image over the
/// text that came with it.
pub open spec fn is_meaning(clipboard: Clipboard, long: bool, r: Paste) -> bool {
    if clipboard.paths@.len() > 0 {
        r == Paste::Files(clipboard.paths)
    } else if let Some((extension, bytes)) = clipboard.image {
        r == (Paste::Image { extension, bytes })
    } else if let Some(text) = clipboard.text {
        r == if long {
            Paste::LongText(text)
        } else {
            Paste::Insert
        }
    } else {
        r == Paste::Insert
    }
}

/// Whether a paste is decided by more than how long its text is.
pub open spec fn is_decided(clipboard: Clipboard) -> bool {
    clipboard.paths@.len() > 0 || clipboard.image is Some || clipboard.text is None
}

/// What a paste means. `is_long` says whether a text is too long for the field;
/// it is asked only where that decides.
pub fn classify<F: Fn(&str) -> bool>(clipboard: Clipboard, is_long: F) -> (r: Paste)
    requires
        forall|text: &str| call_requires(is_long, (text,)),
    ensures
        is_decided(clipboard) ==> is_meaning(clipboard, false, r),
        !is_decided(clipboard) ==> exists|text: &str, long: bool|
            text@ == clipboard.text->Some_0@ && #[trigger] call_ensures(is_long, (text,), long)
                && is_meaning(clipboard, long, r),
{
    if clipboard.paths.len() > 0 {
        return Paste::Files(clipboard.paths);
    }
    if let Some((extension, bytes)) = clipboard.image {
        return Paste::Image { extension, bytes };
    }
    match clipboard.text {
        Some(text) => {
            if is_long(text.as_str()) {
                Paste::LongText(text)
            } else {
                Paste::Insert
            }
        },
        None => Paste::Insert,
    }
}

} // verus!
