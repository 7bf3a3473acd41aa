//! The prompt being drafted, and its attachments.

use vstd::prelude::*;

use crate::domain::{Attachment, AttachmentView};
use crate::text::{blank, same, trim};
use crate::views::{lemma_filter_none, lemma_filter_step, lemma_views_push, views};

verus! {

/// A prompt draft: its text, its attachments and the filter of the model picker.
#[derive(Clone, Debug)]
pub struct Composer {
    text: String,
    attachments: Vec<Attachment>,
    search: String,
}

/// What a draft holds.
#[verifier::ext_equal]
pub struct ComposerView {
    pub text: Seq<char>,
    pub attachments: Seq<AttachmentView>,
    pub search: Seq<char>,
}

impl View for Composer {
    type V = ComposerView;

    closed spec fn view(&self) -> ComposerView {
        ComposerView {
            text: self.text@,
            attachments: views(self.attachments@),
            search: self.search@,
        }
    }
}

/// Whether no path is attached twice.
pub open spec fn paths_unique(attachments: Seq<AttachmentView>) -> bool {
    forall|i: int, j: int|
        0 <= i < j < attachments.len() ==> (#[trigger] attachments[i]).path != (
        #[trigger] attachments[j]).path
}

/// Whether a path is attached.
pub open spec fn is_attached(attachments: Seq<AttachmentView>, path: Seq<char>) -> bool {
    exists|i: int| 0 <= i < attachments.len() && (#[trigger] attachments[i]).path == path
}

/// The attachments without those at a path.
pub open spec fn detached(attachments: Seq<AttachmentView>, path: Seq<char>) -> Seq<AttachmentView> {
    attachments.filter(|a: AttachmentView| a.path != path)
}

proof fn lemma_detached_unique(attachments: Seq<AttachmentView>, path: Seq<char>)
    requires
        paths_unique(attachments),
    ensures
        paths_unique(detached(attachments, path)),
        !is_attached(detached(attachments, path), path),
        forall|p: Seq<char>|
            p != path ==> (#[trigger] is_attached(detached(attachments, path), p) <==> is_attached(
                attachments,
                p,
            )),
    decreases attachments.len(),
{
    reveal(Seq::filter);
    let f = |a: AttachmentView| a.path != path;
    if attachments.len() > 0 {
        let rest = attachments.drop_last();
        let last = attachments.last();
        assert(paths_unique(rest)) by {
            assert forall|i: int, j: int| 0 <= i < j < rest.len() implies (
            #[trigger] rest[i]).path != (#[trigger] rest[j]).path by {
                assert(attachments[i].path != attachments[j].path);
            }
        }
        lemma_detached_unique(rest, path);
        let kept = detached(rest, path);
        let after = detached(attachments, path);
        assert(!is_attached(rest, last.path)) by {
            if is_attached(rest, last.path) {
                let i = choose|i: int| 0 <= i < rest.len() && (#[trigger] rest[i]).path == last.path;
                assert(attachments[i].path != attachments[attachments.len() - 1].path);
            }
        }
        assert forall|p: Seq<char>| #[trigger] is_attached(attachments, p) <==> is_attached(rest, p)
            || p == last.path by {
            if is_attached(rest, p) {
                let i = choose|i: int| 0 <= i < rest.len() && (#[trigger] rest[i]).path == p;
                assert(attachments[i].path == p);
            }
            if is_attached(attachments, p) && p != last.path {
                let i = choose|i: int|
                    0 <= i < attachments.len() && (#[trigger] attachments[i]).path == p;
                assert(rest[i].path == p);
            }
            assert(attachments[attachments.len() - 1].path == last.path);
        }
        if last.path != path {
            assert(after == kept.push(last));
            assert forall|p: Seq<char>| #[trigger] is_attached(after, p) <==> is_attached(kept, p)
                || p == last.path by {
                if is_attached(kept, p) {
                    let i = choose|i: int| 0 <= i < kept.len() && (#[trigger] kept[i]).path == p;
                    assert(after[i].path == p);
                }
                if is_attached(after, p) && p != last.path {
                    let i = choose|i: int| 0 <= i < after.len() && (#[trigger] after[i]).path == p;
                    assert(kept[i].path == p);
                }
                assert(after[kept.len() as int].path == last.path);
            }
            assert(!is_attached(kept, last.path));
            assert forall|i: int, j: int| 0 <= i < j < after.len() implies (
            #[trigger] after[i]).path != (#[trigger] after[j]).path by {
                if j == kept.len() {
                    assert(kept[i].path == after[i].path);
                }
            }
        } else {
            assert(after == kept);
        }
    }
}

impl Composer {
    /// No path is attached twice.
    pub open spec fn wf(&self) -> bool {
        paths_unique(self@.attachments)
    }

    /// An empty draft.
    pub fn new() -> (r: Composer)
        ensures
            r.wf(),
            r@ == (ComposerView {
                text: Seq::empty(),
                attachments: Seq::empty(),
                search: Seq::empty(),
            }),
    {
        let r = Composer { text: String::new(), attachments: Vec::new(), search: String::new() };
        proof {
            assert(r@.attachments =~= Seq::empty());
        }
        r
    }

    /// The text.
    pub fn text(&self) -> (r: &str)
        ensures
            r@ == self@.text,
    {
        self.text.as_str()
    }

    /// The text, for an input to write to.
    pub fn text_mut(&mut self) -> (r: &mut String)
        requires
            old(self).wf(),
        ensures
            r@ == old(self)@.text,
            final(self).wf(),
            final(self)@ == (ComposerView { text: (*final(r))@, ..old(self)@ }),
    {
        &mut self.text
    }

    /// Replaces the text.
    pub fn set_text(&mut self, text: &str)
        requires
            old(self).wf(),
        ensures
            final(self).wf(),
            final(self)@ == (ComposerView { text: text@, ..old(self)@ }),
    {
        self.text = text.to_owned();
    }

    /// Drops the text.
    pub fn clear_text(&mut self)
        requires
            old(self).wf(),
        ensures
            final(self).wf(),
            final(self)@ == (ComposerView { text: Seq::empty(), ..old(self)@ }),
    {
        self.text = String::new();
    }

    /// Whether there is nothing worth submitting.
    pub fn is_empty(&self) -> (r: bool)
        ensures
            r == (trim(self@.text).len() == 0 && self@.attachments.len() == 0),
    {
        blank(self.text.as_str()) && self.attachments.len() == 0
    }

    /// The attachments.
    pub fn attachments(&self) -> (r: &Vec<Attachment>)
        ensures
            views(r@) == self@.attachments,
    {
        &self.attachments
    }

    /// Attaches something, unless its path is attached already.
    pub fn add_attachment(&mut self, attachment: Attachment)
        requires
            old(self).wf(),
        ensures
            final(self).wf(),
            final(self)@ == if is_attached(old(self)@.attachments, attachment.path@) {
                old(self)@
            } else {
                ComposerView {
                    attachments: old(self)@.attachments.push(attachment@),
                    ..old(self)@
                }
            },
    {
        let ghost before = self@.attachments;
        let mut i: usize = 0;
        while i < self.attachments.len()
            invariant
                i <= self.attachments@.len(),
                before == self@.attachments,
                self@ == old(self)@,
                old(self).wf(),
                forall|k: int| 0 <= k < i ==> (#[trigger] before[k]).path != attachment.path@,
            decreases self.attachments@.len() - i,
        {
            if same(self.attachments[i].path.as_str(), attachment.path.as_str()) {
                proof {
                    assert(before[i as int].path == attachment.path@);
                }
                return;
            }
            i = i + 1;
        }
        proof {
            lemma_views_push(self.attachments@, attachment);
        }
        self.attachments.push(attachment);
    }

    /// Takes what is attached at a path off.
    pub fn remove_attachment(&mut self, path: &str)
        requires
            old(self).wf(),
        ensures
            final(self).wf(),
            final(self)@ == (ComposerView {
                attachments: detached(old(self)@.attachments, path@),
                ..old(self)@
            }),
            !is_attached(final(self)@.attachments, path@),
    {
        let ghost all = self@.attachments;
        let ghost f = |a: AttachmentView| a.path != path@;
        let n: usize = self.attachments.len();
        let mut i: usize = 0;
        let mut done: usize = 0;
        proof {
            lemma_filter_none(all, f);
            assert(views(self.attachments@).skip(0) =~= all.skip(0));
            assert(views(self.attachments@).take(0) =~= Seq::empty());
        }
        while done < n
            invariant
                n == all.len(),
                i <= done <= n,
                self.text == old(self).text,
                self.search == old(self).search,
                f == (|a: AttachmentView| a.path != path@),
                self.attachments@.len() == i + (n - done),
                views(self.attachments@).take(i as int) == all.take(done as int).filter(f),
                views(self.attachments@).skip(i as int) == all.skip(done as int),
            decreases n - done,
        {
            let ghost here = views(self.attachments@);
            proof {
                lemma_filter_step(all, f, done as int);
                assert(here[i as int] == here.skip(i as int)[0]);
                assert(all[done as int] == all.skip(done as int)[0]);
                assert(here[i as int] == self.attachments@[i as int]@);
                assert(here.skip(i + 1) =~= here.skip(i as int).drop_first());
                assert(all.skip(done + 1) =~= all.skip(done as int).drop_first());
            }
            if same(self.attachments[i].path.as_str(), path) {
                let _ = self.attachments.remove(i);
                proof {
                    assert(views(self.attachments@) =~= here.remove(i as int));
                    assert(views(self.attachments@).take(i as int) =~= here.take(i as int));
                    assert(views(self.attachments@).skip(i as int) =~= here.skip(i + 1));
                }
            } else {
                proof {
                    assert(here.take(i + 1) =~= here.take(i as int).push(here[i as int]));
                }
                i = i + 1;
            }
            done = done + 1;
        }
        proof {
            assert(all.take(done as int) =~= all);
            assert(views(self.attachments@).take(i as int) =~= views(self.attachments@));
            lemma_detached_unique(all, path@);
        }
    }

    /// Takes every attachment off.
    pub fn clear_attachments(&mut self)
        requires
            old(self).wf(),
        ensures
            final(self).wf(),
            final(self)@ == (ComposerView { attachments: Seq::empty(), ..old(self)@ }),
    {
        self.attachments.clear();
        proof {
            assert(self@.attachments =~= Seq::empty());
        }
    }

    /// Takes the draft for submission and leaves it empty.
    pub fn take(&mut self) -> (r: (String, Vec<Attachment>))
        requires
            old(self).wf(),
        ensures
            final(self).wf(),
            r.0@ == old(self)@.text,
            views(r.1@) == old(self)@.attachments,
            final(self)@ == (ComposerView {
                text: Seq::empty(),
                attachments: Seq::empty(),
                search: old(self)@.search,
            }),
    {
        let mut text = String::new();
        let mut attachments: Vec<Attachment> = Vec::new();
        core::mem::swap(&mut self.text, &mut text);
        core::mem::swap(&mut self.attachments, &mut attachments);
        proof {
            assert(self@.attachments =~= Seq::empty());
        }
        (text, attachments)
    }

    /// The filter of the model picker.
    pub fn search(&self) -> (r: &str)
        ensures
            r@ == self@.search,
    {
        self.search.as_str()
    }

    /// The filter of the model picker, for an input to write to.
    pub fn search_mut(&mut self) -> (r: &mut String)
        requires
            old(self).wf(),
        ensures
            r@ == old(self)@.search,
            final(self).wf(),
            final(self)@ == (ComposerView { search: (*final(r))@, ..old(self)@ }),
    {
        &mut self.search
    }

    /// Replaces the filter of the model picker.
    pub fn set_search(&mut self, search: &str)
        requires
            old(self).wf(),
        ensures
            final(self).wf(),
            final(self)@ == (ComposerView { search: search@, ..old(self)@ }),
    {
        self.search = search.to_owned();
    }
}

} // verus!
