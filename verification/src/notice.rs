//! Messages that the engine puts in front of the user.
//!
//! They queue, so that a failure that arrives while another is on screen is not
//! lost, and the view takes them from here.

use std::collections::VecDeque;

use vstd::prelude::*;

use crate::text::same;
use crate::views::{lemma_views_push, views};

verus! {

/// How much attention a message deserves.
#[derive(Clone, Copy, Debug, PartialEq, Eq, Structural)]
pub enum Level {
    /// Something failed and the user likely has to act.
    Error,
    /// Something worth knowing that is not a failure.
    Info,
}

/// One message bound for the user.
#[derive(Clone, Debug, PartialEq, Eq)]
pub struct Notice {
    pub level: Level,
    pub message: String,
}

/// What a message holds.
pub struct NoticeView {
    pub level: Level,
    pub message: Seq<char>,
}

impl View for Notice {
    type V = NoticeView;

    open spec fn view(&self) -> NoticeView {
        NoticeView { level: self.level, message: self.message@ }
    }
}

impl Notice {
    /// A failure.
    pub fn error(message: &str) -> (r: Notice)
        ensures
            r@ == (NoticeView { level: Level::Error, message: message@ }),
    {
        Notice { level: Level::Error, message: message.to_owned() }
    }

    /// Something worth knowing.
    pub fn info(message: &str) -> (r: Notice)
        ensures
            r@ == (NoticeView { level: Level::Info, message: message@ }),
    {
        Notice { level: Level::Info, message: message.to_owned() }
    }

    /// Whether this is a failure.
    pub fn is_error(&self) -> (r: bool)
        ensures
            r == (self.level == Level::Error),
    {
        self.level == Level::Error
    }
}

/// Past this, older messages are dropped.
pub const CAPACITY: usize = 32;

/// Pending messages, oldest first.
#[derive(Debug)]
pub struct Outbox {
    pending: VecDeque<Notice>,
}

impl View for Outbox {
    type V = Seq<NoticeView>;

    closed spec fn view(&self) -> Seq<NoticeView> {
        views(self.pending@)
    }
}

/// The pending messages once `notice` has been reported. A repeat of the newest
/// adds nothing, and a full queue gives up its oldest.
pub open spec fn pushed(pending: Seq<NoticeView>, notice: NoticeView) -> Seq<NoticeView> {
    if pending.len() > 0 && pending.last() == notice {
        pending
    } else if pending.len() == CAPACITY {
        pending.drop_first().push(notice)
    } else {
        pending.push(notice)
    }
}

/// Whether no message is a repeat of the one before it.
pub open spec fn has_no_repeats(pending: Seq<NoticeView>) -> bool {
    forall|i: int| 0 < i < pending.len() ==> pending[i - 1] != #[trigger] pending[i]
}

/// A report leaves no message behind a repeat of itself, and neither does taking
/// the oldest.
pub proof fn lemma_no_repeats_are_kept(pending: Seq<NoticeView>, notice: NoticeView)
    requires
        has_no_repeats(pending),
    ensures
        has_no_repeats(pushed(pending, notice)),
        pending.len() > 0 ==> has_no_repeats(pending.drop_first()),
{
    if pending.len() > 0 {
        let rest = pending.drop_first();
        assert forall|i: int| 0 < i < rest.len() implies rest[i - 1] != #[trigger] rest[i] by {
            assert(rest[i] == pending[i + 1] && rest[i - 1] == pending[i]);
        }
    }
    let after = pushed(pending, notice);
    assert forall|i: int| 0 < i < after.len() implies after[i - 1] != #[trigger] after[i] by {
        if pending.last() == notice {
            assert(after[i] == pending[i]);
        } else if pending.len() == CAPACITY {
            assert(after[i - 1] == pending[i]);
            if i + 1 < pending.len() {
                assert(after[i] == pending[i + 1]);
            }
        } else if i < pending.len() {
            assert(after[i] == pending[i]);
        }
    }
}

impl Outbox {
    /// No more messages than the queue holds, and no repeat next to itself.
    pub open spec fn wf(&self) -> bool {
        self@.len() <= CAPACITY && has_no_repeats(self@)
    }

    /// Nothing pending.
    pub fn new() -> (r: Outbox)
        ensures
            r.wf(),
            r@ == Seq::<NoticeView>::empty(),
    {
        let r = Outbox { pending: VecDeque::new() };
        proof {
            assert(r@ =~= Seq::<NoticeView>::empty());
        }
        r
    }

    /// Reports a message.
    pub fn push(&mut self, notice: Notice)
        requires
            old(self).wf(),
        ensures
            final(self).wf(),
            final(self)@ == pushed(old(self)@, notice@),
    {
        let ghost before = self.pending@;
        let n: usize = self.pending.len();
        proof {
            lemma_no_repeats_are_kept(self@, notice@);
        }
        if n > 0 {
            let newest = &self.pending[n - 1];
            if newest.level == notice.level && same(
                newest.message.as_str(),
                notice.message.as_str(),
            ) {
                return;
            }
        }
        if n == CAPACITY {
            self.pending.pop_front();
        }
        let ghost kept = self.pending@;
        self.pending.push_back(notice);
        proof {
            lemma_views_push(kept, notice);
            if n == CAPACITY {
                assert(views(kept) =~= views(before).drop_first());
            }
        }
    }

    /// Reports a failure.
    pub fn error(&mut self, message: &str)
        requires
            old(self).wf(),
        ensures
            final(self).wf(),
            final(self)@ == pushed(
                old(self)@,
                NoticeView { level: Level::Error, message: message@ },
            ),
    {
        self.push(Notice::error(message));
    }

    /// Reports something worth knowing.
    pub fn info(&mut self, message: &str)
        requires
            old(self).wf(),
        ensures
            final(self).wf(),
            final(self)@ == pushed(old(self)@, NoticeView { level: Level::Info, message: message@ }),
    {
        self.push(Notice::info(message));
    }

    /// Takes the oldest message.
    pub fn take(&mut self) -> (r: Option<Notice>)
        requires
            old(self).wf(),
        ensures
            final(self).wf(),
            match r {
                Some(notice) => {
                    &&& old(self)@.len() > 0
                    &&& notice@ == old(self)@.first()
                    &&& final(self)@ == old(self)@.drop_first()
                },
                None => old(self)@.len() == 0 && final(self)@ == old(self)@,
            },
    {
        let ghost before = self.pending@;
        let r = self.pending.pop_front();
        proof {
            if before.len() > 0 {
                lemma_no_repeats_are_kept(views(before), views(before)[0]);
                assert(views(self.pending@) =~= views(before).drop_first());
            }
        }
        r
    }

    /// Takes everything pending, oldest first.
    pub fn drain(&mut self) -> (r: Vec<Notice>)
        requires
            old(self).wf(),
        ensures
            final(self).wf(),
            final(self)@ == Seq::<NoticeView>::empty(),
            views(r@) == old(self)@,
    {
        let ghost all = self@;
        let mut out: Vec<Notice> = Vec::new();
        proof {
            assert(views(out@) + all =~= all);
        }
        loop
            invariant
                self.wf(),
                views(out@) + self@ == all,
            ensures
                self@.len() == 0,
                views(out@) + self@ == all,
            decreases self@.len(),
        {
            let ghost here = self@;
            match self.take() {
                Some(notice) => {
                    proof {
                        lemma_views_push(out@, notice);
                        assert(views(out@) + here =~= views(out@).push(notice@) + self@);
                    }
                    out.push(notice);
                },
                None => {
                    break ;
                },
            }
        }
        proof {
            assert(self@ =~= Seq::<NoticeView>::empty());
            assert(views(out@) =~= all);
        }
        out
    }

    /// Whether nothing is pending.
    pub fn is_empty(&self) -> (r: bool)
        ensures
            r == (self@.len() == 0),
    {
        self.pending.len() == 0
    }

    /// How many messages are pending.
    pub fn len(&self) -> (r: usize)
        ensures
            r == self@.len(),
    {
        self.pending.len()
    }
}

/// The newest message is never lost, and a message that was pending is dropped
/// only when the queue is full and it is the oldest.
pub proof fn lemma_newest_survives(pending: Seq<NoticeView>, notice: NoticeView)
    requires
        pending.len() <= CAPACITY,
    ensures
        pushed(pending, notice).len() > 0,
        pushed(pending, notice).last() == notice,
        pushed(pending, notice).len() <= CAPACITY,
        forall|i: int|
            0 <= i < pending.len() && !(i == 0 && pending.len() == CAPACITY) ==> pushed(
                pending,
                notice,
            ).contains(#[trigger] pending[i]),
{
    let after = pushed(pending, notice);
    assert forall|i: int|
        0 <= i < pending.len() && !(i == 0 && pending.len() == CAPACITY) implies after.contains(
        #[trigger] pending[i],
    ) by {
        if pending.len() > 0 && pending.last() == notice {
            assert(after[i] == pending[i]);
        } else if pending.len() == CAPACITY {
            assert(after[i - 1] == pending[i]);
        } else {
            assert(after[i] == pending[i]);
        }
    }
}

/// Whether a message disappears on its own. A failure waits to be read.
pub fn autohide(level: Level) -> (r: bool)
    ensures
        r == (level != Level::Error),
{
    level != Level::Error
}

} // verus!
