//! Messages as they appear in the corner of the window.

use vstd::prelude::*;

use crate::notice::{autohide, Level, Notice, Outbox};
use crate::views::views;

verus! {

/// How a message looks.
#[derive(Clone, Copy, Debug, PartialEq, Eq, Structural)]
pub enum NotificationType {
    Error,
    Info,
}

/// How a level looks.
pub open spec fn type_of(level: Level) -> NotificationType {
    match level {
        Level::Error => NotificationType::Error,
        Level::Info => NotificationType::Info,
    }
}

/// How a level looks.
pub fn notification_type(level: Level) -> (r: NotificationType)
    ensures
        r == type_of(level),
{
    match level {
        Level::Error => NotificationType::Error,
        Level::Info => NotificationType::Info,
    }
}

/// A message in the corner.
#[derive(Clone, Debug, PartialEq, Eq)]
pub struct Notification {
    pub message: String,
    pub kind: NotificationType,
    /// Whether it goes by itself. A failure waits to be read.
    pub autohide: bool,
}

/// Whether `r` shows a message of a level.
pub open spec fn shows(r: Notification, level: Level, message: Seq<char>) -> bool {
    &&& r.message@ == message
    &&& r.kind == type_of(level)
    &&& r.autohide == (level != Level::Error)
}

/// The message of a notice.
pub fn notification(notice: &Notice) -> (r: Notification)
    ensures
        shows(r, notice.level, notice.message@),
{
    Notification {
        message: notice.message.clone(),
        kind: notification_type(notice.level),
        autohide: autohide(notice.level),
    }
}

/// Everything that is queued, oldest first, as messages in the corner.
pub fn show(outbox: &mut Outbox) -> (r: Vec<Notification>)
    requires
        old(outbox).wf(),
    ensures
        final(outbox).wf(),
        final(outbox)@.len() == 0,
        r@.len() == old(outbox)@.len(),
        forall|i: int|
            0 <= i < r@.len() ==> shows(
                #[trigger] r@[i],
                old(outbox)@[i].level,
                old(outbox)@[i].message,
            ),
{
    let notices = outbox.drain();
    let ghost all = views(notices@);
    let mut out: Vec<Notification> = Vec::new();
    let mut i: usize = 0;
    while i < notices.len()
        invariant
            i <= notices@.len(),
            all == views(notices@),
            out@.len() == i,
            forall|k: int|
                0 <= k < i ==> shows(#[trigger] out@[k], all[k].level, all[k].message),
        decreases notices@.len() - i,
    {
        proof {
            assert(all[i as int] == notices@[i as int]@);
        }
        out.push(notification(&notices[i]));
        i = i + 1;
    }
    out
}

} // verus!
