//! The icons, named by what they are for.

use vstd::prelude::*;

use crate::domain::{ConversationRole, SessionStatus, StatusView};

verus! {

/// A glyph.
#[derive(Clone, Copy, Debug, PartialEq, Eq, Structural)]
pub enum IconName {
    ArrowUp,
    Bot,
    ChevronDown,
    ChevronRight,
    Close,
    Copy,
    File,
    Folder,
    FolderOpen,
    Info,
    LoaderCircle,
    Minimize,
    Moon,
    Pause,
    Plus,
    Search,
    Settings,
    SquareTerminal,
    Sun,
    TriangleAlert,
}

/// The toggle to the other theme shows where it goes.
pub fn theme_toggle(is_dark: bool) -> (r: IconName)
    ensures
        r == if is_dark {
            IconName::Sun
        } else {
            IconName::Moon
        },
{
    if is_dark {
        IconName::Sun
    } else {
        IconName::Moon
    }
}

/// Preferences.
pub fn settings() -> (r: IconName)
    ensures
        r == IconName::Settings,
{
    IconName::Settings
}

/// Something new.
pub fn add() -> (r: IconName)
    ensures
        r == IconName::Plus,
{
    IconName::Plus
}

/// Closing something.
pub fn close() -> (r: IconName)
    ensures
        r == IconName::Close,
{
    IconName::Close
}

/// Copying something.
pub fn copy() -> (r: IconName)
    ensures
        r == IconName::Copy,
{
    IconName::Copy
}

/// Searching.
pub fn search() -> (r: IconName)
    ensures
        r == IconName::Search,
{
    IconName::Search
}

/// Sending the drafted prompt.
pub fn send() -> (r: IconName)
    ensures
        r == IconName::ArrowUp,
{
    IconName::ArrowUp
}

/// Interrupting the turn in flight.
pub fn stop() -> (r: IconName)
    ensures
        r == IconName::Pause,
{
    IconName::Pause
}

/// Compacting the conversation.
pub fn compact() -> (r: IconName)
    ensures
        r == IconName::Minimize,
{
    IconName::Minimize
}

/// A project, open or collapsed.
pub fn project(expanded: bool) -> (r: IconName)
    ensures
        r == if expanded {
            IconName::FolderOpen
        } else {
            IconName::Folder
        },
{
    if expanded {
        IconName::FolderOpen
    } else {
        IconName::Folder
    }
}

/// An arrow that points down where its section is open.
pub fn disclosure(expanded: bool) -> (r: IconName)
    ensures
        r == if expanded {
            IconName::ChevronDown
        } else {
            IconName::ChevronRight
        },
{
    if expanded {
        IconName::ChevronDown
    } else {
        IconName::ChevronRight
    }
}

/// A file that travels with a prompt.
pub fn attachment() -> (r: IconName)
    ensures
        r == IconName::File,
{
    IconName::File
}

/// A session's transcript.
pub fn session() -> (r: IconName)
    ensures
        r == IconName::File,
{
    IconName::File
}

/// The icon of a role. A prompt has none: it is set apart already.
pub open spec fn role_icon(role: ConversationRole) -> Option<IconName> {
    match role {
        ConversationRole::User => None,
        ConversationRole::Assistant => Some(IconName::Bot),
        ConversationRole::Tool => Some(IconName::SquareTerminal),
        ConversationRole::System => Some(IconName::Info),
    }
}

/// The icon of a role.
pub fn role(of: ConversationRole) -> (r: Option<IconName>)
    ensures
        r == role_icon(of),
{
    match of {
        ConversationRole::User => None,
        ConversationRole::Assistant => Some(IconName::Bot),
        ConversationRole::Tool => Some(IconName::SquareTerminal),
        ConversationRole::System => Some(IconName::Info),
    }
}

/// The icon of a status. An idle one has none: its dot says as much.
pub open spec fn status_icon(status: StatusView) -> Option<IconName> {
    match status {
        StatusView::Failed(_) => Some(IconName::TriangleAlert),
        StatusView::Starting | StatusView::Streaming => Some(IconName::LoaderCircle),
        StatusView::Compacting => Some(IconName::Minimize),
        StatusView::Ready | StatusView::Offline => None,
    }
}

/// The icon of a status.
pub fn status(of: &SessionStatus) -> (r: Option<IconName>)
    ensures
        r == status_icon(of@),
{
    match of {
        SessionStatus::Failed(_) => Some(IconName::TriangleAlert),
        SessionStatus::Starting => Some(IconName::LoaderCircle),
        SessionStatus::Streaming => Some(IconName::LoaderCircle),
        SessionStatus::Compacting => Some(IconName::Minimize),
        SessionStatus::Ready => None,
        SessionStatus::Offline => None,
    }
}

/// Two roles that have an icon have different ones.
pub proof fn lemma_roles_look_different(a: ConversationRole, b: ConversationRole)
    requires
        role_icon(a) is Some,
        role_icon(a) == role_icon(b),
    ensures
        a == b,
{
}

} // verus!
