//! A message that another running task sent.

use vstd::prelude::*;

use crate::domain::Language;

verus! {

/// Where such a message came from, in words.
pub open spec fn source_text(language: Language) -> Seq<char> {
    match language {
        Language::SimplifiedChinese => "由另一 agent 发起的任务"@,
        Language::English => "Task started by another agent"@,
    }
}

/// A message that another running task sent.
#[derive(Clone, Debug, PartialEq, Eq)]
pub struct CrossTaskMessage {
    pub sender_session: String,
    pub content: String,
    pub language: Language,
}

impl CrossTaskMessage {
    /// A message from the session `sender_session`.
    pub fn new(sender_session: String, content: String, language: Language) -> (r: CrossTaskMessage)
        ensures
            r == (CrossTaskMessage { sender_session, content, language }),
    {
        CrossTaskMessage { sender_session, content, language }
    }

    /// Where the message came from, in words.
    pub fn source(&self) -> (r: &'static str)
        ensures
            r@ == source_text(self.language),
    {
        match self.language {
            Language::SimplifiedChinese => "由另一 agent 发起的任务",
            Language::English => "Task started by another agent",
        }
    }
}

} // verus!
