//! What the window itself runs: dialogs, notices and the delivery of events.

pub mod notices;
pub mod prompts;
pub mod pump;
pub mod rename;
