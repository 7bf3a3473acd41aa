//! What the chat shows: the sidebar, the conversation, the composer and its
//! pickers.

pub mod composer;
pub mod controls;
pub mod conversation;
pub mod cross_task_message;
pub mod dropdown;
pub mod keys;
pub mod message_card;
pub mod model_picker;
pub mod palette;
pub mod paste;
pub mod queue_status;
pub mod rows;
pub mod sidebar;
pub mod tool_card;
