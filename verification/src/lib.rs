//! The engine behind a desktop client for the Pi coding agent.

pub mod changes;
pub mod chat;
pub mod chrome;
pub mod commands;
pub mod composer;
pub mod controls;
pub mod dialogs;
pub mod domain;
pub mod events;
pub mod ids;
pub mod json;
pub mod keyed;
pub mod launch;
pub mod laws;
pub mod mailbox;
pub mod notice;
pub mod pool;
pub mod protocol;
pub mod providers;
pub mod replay;
pub mod session;
pub mod settings;
pub mod shell;
pub mod slash_commands;
pub mod state;
pub mod strings;
pub mod text;
pub mod thinking;
pub mod typewriter;
pub mod views;
