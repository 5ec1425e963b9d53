//! The MCP tool executor: every tool of `tools/call`, acting on the editor
//! state.

pub mod args;
pub mod timeline;
pub mod ripple_delete;
pub mod add_clips;
pub mod insert_clips;
pub mod remove_clips;
pub mod move_clips;
pub mod add_texts;
pub mod keyframes;
pub mod clip_properties;
pub mod media;
pub mod folders;
pub mod queries;
pub mod dispatch;
pub mod listing;
