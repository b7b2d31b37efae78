//! Verified state and logic of the assistant sidebar: form widgets, text
//! editing, validation, selection handling, cards and the animation scheduler.

pub mod text;
pub mod forms;
pub mod validation;
pub mod card;
pub mod animation;
pub mod coordinator;
pub mod activity;
pub mod selection;
pub mod multiline;
pub mod widgets;
pub mod config;
pub mod log_render;
pub mod chat;
pub mod modal;
pub mod sidebar;
pub mod samples;
pub mod markdown;
