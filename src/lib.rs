//! Keeps one up-to-date chat notification per watched calendar: detects when a
//! calendar's upcoming events change, renders them as grouped sections, and
//! decides whether the notification is edited in place or posted afresh.

pub mod detect;
pub mod dispatch;
pub mod event;
pub mod registration;
pub mod render;
pub mod secrets;
pub mod sweep;
pub mod text;
pub mod time;
pub mod tracker;
pub mod utilities;
