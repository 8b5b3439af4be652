//! The document model: colours, timestamps, styles, events, attachments
//! and script information.
pub mod color;
pub mod time;
pub mod attachment;
pub mod event;
pub mod style;
pub mod script_info;
