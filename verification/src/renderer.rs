//! Renderer building blocks: pixel buffers, clipping and fades, font
//! metadata, text segmentation helpers.
pub mod buffer;
pub mod blur;
pub mod effects;
pub mod font;
pub mod shaper;
pub mod encoding;
pub mod paint;
pub mod drawing;
pub mod state;
pub mod karaoke;
pub mod karaoke_runs;
pub mod layout_tags;
pub mod text_style;
pub mod clean_text;
pub mod wrap_tokens;
pub mod subtitle_renderer;
