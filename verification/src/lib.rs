//! ASS/SSA subtitle parsing, pixel-buffer compositing primitives and font
//! metadata inspection, specified and verified with Verus.
pub mod text;
pub mod types;
pub mod parser;
pub mod charset;
pub mod renderer;
