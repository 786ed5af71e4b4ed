pub mod cell;
pub mod painter;
pub mod quad;
pub mod quantizer;
pub mod renderer;
pub mod size;

pub use cell::{Cell, Grapheme};
pub use painter::Painter;
