pub mod color;
pub mod point;
pub mod rect;
pub mod size;
pub mod vector;

pub use color::Color;
pub use point::Point;
pub use rect::Rect;
pub use size::Size;
pub use vector::{Cast, Vector2, Vector3};
