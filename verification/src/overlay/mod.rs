//! The selection overlay.

pub mod compose;
pub mod paint;
pub mod pick;
pub mod rect;
pub mod select;

pub use compose::Scene;
pub use pick::Picker;
pub use rect::Rect;
pub use select::{Event, Overlay, Pos};
