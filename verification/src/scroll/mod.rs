//! Scrolling capture.

pub mod content;
pub mod laws;
pub mod matching;
pub mod stitch;
pub mod units;

pub use matching::{find_offset, to_luma, Luma, Match};
pub use stitch::{Push, Stats, Stitcher};
pub use units::physical_to_logical;
