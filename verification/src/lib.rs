//! The logic of `frame`, a Wayland screenshot and annotation tool.

pub mod capture;
pub mod editor;
pub mod globals;
pub mod imaging;
pub mod indicator;
pub mod json;
pub mod monitor;
pub mod output;
pub mod overlay;
pub mod paths;
pub mod qao;
pub mod raster;
pub mod scroll;
pub mod session;
pub mod sock;
pub mod text;
pub mod window;
