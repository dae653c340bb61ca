pub mod text;
pub mod stitch;
pub mod region;
pub mod hotkeys;
pub mod session;
pub mod naming;
pub mod commands;
pub mod recorder;
