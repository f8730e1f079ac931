//! Log decoding, version comparison, path resolution and restart decisions
//! for a Steam wrapper that restarts a game after an in-game hotfix.

pub mod text;
pub mod log_decoder;
pub mod update;
pub mod paths;
pub mod tray;
pub mod process;
pub mod monitor;
pub mod logging;
