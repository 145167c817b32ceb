//! Verified core of the subagent monitor companion: window placement rules,
//! state-file naming and discovery, the statusline state model, and the
//! decision logic of the file watcher and its polling fallback.

pub mod window;
pub mod paths;
pub mod process;
pub mod state;
pub mod watcher;
