//! Verified core of a read-only Markdown previewer: reader themes, the
//! recent-files list, stored settings, the application state and the
//! decisions that the desktop shell takes on menu and file events.

pub mod text;
pub mod theme;
pub mod recent;
pub mod settings;
pub mod state;
pub mod menu;
pub mod watcher;
