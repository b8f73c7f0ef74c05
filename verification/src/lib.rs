//! The core of a taskbar for the Niri compositor: the windows and workspaces
//! as the compositor's events let them be reconstructed, the snapshot of the
//! windows in display order, and the matching of desktop notifications to
//! the windows that they belong to.
pub mod config;
pub mod instance;
pub mod matching;
pub mod model;
pub mod notify;
pub mod notify_laws;
pub mod order;
pub mod output;
pub mod process;
pub mod snapshot_laws;
pub mod text;
pub mod window;
pub mod window_set;
pub mod window_set_laws;
