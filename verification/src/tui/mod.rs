//! The state machine behind the terminal front-end: pages, panels,
//! selections, the findings filter and the keymap. Drawing and the
//! event loop stay with the caller.

pub mod component;
pub mod state;
pub mod app;
pub mod error;
pub mod header;
pub mod view;
pub mod panels;

pub use app::App;
pub use component::{Action, Event, Key, MoveDirection, PageId};
pub use error::TuiError;
pub use state::{AppState, Cycle, PanelId, ProgressCounters, Stage};
