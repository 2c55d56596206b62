//! The read-only GitHub panel: the data the `gh` collaborator reports, the
//! panel's state, and what its panes show.

pub mod detail;
pub mod sheet;
pub mod state;
pub mod types;
