//! The engine of a terminal tool for reviewing the diff of a working tree
//! side by side: row alignment, flattened content, modal cursor motions
//! with yank, search, and incremental syntax colouring; around it the
//! application state that every key press is applied to, and what each
//! pane shows, as styled runs for a renderer to draw.
//!
//! The engine reads no input and writes no output. Keys come in through
//! `App::handle_key`; what has to be done outside is handed back as a
//! `Request`, and the result is reported through the method named with the
//! request.

pub mod app;
pub mod bars;
pub mod cursor;
pub mod dialog;
pub mod diff;
pub mod dispatch;
pub mod files;
pub mod github;
pub mod keys;
pub mod listing;
pub mod lists;
pub mod modal;
pub mod order;
pub mod overlay;
pub mod panes;
pub mod posts;
pub mod repository;
pub mod request;
pub mod rows;
pub mod search;
pub mod syntax;
pub mod text;
pub mod tree;
pub mod view;
pub mod yank;
