//! Core engine of an interactive streaming pager.
//!
//! Text arrives from several concurrently running sources and is collected
//! in an append-only line store. A single controller owns all mutable
//! state: it appends proposed lines, drives the mode state machine
//! (inline streaming into full-screen paging), dispatches key events
//! through a configurable keymap, and keeps an incrementally extended
//! regex search in sync with the store. The surrounding binary performs
//! the actual I/O and terminal writes; it feeds events to the controller
//! and carries out the effects the controller returns.

pub mod adapter;
pub mod ansi;
pub mod controller;
pub mod error;
pub mod keymap;
pub mod laws;
pub mod line;
pub mod render;
pub mod search;
pub mod store;
