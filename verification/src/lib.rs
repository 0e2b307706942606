//! Core engine of a screen-based text editor: document buffer with a
//! guaranteed trailing line terminator, offset/position mapping under a
//! scrolling viewport, cursor navigation, invertible edit changes with an
//! undo/redo log, selection handling, and buffer search.

pub mod buffer;
pub mod cells;
pub mod change;
pub mod config;
pub mod editlog;
pub mod editor;
pub mod mapper;
pub mod navigator;
pub mod position;
pub mod search;
pub mod selection;
