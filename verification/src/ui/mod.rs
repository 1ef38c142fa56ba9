//! The decisions of the user interface that do not touch the terminal.

pub mod input;
pub mod kifu_selector;
pub mod selection;
