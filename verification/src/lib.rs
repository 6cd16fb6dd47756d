//! Interactive application-launcher core: an in-memory catalog of launchable
//! entries, a case-insensitive text filter over it, a modal navigation state
//! machine with a wrapping selection cursor, and the ordered teardown plan
//! that restores the terminal before a chosen command is spawned.
//!
//! Directory scanning, shortcut-file parsing, keyboard input and terminal
//! drawing are left to the surrounding binary, which hands this library plain
//! values and performs the actions it decides on.

pub mod catalog;
pub mod entry;
pub mod filter;
pub mod lifecycle;
pub mod menu;
pub mod text;
