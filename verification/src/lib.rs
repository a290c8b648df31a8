//! The verified core of a terminal file manager: directory listings,
//! previews, key handling and the navigation state of the browser.
//!
//! The library does no input or output. A command changes the `App` and
//! returns the `Action` that the file system must carry out; the program
//! around the library carries it out and hands the answer back.
pub mod text;
pub mod size;
pub mod paths;
pub mod types;
pub mod listing;
pub mod fs_utils;
pub mod app;
pub mod input;
pub mod ui;
pub mod laws;
