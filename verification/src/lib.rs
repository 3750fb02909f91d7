//! Core state of a terminal process browser: a tab bar with cyclic
//! navigation, a focus state machine over the tab bar, a filter input box and
//! a process list, and a filtered list of process-table lines that is rebuilt
//! from the output of an external process lister.
//!
//! Everything here is pure state and decisions. Reading the keyboard, running
//! the process lister and drawing the screen are left to the surrounding
//! program, which feeds events and lister outcomes in as plain values.

pub mod app;
pub mod cycle;
pub mod process;
pub mod tabs;
pub mod text;
