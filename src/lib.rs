//! Decision logic of an in-process practice overlay: a model of the host's
//! memory, pointer chains resolved over it, bit and word cells, edge-triggered
//! hotkeys, the widgets built from a declarative configuration, version
//! detection and the per-frame interface state machine.

pub mod level;
pub mod memory;
pub mod pointer;
pub mod cell;
pub mod key;
pub mod keynames;
pub mod widget;
pub mod flags;
pub mod chains;
pub mod config;
pub mod ui;
pub mod version;
pub mod tool;
pub mod rows;
