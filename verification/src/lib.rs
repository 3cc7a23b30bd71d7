//! Layered theme and task configuration: validated settings, the icon rule
//! store with its prepend / base / append merge, and the resolver that maps a
//! file to at most one icon.

pub mod condition;
pub mod error;
pub mod fs;
pub mod grammar;
pub mod icons;
pub mod is;
pub mod pattern;
pub mod preset;
pub mod preview;
pub mod resolve;
pub mod rules;
pub mod tasks;
pub mod text;
pub mod theme;
pub mod writing;
