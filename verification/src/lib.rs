//! Verified core of a Rust-aware debugger.
pub mod binary;
pub mod breakpoint;
pub mod command;
pub mod debug_text;
pub mod decode;
pub mod display;
pub mod die;
pub mod dwarf;
pub mod dwarf_scopes;
pub mod dwarf_types;
pub mod fxmap;
pub mod instruction;
pub mod line_table;
pub mod layout;
pub mod location;
pub mod menu;
pub mod render;
pub mod sys;
pub mod session;
pub mod stepping;
pub mod text;
pub mod types;
pub mod unwind;
pub mod value;
