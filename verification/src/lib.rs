//! A settings window that is described by a schema: what a schema says, whether
//! it is valid, and what the window does with what happens in a frame.

pub mod text;
pub mod lang;
pub mod model;
pub mod errors;
pub mod rules;
pub mod context;
pub mod nesting;
pub mod expressions;
pub mod validate;
pub mod validity;
pub mod completeness;
pub mod check;
pub mod paths;
pub mod edits;
pub mod window;
pub mod sections;
pub mod session;
pub mod widgets;
pub mod segments;
pub mod exclusive;
pub mod kv_map;
pub mod hotkey;
pub mod color;
pub mod fonts;
pub mod codepoints;
