//! A declarative UI description with live reload: style rules and their
//! class cascade, a layout document interpreter that turns a JSON tree into
//! an element tree, and the state machine that swaps documents when their
//! files change.
pub mod table;
pub mod text;

pub mod json;
pub mod my_layout_data;
pub mod my_style_data;
pub mod pjson_to_rust_helper;
pub mod reload;
