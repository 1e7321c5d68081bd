//! The commands, one module each.

pub mod hierarchy_levels;
pub mod log_hierarchy;
pub mod named;
pub mod refresh_theme;
pub mod set_cursor;
pub mod set_text;
pub mod simple_name;
