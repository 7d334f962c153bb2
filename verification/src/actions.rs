//! What the application's actions compute before they touch the window.
pub mod export_actions;
pub mod file_actions;
pub mod preview_actions;
pub mod tool_offset_calculator;
