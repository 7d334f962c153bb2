//! Board, frame and settings model, and the G-code reader.
pub mod frame;
pub mod gcode;
pub mod settings;
pub mod tool_offset_calculator;
