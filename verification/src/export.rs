//! Writing the frame program.
pub mod gcode;
