//! Frame generation for PCB milling programs: reads a source G-code (TAP)
//! program, finds the board it cuts, computes a surrounding frame with holding
//! tabs, and writes the G-code that cuts the frame.
//!
//! Lengths, feeds and speeds are fixed-point integers in millionths (see
//! `number`).
pub mod actions;
pub mod domain;
pub mod export;
pub mod number;
pub mod preview;
pub mod text;
