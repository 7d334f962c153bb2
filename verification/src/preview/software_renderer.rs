//! What the CPU preview rasterizer decides on plain values.
use vstd::prelude::*;

use crate::preview::color::{color_value, hex_color};

verus! {

/// The CPU rasterizer, retained as the dependable fallback backend; its
/// drawing runs in the application around this library.
#[derive(Debug, Clone, Copy, Default)]
pub struct SoftwarePreviewRenderer;

/// Reads `#rrggbb` or `#rrggbbaa` (see `color_value`); any other value,
/// one with multi-byte characters among its digits included, gives the
/// opaque fallback colour.
pub fn preview_color(value: &str, fallback: (u8, u8, u8)) -> (c: (u8, u8, u8, u8))
    ensures
        c == match color_value(value@) {
            Some(v) => v,
            None => (fallback.0, fallback.1, fallback.2, 255u8),
        },
{
    match hex_color(value) {
        Some(c) => c,
        None => (fallback.0, fallback.1, fallback.2, 255),
    }
}

} // verus!
