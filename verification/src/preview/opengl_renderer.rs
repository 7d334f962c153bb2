//! What the OpenGL preview decides without a GL context: colours and object ids.
use vstd::prelude::*;

use crate::preview::color::{color_value, hex_color};

verus! {

/// Reads `#rrggbb` or `#rrggbbaa` (see `color_value`); any other value,
/// one with multi-byte characters among its digits included, gives the
/// fallback.
pub fn parse_color(value: &str, fallback: [u8; 4]) -> (c: [u8; 4])
    ensures
        c@ == match color_value(value@) {
            Some(v) => seq![v.0, v.1, v.2, v.3],
            None => fallback@,
        },
{
    match hex_color(value) {
        Some((red, green, blue, alpha)) => {
            let c = [red, green, blue, alpha];
            assert(c@ =~= seq![red, green, blue, alpha]);
            c
        },
        None => fallback,
    }
}

/// An OpenGL object id read from a signed query result: the (non-zero) name
/// of the object, none for zero or a negative value. The application wraps
/// it in `NonZeroU32`.
pub fn native_id(value: i32) -> (id: Option<u32>)
    ensures
        id == if value > 0 {
            Some(value as u32)
        } else {
            None::<u32>
        },
{
    if value > 0 {
        Some(value as u32)
    } else {
        None
    }
}

} // verus!
