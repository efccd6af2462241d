//! The colors of the observation series: the first slots of a categorical
//! palette, stepped per surface (light and dark). Series k of the
//! observation plot and the observed element in the scene share a hue.

use vstd::prelude::*;

verus! {

/// An opaque color as its red, green and blue components.
pub type Rgb = (u8, u8, u8);

/// The palette on a light surface.
pub open spec fn light(i: int) -> Rgb {
    if i == 0 { (0x2a, 0x78, 0xd6) }
    else if i == 1 { (0xeb, 0x68, 0x34) }
    else if i == 2 { (0x1b, 0xaf, 0x7a) }
    else if i == 3 { (0xed, 0xa1, 0x00) }
    else if i == 4 { (0xe8, 0x7b, 0xa4) }
    else { (0x00, 0x83, 0x00) }
}

/// The palette on a dark surface: the same hues re-stepped.
pub open spec fn dark(i: int) -> Rgb {
    if i == 0 { (0x39, 0x87, 0xe5) }
    else if i == 1 { (0xd9, 0x59, 0x26) }
    else if i == 2 { (0x19, 0x9e, 0x70) }
    else if i == 3 { (0xc9, 0x85, 0x00) }
    else if i == 4 { (0xd5, 0x51, 0x81) }
    else { (0x00, 0x83, 0x00) }
}

/// Color of observation series `i`: a fixed assignment, never cycled —
/// every series past the last slot gets the last color.
pub fn series(i: usize, dark_mode: bool) -> (c: Rgb)
    ensures
        c == if dark_mode { dark(if i < 5 { i as int } else { 5 }) } else { light(if i < 5 { i as int } else { 5 }) },
{
    let k = if i < 5 { i } else { 5 };
    if dark_mode {
        match k {
            0 => (0x39, 0x87, 0xe5),
            1 => (0xd9, 0x59, 0x26),
            2 => (0x19, 0x9e, 0x70),
            3 => (0xc9, 0x85, 0x00),
            4 => (0xd5, 0x51, 0x81),
            _ => (0x00, 0x83, 0x00),
        }
    } else {
        match k {
            0 => (0x2a, 0x78, 0xd6),
            1 => (0xeb, 0x68, 0x34),
            2 => (0x1b, 0xaf, 0x7a),
            3 => (0xed, 0xa1, 0x00),
            4 => (0xe8, 0x7b, 0xa4),
            _ => (0x00, 0x83, 0x00),
        }
    }
}

} // verus!
