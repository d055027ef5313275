//! The fixed 16-colour palette and the discrete colour policy.
use vstd::prelude::*;

verus! {

/// Number of entries in the palette.
pub const PALETTE_SIZE: usize = 16;

/// An RGB colour.
#[derive(Clone, Copy, Debug, PartialEq, Eq, Structural)]
pub struct Color {
    pub red: u8,
    pub green: u8,
    pub blue: u8,
}

/// The palette entry at `index`, as `(red, green, blue)`.
pub open spec fn palette(index: int) -> (u8, u8, u8) {
    if index == 0 { (0, 0, 0) }
    else if index == 1 { (0, 0, 32) }
    else if index == 2 { (0, 0, 64) }
    else if index == 3 { (0, 0, 92) }
    else if index == 4 { (0, 0, 128) }
    else if index == 5 { (0, 0, 160) }
    else if index == 6 { (0, 0, 192) }
    else if index == 7 { (0, 0, 224) }
    else if index == 8 { (0, 0, 255) }
    else if index == 9 { (32, 0, 224) }
    else if index == 10 { (64, 0, 192) }
    else if index == 11 { (128, 0, 160) }
    else if index == 12 { (160, 0, 128) }
    else if index == 13 { (192, 0, 96) }
    else if index == 14 { (224, 0, 64) }
    else { (255, 0, 0) }
}

impl Color {
    pub open spec fn rgb(self) -> (u8, u8, u8) {
        (self.red, self.green, self.blue)
    }
}

/// The palette entry at `index`.
pub fn color_mapping(index: usize) -> (r: Color)
    requires
        index < PALETTE_SIZE,
    ensures
        r.rgb() == palette(index as int),
{
    let (red, green, blue): (u8, u8, u8) = match index {
        0 => (0, 0, 0),
        1 => (0, 0, 32),
        2 => (0, 0, 64),
        3 => (0, 0, 92),
        4 => (0, 0, 128),
        5 => (0, 0, 160),
        6 => (0, 0, 192),
        7 => (0, 0, 224),
        8 => (0, 0, 255),
        9 => (32, 0, 224),
        10 => (64, 0, 192),
        11 => (128, 0, 160),
        12 => (160, 0, 128),
        13 => (192, 0, 96),
        14 => (224, 0, 64),
        _ => (255, 0, 0),
    };
    Color { red, green, blue }
}

/// Rust's remainder of `n` by the palette size: truncated toward zero, so
/// it has the sign of `n`.
pub open spec fn truncated_rem(n: int) -> int {
    if n >= 0 {
        n % (PALETTE_SIZE as int)
    } else {
        -((-n) % (PALETTE_SIZE as int))
    }
}

/// Palette index for an iteration count: the count modulo the palette size,
/// in `0..16` for every count that escape iteration gives (they are never
/// negative).
pub fn get_colorindex(iterations: i32) -> (r: i32)
    ensures
        r == truncated_rem(iterations as int),
        iterations >= 0 ==> 0 <= r < PALETTE_SIZE && r == (iterations as int) % (PALETTE_SIZE as int),
        iterations < 0 ==> -(PALETTE_SIZE as int) < r <= 0,
{
    if iterations >= 0 {
        iterations % (PALETTE_SIZE as i32)
    } else {
        let magnitude: i64 = -(iterations as i64);
        -((magnitude % (PALETTE_SIZE as i64)) as i32)
    }
}

/// The colour that the discrete policy gives an iteration count.
pub fn color_of_iterations(iterations: i32) -> (r: Color)
    requires
        iterations >= 0,
    ensures
        r.rgb() == palette((iterations as int) % (PALETTE_SIZE as int)),
{
    let index = get_colorindex(iterations);
    color_mapping(index as usize)
}

} // verus!
