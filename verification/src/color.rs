use vstd::prelude::*;

verus! {

/// An RGB color with 8-bit channels.
#[derive(Clone, Copy, Debug, PartialEq, Eq, Structural)]
pub struct Rgb {
    pub r: u8,
    pub g: u8,
    pub b: u8,
}

/// The fixed canvas background color.
pub open spec fn background() -> Rgb {
    Rgb { r: 240, g: 240, b: 240 }
}

/// Returns the fixed background color of every rendered canvas.
pub fn background_color() -> (c: Rgb)
    ensures
        c == background(),
{
    Rgb { r: 240, g: 240, b: 240 }
}

} // verus!
