//! Eight-bit RGBA colours and the three marker colours of a classified image.

use vstd::prelude::*;

verus! {

/// A pixel colour: red, green, blue and alpha, each 0 to 255.
#[derive(Clone, Copy, Debug, PartialEq, Eq, Structural)]
pub struct Rgba8 {
    pub r: u8,
    pub g: u8,
    pub b: u8,
    pub a: u8,
}

impl Rgba8 {
    /// Opaque red, the colour painted over tarp pixels.
    pub open spec fn spec_red() -> Rgba8 {
        Rgba8 { r: 255, g: 0, b: 0, a: 255 }
    }

    /// Opaque blue, the colour painted over noise pixels.
    pub open spec fn spec_blue() -> Rgba8 {
        Rgba8 { r: 0, g: 0, b: 255, a: 255 }
    }

    /// Opaque white, the colour painted over pixels of an unexpected cluster.
    pub open spec fn spec_white() -> Rgba8 {
        Rgba8 { r: 255, g: 255, b: 255, a: 255 }
    }

    #[verifier::when_used_as_spec(spec_red)]
    pub fn red() -> (c: Rgba8)
        ensures
            c == Self::spec_red(),
    {
        Rgba8 { r: 255, g: 0, b: 0, a: 255 }
    }

    #[verifier::when_used_as_spec(spec_blue)]
    pub fn blue() -> (c: Rgba8)
        ensures
            c == Self::spec_blue(),
    {
        Rgba8 { r: 0, g: 0, b: 255, a: 255 }
    }

    #[verifier::when_used_as_spec(spec_white)]
    pub fn white() -> (c: Rgba8)
        ensures
            c == Self::spec_white(),
    {
        Rgba8 { r: 255, g: 255, b: 255, a: 255 }
    }
}

} // verus!
