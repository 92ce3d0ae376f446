//! Plain-value color model.
//!
//! The color-space math itself (RGB/HCL conversion, perceptual gradient
//! interpolation) is an external collaborator.  This module only records
//! which color a draw instruction carries, as a value the layout logic can
//! reason about: a named hue from the built-in hue sets, or the components
//! handed to a spherical HCL constructor.

use vstd::prelude::*;

verus! {

/// A named hue from the built-in hue sets.
///
/// `White` and `Black` aside, the names run clockwise around the 24-hue
/// quaternary wheel, `Red` first.
#[derive(Clone, Copy, Debug, PartialEq, Eq, Structural)]
pub enum ColorName {
    White,
    Black,
    Red,
    Vermillion,
    Orange,
    Amber,
    Yellow,
    Becquerel,
    Chartreuse,
    Lime,
    Green,
    Emerald,
    Mint,
    Turquoise,
    Cyan,
    Capri,
    Azure,
    Cerulean,
    Blue,
    Indigo,
    Violet,
    Purple,
    Magenta,
    Fuschia,
    Rose,
    Ruby,
}

/// A color as the layout engine sees it: an opaque, cheap-to-copy value.
#[derive(Clone, Copy, Debug, PartialEq, Eq, Structural)]
pub enum Color {
    /// One of the named constant colors.
    Named(ColorName),
    /// A color built from spherical HCL components.  Each component is a
    /// fraction of the unit interval in ten-thousandths: `10_000` stands
    /// for `1.0`.
    SphericalHcl { hue_e4: u32, chroma_e4: u32, luminance_e4: u32 },
}

/// The 24 hues of the quaternary wheel, clockwise from red.
pub open spec fn quaternary_hue_seq() -> Seq<ColorName> {
    seq![
        ColorName::Red,
        ColorName::Vermillion,
        ColorName::Orange,
        ColorName::Amber,
        ColorName::Yellow,
        ColorName::Becquerel,
        ColorName::Chartreuse,
        ColorName::Lime,
        ColorName::Green,
        ColorName::Emerald,
        ColorName::Mint,
        ColorName::Turquoise,
        ColorName::Cyan,
        ColorName::Capri,
        ColorName::Azure,
        ColorName::Cerulean,
        ColorName::Blue,
        ColorName::Indigo,
        ColorName::Violet,
        ColorName::Purple,
        ColorName::Magenta,
        ColorName::Fuschia,
        ColorName::Rose,
        ColorName::Ruby,
    ]
}

/// The quaternary hue wheel as a vector, clockwise from red.
pub fn quaternary_hues() -> (r: Vec<ColorName>)
    ensures
        r@ == quaternary_hue_seq(),
{
    let mut v: Vec<ColorName> = Vec::new();
    v.push(ColorName::Red);
    v.push(ColorName::Vermillion);
    v.push(ColorName::Orange);
    v.push(ColorName::Amber);
    v.push(ColorName::Yellow);
    v.push(ColorName::Becquerel);
    v.push(ColorName::Chartreuse);
    v.push(ColorName::Lime);
    v.push(ColorName::Green);
    v.push(ColorName::Emerald);
    v.push(ColorName::Mint);
    v.push(ColorName::Turquoise);
    v.push(ColorName::Cyan);
    v.push(ColorName::Capri);
    v.push(ColorName::Azure);
    v.push(ColorName::Cerulean);
    v.push(ColorName::Blue);
    v.push(ColorName::Indigo);
    v.push(ColorName::Violet);
    v.push(ColorName::Purple);
    v.push(ColorName::Magenta);
    v.push(ColorName::Fuschia);
    v.push(ColorName::Rose);
    v.push(ColorName::Ruby);
    proof {
        assert(v@ =~= quaternary_hue_seq());
    }
    v
}

/// A linear-light RGBA byte quadruple, as packed into pixel buffers.
#[derive(Clone, Copy, Debug, PartialEq, Eq, Structural)]
pub struct Rgba {
    pub r: u8,
    pub g: u8,
    pub b: u8,
    pub a: u8,
}

impl Rgba {
    /// The byte at channel `j` of the RGBA quadruple.
    pub open spec fn byte(self, j: int) -> u8 {
        if j == 0 {
            self.r
        } else if j == 1 {
            self.g
        } else if j == 2 {
            self.b
        } else {
            self.a
        }
    }
}

} // verus!
