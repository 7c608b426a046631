//! Colors of the render hints.

use vstd::prelude::*;

verus! {

/// A color as red, green and blue components.
#[derive(Clone, Copy, Debug, PartialEq, Eq, Structural)]
pub struct Color {
    pub r: u8,
    pub g: u8,
    pub b: u8,
}

/// White.
pub open spec fn spec_white() -> Color {
    Color { r: 255, g: 255, b: 255 }
}

/// White.
#[verifier::when_used_as_spec(spec_white)]
pub fn white() -> (c: Color)
    ensures
        c == spec_white(),
{
    Color { r: 255, g: 255, b: 255 }
}

/// The dark red of a corpse.
pub open spec fn spec_dark_red() -> Color {
    Color { r: 191, g: 0, b: 0 }
}

/// The dark red of a corpse.
#[verifier::when_used_as_spec(spec_dark_red)]
pub fn dark_red() -> (c: Color)
    ensures
        c == spec_dark_red(),
{
    Color { r: 191, g: 0, b: 0 }
}

/// A washed-out green.
pub open spec fn spec_desaturated_green() -> Color {
    Color { r: 63, g: 127, b: 63 }
}

/// A washed-out green.
#[verifier::when_used_as_spec(spec_desaturated_green)]
pub fn desaturated_green() -> (c: Color)
    ensures
        c == spec_desaturated_green(),
{
    Color { r: 63, g: 127, b: 63 }
}

/// A deep green.
pub open spec fn spec_darker_green() -> Color {
    Color { r: 0, g: 127, b: 0 }
}

/// A deep green.
#[verifier::when_used_as_spec(spec_darker_green)]
pub fn darker_green() -> (c: Color)
    ensures
        c == spec_darker_green(),
{
    Color { r: 0, g: 127, b: 0 }
}

} // verus!
