use vstd::prelude::*;

verus! {

/// The shell color of a crab.
#[derive(Debug, Clone, Copy, PartialEq, Eq, Structural)]
pub enum Color {
    Red,
    Green,
    Blue,
}

/// The crossing rule: two parents of one color give that color,
/// two of different colors give the third one.
pub open spec fn crossed(a: Color, b: Color) -> Color {
    if a == b {
        a
    } else if a != Color::Red && b != Color::Red {
        Color::Red
    } else if a != Color::Green && b != Color::Green {
        Color::Green
    } else {
        Color::Blue
    }
}

impl Color {
    /// The color of the offspring of parents colored `a` and `b`.
    pub fn cross(a: &Color, b: &Color) -> (r: Color)
        ensures
            r == crossed(*a, *b),
    {
        if *a == *b {
            *a
        } else if *a != Color::Red && *b != Color::Red {
            Color::Red
        } else if *a != Color::Green && *b != Color::Green {
            Color::Green
        } else {
            Color::Blue
        }
    }
}

} // verus!
