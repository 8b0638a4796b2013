use vstd::prelude::*;

verus! {

/// What a crab eats, or what kind of eater a prey item feeds.
#[derive(Debug, Clone, Copy, PartialEq, Eq, Structural)]
pub enum Diet {
    Herbivore,
    Carnivore,
    Omnivore,
}

/// The diet picked by a draw: the draw modulo three selects one of the three diets.
pub open spec fn diet_of_draw(draw: u64) -> Diet {
    if draw % 3 == 0 {
        Diet::Herbivore
    } else if draw % 3 == 1 {
        Diet::Carnivore
    } else {
        Diet::Omnivore
    }
}

/// Whether a crab of diet `eater` may eat prey classified `food`.
/// An omnivorous crab eats anything, and prey classified omnivore suits any crab.
pub open spec fn compatible(eater: Diet, food: Diet) -> bool {
    eater == food || eater == Diet::Omnivore || food == Diet::Omnivore
}

impl Diet {
    /// Picks a diet from a uniformly drawn number.
    pub fn from_draw(draw: u64) -> (r: Diet)
        ensures
            r == diet_of_draw(draw),
    {
        let k: u64 = draw % 3;
        if k == 0 {
            Diet::Herbivore
        } else if k == 1 {
            Diet::Carnivore
        } else {
            Diet::Omnivore
        }
    }

    /// Whether a crab of this diet may eat prey classified `food`.
    pub fn accepts(self, food: Diet) -> (r: bool)
        ensures
            r == compatible(self, food),
    {
        self == food || self == Diet::Omnivore || food == Diet::Omnivore
    }
}

} // verus!
