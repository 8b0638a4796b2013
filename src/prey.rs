use vstd::prelude::*;
use crate::diet::Diet;

verus! {

/// Something a crab can try to catch.
#[derive(Debug, Clone, Copy, PartialEq, Eq, Structural)]
pub enum Prey {
    /// A fish whose odds of escape grow with its speed against the hunter's.
    Minnow { speed: u32 },
    /// A shrimp that escapes on draws below its energy, out of ten.
    Shrimp { energy: u32 },
    /// A shellfish that never escapes.
    Clam,
    /// A plant that never escapes.
    Algae,
}

/// The chance is taken out of this many equal outcomes for a shrimp.
pub const SHRIMP_ODDS: u64 = 10;

/// The diet classification of a prey item.
pub open spec fn diet_of(p: Prey) -> Diet {
    match p {
        Prey::Minnow { .. } => Diet::Carnivore,
        Prey::Shrimp { .. } => Diet::Omnivore,
        Prey::Clam => Diet::Carnivore,
        Prey::Algae => Diet::Herbivore,
    }
}

/// Whether `p` evades a hunter of speed `hunter_speed` on the random draw `draw`.
/// A minnow of speed `s` escapes when `draw mod (s + hunter_speed)` falls below `s`,
/// so with odds `s / (s + hunter_speed)`; a shrimp when `draw mod 10` falls below its energy.
pub open spec fn escapes(p: Prey, hunter_speed: u32, draw: u64) -> bool {
    match p {
        Prey::Minnow { speed } => speed > 0 && ((draw as int) % (speed as int + hunter_speed as int)) < (speed as int),
        Prey::Shrimp { energy } => ((draw % SHRIMP_ODDS) as int) < (energy as int),
        Prey::Clam => false,
        Prey::Algae => false,
    }
}

/// Prey that no draw lets escape.
pub open spec fn never_escapes(p: Prey) -> bool {
    p == Prey::Clam || p == Prey::Algae
}

impl Prey {
    /// A minnow of the given speed.
    pub fn minnow(speed: u32) -> (r: Prey)
        ensures
            r == (Prey::Minnow { speed }),
    {
        Prey::Minnow { speed }
    }

    /// A shrimp of the given energy.
    pub fn shrimp(energy: u32) -> (r: Prey)
        ensures
            r == (Prey::Shrimp { energy }),
    {
        Prey::Shrimp { energy }
    }

    /// Decides, on a fresh draw, whether this prey evades a hunter of the given speed.
    pub fn try_escape(&self, hunter_speed: u32, draw: u64) -> (r: bool)
        ensures
            r == escapes(*self, hunter_speed, draw),
    {
        match self {
            Prey::Minnow { speed } => {
                if *speed == 0 {
                    false
                } else {
                    let total: u64 = *speed as u64 + hunter_speed as u64;
                    draw % total < *speed as u64
                }
            },
            Prey::Shrimp { energy } => draw % SHRIMP_ODDS < *energy as u64,
            Prey::Clam => false,
            Prey::Algae => false,
        }
    }

    /// The diet classification of this prey.
    pub fn diet(&self) -> (r: Diet)
        ensures
            r == diet_of(*self),
    {
        match self {
            Prey::Minnow { .. } => Diet::Carnivore,
            Prey::Shrimp { .. } => Diet::Omnivore,
            Prey::Clam => Diet::Carnivore,
            Prey::Algae => Diet::Herbivore,
        }
    }
}

} // verus!
