use vstd::prelude::*;
use crate::beach::Beach;
use crate::hunting::populations;
use crate::prey::Prey;
use crate::reef::Reef;

verus! {

/// The speed of every minnow of a generated reef.
pub const MINNOW_SPEED: u32 = 25;

/// The energy of every shrimp of a generated reef.
pub const SHRIMP_ENERGY: u32 = 1;

/// The beaches, and the arena of reefs that crabs hold handles to.
pub struct Ocean {
    pub beaches: Vec<Beach>,
    pub reefs: Vec<Reef>,
}

/// The population of a generated reef: the minnows, then the shrimp, the clams and the algae.
pub open spec fn stock(n_minnows: u32, n_shrimp: u32, n_clams: u32, n_algae: u32) -> Seq<Prey> {
    Seq::new(n_minnows as nat, |k: int| Prey::Minnow { speed: MINNOW_SPEED })
        + Seq::new(n_shrimp as nat, |k: int| Prey::Shrimp { energy: SHRIMP_ENERGY })
        + Seq::new(n_clams as nat, |k: int| Prey::Clam)
        + Seq::new(n_algae as nat, |k: int| Prey::Algae)
}

/// Puts `count` copies of `item` at the end of `reef`.
fn add_copies(reef: &mut Reef, item: Prey, count: u32)
    ensures
        final(reef)@ == old(reef)@ + Seq::new(count as nat, |k: int| item),
{
    let mut n: u32 = 0;
    while n < count
        invariant
            n <= count,
            reef@ == old(reef)@ + Seq::new(n as nat, |k: int| item),
        decreases count - n,
    {
        reef.add_prey(item);
        assert(old(reef)@ + Seq::new((n + 1) as nat, |k: int| item) =~= (old(reef)@ + Seq::new(
            n as nat,
            |k: int| item,
        )).push(item));
        n = n + 1;
    }
}

impl Ocean {
    /// An ocean without beaches or reefs.
    pub fn new() -> (r: Ocean)
        ensures
            r.beaches@ == Seq::<Beach>::empty(),
            r.reefs@ == Seq::<Reef>::empty(),
    {
        Ocean { beaches: Vec::new(), reefs: Vec::new() }
    }

    /// Puts `beach` at the end of the ocean's beaches.
    pub fn add_beach(&mut self, beach: Beach)
        ensures
            final(self).beaches@ == old(self).beaches@.push(beach),
            final(self).reefs@ == old(self).reefs@,
    {
        self.beaches.push(beach);
    }

    /// The beaches, in order.
    pub fn beaches(&self) -> (r: &[Beach])
        ensures
            r@ == self.beaches@,
    {
        self.beaches.as_slice()
    }

    /// The reefs, in the order they were generated; a reef's handle is its position here.
    pub fn reefs(&self) -> (r: &[Reef])
        ensures
            r@ == self.reefs@,
    {
        self.reefs.as_slice()
    }

    /// Generates a reef of `n_minnows` minnows, `n_shrimp` shrimp, `n_clams` clams and
    /// `n_algae` algae, in that order, adds it to the ocean and returns its handle.
    pub fn generate_reef(&mut self, n_minnows: u32, n_shrimp: u32, n_clams: u32, n_algae: u32) -> (r: usize)
        ensures
            r == old(self).reefs@.len(),
            final(self).reefs@.len() == old(self).reefs@.len() + 1,
            populations(final(self).reefs@) == populations(old(self).reefs@).push(
                stock(n_minnows, n_shrimp, n_clams, n_algae),
            ),
            final(self).beaches@ == old(self).beaches@,
    {
        let mut reef = Reef::new();
        add_copies(&mut reef, Prey::minnow(MINNOW_SPEED), n_minnows);
        add_copies(&mut reef, Prey::shrimp(SHRIMP_ENERGY), n_shrimp);
        add_copies(&mut reef, Prey::Clam, n_clams);
        add_copies(&mut reef, Prey::Algae, n_algae);
        assert(reef@ =~= stock(n_minnows, n_shrimp, n_clams, n_algae));
        let handle: usize = self.reefs.len();
        self.reefs.push(reef);
        assert(populations(self.reefs@) =~= populations(old(self).reefs@).push(
            stock(n_minnows, n_shrimp, n_clams, n_algae),
        ));
        handle
    }
}

} // verus!
