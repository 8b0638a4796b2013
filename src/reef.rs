use vstd::prelude::*;
use crate::prey::Prey;

verus! {

/// An ordered population of prey.
pub struct Reef {
    pub prey: Vec<Prey>,
}

impl View for Reef {
    type V = Seq<Prey>;

    open spec fn view(&self) -> Seq<Prey> {
        self.prey@
    }
}

impl Reef {
    /// An empty reef.
    pub fn new() -> (r: Reef)
        ensures
            r@ == Seq::<Prey>::empty(),
    {
        Reef { prey: Vec::new() }
    }

    /// The number of prey items in the reef.
    pub fn population(&self) -> (r: usize)
        ensures
            r == self@.len(),
    {
        self.prey.len()
    }

    /// Removes and returns the first prey item, or `None` when the reef is empty.
    pub fn take_prey(&mut self) -> (r: Option<Prey>)
        ensures
            old(self)@.len() == 0 ==> r == None::<Prey> && final(self)@ == old(self)@,
            old(self)@.len() > 0 ==> r == Some(old(self)@[0]) && final(self)@ == old(self)@.drop_first(),
    {
        if self.prey.len() == 0 {
            None
        } else {
            let p = self.prey.remove(0);
            assert(self.prey@ =~= old(self)@.drop_first());
            Some(p)
        }
    }

    /// Puts a prey item at the end of the reef.
    pub fn add_prey(&mut self, item: Prey)
        ensures
            final(self)@ == old(self)@.push(item),
    {
        self.prey.push(item);
    }
}

} // verus!
