use vstd::prelude::*;
use crate::color::{crossed, Color};
use crate::crab::Crab;
use crate::diet::{diet_of_draw, Diet};
use crate::random::{next_state, output_of, RandomSource};
use crate::text::same_text;

verus! {

/// The speed of a newly bred crab.
pub const HATCHLING_SPEED: u32 = 1;

/// An ordered collection of crabs; new ones go at the end.
#[derive(Debug)]
pub struct Beach {
    pub crabs: Vec<Crab>,
}

/// Position `i` holds the fastest crab, and the first one of that speed.
pub open spec fn is_first_fastest(crabs: Seq<Crab>, i: int) -> bool {
    &&& 0 <= i < crabs.len()
    &&& forall|j: int| 0 <= j < crabs.len() ==> #[trigger] crabs[j].speed <= crabs[i].speed
    &&& forall|j: int| 0 <= j < i ==> #[trigger] crabs[j].speed < crabs[i].speed
}

/// The crabs named `name`, in order.
pub open spec fn named(crabs: Seq<Crab>, name: Seq<char>) -> Seq<Crab> {
    crabs.filter(|c: Crab| c.name@ == name)
}

impl Beach {
    /// A beach without crabs.
    pub fn new() -> (r: Beach)
        ensures
            r.crabs@ == Seq::<Crab>::empty(),
    {
        Beach { crabs: Vec::new() }
    }

    /// The number of crabs on the beach.
    pub fn size(&self) -> (r: usize)
        ensures
            r == self.crabs@.len(),
    {
        self.crabs.len()
    }

    /// Puts `crab` at the end of the beach's crabs.
    pub fn add_crab(&mut self, crab: Crab)
        ensures
            final(self).crabs@ == old(self).crabs@.push(crab),
    {
        self.crabs.push(crab);
    }

    /// The crab at position `index`.
    pub fn get_crab(&self, index: usize) -> (r: &Crab)
        requires
            index < self.crabs@.len(),
        ensures
            *r == self.crabs@[index as int],
    {
        &self.crabs[index]
    }

    /// The crabs, in order.
    pub fn crabs(&self) -> (r: &[Crab])
        ensures
            r@ == self.crabs@,
    {
        self.crabs.as_slice()
    }

    /// The fastest crab, the first one in order among equally fast ones;
    /// `None` on an empty beach.
    pub fn get_fastest_crab(&self) -> (r: Option<&Crab>)
        ensures
            self.crabs@.len() == 0 <==> r.is_none(),
            r.is_some() ==> exists|i: int| is_first_fastest(self.crabs@, i) && *r.unwrap() == self.crabs@[i],
    {
        if self.crabs.len() == 0 {
            return None;
        }
        let mut best: usize = 0;
        let mut k: usize = 1;
        while k < self.crabs.len()
            invariant
                1 <= k <= self.crabs@.len(),
                best < k,
                forall|j: int| 0 <= j < k ==> #[trigger] self.crabs@[j].speed <= self.crabs@[best as int].speed,
                forall|j: int| 0 <= j < best ==> #[trigger] self.crabs@[j].speed < self.crabs@[best as int].speed,
            decreases self.crabs@.len() - k,
        {
            if self.crabs[k].speed() > self.crabs[best].speed() {
                best = k;
            }
            k = k + 1;
        }
        assert(is_first_fastest(self.crabs@, best as int));
        Some(&self.crabs[best])
    }

    /// The crabs named `name`, in order.
    pub fn find_crabs_by_name(&self, name: &str) -> (r: Vec<&Crab>)
        ensures
            r@.map_values(|c: &Crab| *c) == named(self.crabs@, name@),
    {
        let mut found: Vec<&Crab> = Vec::new();
        let mut k: usize = 0;
        while k < self.crabs.len()
            invariant
                k <= self.crabs@.len(),
                found@.map_values(|c: &Crab| *c) == named(self.crabs@.take(k as int), name@),
            decreases self.crabs@.len() - k,
        {
            let crab = &self.crabs[k];
            proof {
                assert(self.crabs@.take(k as int + 1) =~= self.crabs@.take(k as int).push(self.crabs@[k as int]));
                self.crabs@.take(k as int).lemma_filter_push(self.crabs@[k as int], |c: Crab| c.name@ == name@);
            }
            if same_text(crab.name(), name) {
                found.push(crab);
                assert(found@.map_values(|c: &Crab| *c) =~= named(self.crabs@.take(k as int), name@).push(*crab));
            }
            k = k + 1;
        }
        assert(self.crabs@.take(k as int) =~= self.crabs@);
        found
    }

    /// Breeds the crabs at positions `i` and `j`: the new crab, named `name`, has the
    /// crossed color of its parents, the hatchling speed, a diet drawn from `rng`, and no
    /// reefs; it goes at the end of the beach.
    pub fn breed_crabs(&mut self, i: usize, j: usize, name: String, rng: &mut RandomSource)
        requires
            i < old(self).crabs@.len(),
            j < old(self).crabs@.len(),
        ensures
            final(rng).state == next_state(old(rng).state),
            final(self).crabs@.len() == old(self).crabs@.len() + 1,
            final(self).crabs@.take(old(self).crabs@.len() as int) == old(self).crabs@,
            ({
                let c = final(self).crabs@.last();
                &&& c.name@ == name@
                &&& c.speed == HATCHLING_SPEED
                &&& c.color == crossed(old(self).crabs@[i as int].color, old(self).crabs@[j as int].color)
                &&& c.diet == diet_of_draw(output_of(final(rng).state))
                &&& c.reefs@ == Seq::<usize>::empty()
            }),
    {
        let color = Color::cross(self.crabs[i].breed(), self.crabs[j].breed());
        let diet = Diet::from_draw(rng.next_u64());
        let child = Crab::new(name, HATCHLING_SPEED, color, diet);
        self.add_crab(child);
        assert(self.crabs@.take(old(self).crabs@.len() as int) =~= old(self).crabs@);
    }
}

} // verus!
