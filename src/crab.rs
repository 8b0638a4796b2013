use vstd::prelude::*;
use crate::color::Color;
use crate::cookbook::{first_for_diet, first_for_diet_from, Cookbook, Recipe};
use crate::diet::Diet;
use crate::hunting::{lemma_first_stocked_from, lemma_total_take, total, first_stocked, first_stocked_from, hunt_outcome, populations, put_back, release_all, take_from};
use crate::prey::Prey;
use crate::random::RandomSource;
use crate::reef::Reef;

verus! {

/// A crab: its attributes, and the handles of the reefs it has discovered, in discovery order.
/// A handle is a position in the arena of reefs that the crab hunts in.
#[derive(Debug)]
pub struct Crab {
    pub name: String,
    pub speed: u32,
    pub color: Color,
    pub diet: Diet,
    pub reefs: Vec<usize>,
}

impl Crab {
    /// A crab that has discovered no reef yet.
    pub fn new(name: String, speed: u32, color: Color, diet: Diet) -> (r: Crab)
        ensures
            r.name@ == name@,
            r.speed == speed,
            r.color == color,
            r.diet == diet,
            r.reefs@ == Seq::<usize>::empty(),
    {
        Crab { name, speed, color, diet, reefs: Vec::new() }
    }

    /// The crab's name.
    pub fn name(&self) -> (r: &str)
        ensures
            r@ == self.name@,
    {
        self.name.as_str()
    }

    /// The crab's speed.
    pub fn speed(&self) -> (r: u32)
        ensures
            r == self.speed,
    {
        self.speed
    }

    /// The crab's color.
    pub fn color(&self) -> (r: &Color)
        ensures
            *r == self.color,
    {
        &self.color
    }

    /// The crab's diet.
    pub fn diet(&self) -> (r: Diet)
        ensures
            r == self.diet,
    {
        self.diet
    }

    /// The color this crab hands down when bred.
    pub fn breed(&self) -> (r: &Color)
        ensures
            *r == self.color,
    {
        self.color()
    }

    /// The first recipe of `cookbook` meant for this crab's diet, if any.
    pub fn choose_recipe<'b>(&self, cookbook: &'b Cookbook) -> (r: Option<&'b Recipe>)
        ensures
            match first_for_diet(cookbook.recipes@, self.diet) {
                None => r.is_none(),
                Some(i) => r.is_some() && *r.unwrap() == cookbook.recipes@[i],
            },
    {
        let recipes = cookbook.recipes();
        let mut i: usize = 0;
        while i < recipes.len()
            invariant
                recipes@ == cookbook.recipes@,
                i <= recipes@.len(),
                first_for_diet(recipes@, self.diet) == first_for_diet_from(recipes@, self.diet, i as int),
            decreases recipes@.len() - i,
        {
            if recipes[i].diet() == self.diet {
                return Some(&recipes[i]);
            }
            i = i + 1;
        }
        None
    }

    /// Adds a reef at the end of this crab's reefs.
    pub fn discover_reef(&mut self, reef: usize)
        ensures
            final(self).reefs@ == old(self).reefs@.push(reef),
            final(self).name == old(self).name,
            final(self).speed == old(self).speed,
            final(self).color == old(self).color,
            final(self).diet == old(self).diet,
    {
        self.reefs.push(reef);
    }

    /// One hunt: the crab asks its reefs for prey, in discovery order, until it eats an item or
    /// no reef holds prey; items that escape or do not suit its diet are set aside and, before
    /// the hunt ends, go back to the reefs they came from. Returns whether an item was eaten.
    /// Each item offered takes one draw from `rng`.
    pub fn hunt(&self, reefs: &mut Vec<Reef>, rng: &mut RandomSource) -> (caught: bool)
        ensures
            final(reefs)@.len() == old(reefs)@.len(),
            (caught, populations(final(reefs)@), final(rng).state) == hunt_outcome(
                self.diet,
                self.speed,
                self.reefs@,
                populations(old(reefs)@),
                old(rng).state,
                Seq::empty(),
            ),
    {
        let ghost target = hunt_outcome(
            self.diet,
            self.speed,
            self.reefs@,
            populations(reefs@),
            rng.state,
            Seq::empty(),
        );
        let mut escaped: Vec<(Prey, usize)> = Vec::new();
        let mut caught = false;
        loop
            invariant_except_break
                !caught,
                reefs@.len() == old(reefs)@.len(),
                hunt_outcome(self.diet, self.speed, self.reefs@, populations(reefs@), rng.state, escaped@)
                    == target,
            ensures
                reefs@.len() == old(reefs)@.len(),
                target == (caught, release_all(populations(reefs@), escaped@), rng.state),
            decreases total(populations(reefs@)),
        {
            let ghost before = populations(reefs@);
            match self.catch_prey(reefs) {
                None => {
                    break;
                },
                Some((p, h)) => {
                    proof {
                        lemma_first_stocked_from(self.reefs@, before, 0);
                        lemma_total_take(before, h as int);
                    }
                    let draw: u64 = rng.next_u64();
                    if p.try_escape(self.speed, draw) || !self.diet.accepts(p.diet()) {
                        escaped.push((p, h));
                    } else {
                        caught = true;
                        break;
                    }
                },
            }
        }
        let mut i: usize = 0;
        let ghost base = populations(reefs@);
        while i < escaped.len()
            invariant
                reefs@.len() == old(reefs)@.len(),
                i <= escaped@.len(),
                populations(reefs@) == release_all(base, escaped@.take(i as int)),
                target == (caught, release_all(base, escaped@), rng.state),
            decreases escaped@.len() - i,
        {
            let (p, h) = escaped[i];
            self.release_prey(reefs, p, h);
            assert(escaped@.take(i as int + 1).drop_last() =~= escaped@.take(i as int));
            i = i + 1;
        }
        assert(escaped@.take(i as int) =~= escaped@);
        caught
    }

    /// Takes one item out of the first of this crab's reefs that holds prey,
    /// and returns it with that reef's handle; `None` when no reef holds prey.
    fn catch_prey(&self, reefs: &mut Vec<Reef>) -> (r: Option<(Prey, usize)>)
        ensures
            final(reefs)@.len() == old(reefs)@.len(),
            match first_stocked(self.reefs@, populations(old(reefs)@)) {
                None => r == None::<(Prey, usize)> && populations(final(reefs)@) == populations(old(reefs)@),
                Some(k) => r == Some((populations(old(reefs)@)[self.reefs@[k] as int][0], self.reefs@[k]))
                    && populations(final(reefs)@) == take_from(populations(old(reefs)@), self.reefs@[k] as int),
            },
    {
        let ghost pops = populations(reefs@);
        let mut k: usize = 0;
        while k < self.reefs.len()
            invariant
                reefs@ == old(reefs)@,
                pops == populations(reefs@),
                k <= self.reefs@.len(),
                first_stocked(self.reefs@, pops) == first_stocked_from(self.reefs@, pops, k as int),
            decreases self.reefs@.len() - k,
        {
            let h: usize = self.reefs[k];
            if h < reefs.len() && reefs[h].population() > 0 {
                let taken = reefs[h].take_prey();
                assert(populations(reefs@) =~= take_from(pops, h as int));
                match taken {
                    Some(p) => {
                        return Some((p, h));
                    },
                    None => {
                        return None;
                    },
                }
            }
            k = k + 1;
        }
        None
    }

    /// Puts `prey` back at the end of the reef named by `reef`.
    fn release_prey(&self, reefs: &mut Vec<Reef>, prey: Prey, reef: usize)
        ensures
            final(reefs)@.len() == old(reefs)@.len(),
            populations(final(reefs)@) == put_back(populations(old(reefs)@), reef, prey),
    {
        if reef < reefs.len() {
            reefs[reef].add_prey(prey);
            assert(populations(reefs@) =~= put_back(populations(old(reefs)@), reef, prey));
        } else {
            assert(populations(reefs@) =~= populations(old(reefs)@));
        }
    }
}

} // verus!
