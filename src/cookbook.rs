use vstd::prelude::*;
use crate::diet::Diet;

verus! {

/// A dish, meant for one diet.
pub struct Recipe {
    pub name: String,
    pub diet: Diet,
}

/// An ordered collection of recipes.
pub struct Cookbook {
    pub recipes: Vec<Recipe>,
}

/// The position of the first recipe at or after `k` whose diet is `diet`.
pub open spec fn first_for_diet_from(recipes: Seq<Recipe>, diet: Diet, k: int) -> Option<int>
    decreases recipes.len() - k,
{
    if k < 0 || k >= recipes.len() {
        None
    } else if recipes[k].diet == diet {
        Some(k)
    } else {
        first_for_diet_from(recipes, diet, k + 1)
    }
}

/// The position of the first recipe whose diet is `diet`.
pub open spec fn first_for_diet(recipes: Seq<Recipe>, diet: Diet) -> Option<int> {
    first_for_diet_from(recipes, diet, 0)
}

impl Recipe {
    /// A recipe with the given name, for the given diet.
    pub fn new(name: String, diet: Diet) -> (r: Recipe)
        ensures
            r.name@ == name@,
            r.diet == diet,
    {
        Recipe { name, diet }
    }

    /// The recipe's name.
    pub fn name(&self) -> (r: &str)
        ensures
            r@ == self.name@,
    {
        self.name.as_str()
    }

    /// The diet the recipe is meant for.
    pub fn diet(&self) -> (r: Diet)
        ensures
            r == self.diet,
    {
        self.diet
    }
}

impl Cookbook {
    /// A cookbook without recipes.
    pub fn new() -> (r: Cookbook)
        ensures
            r.recipes@ == Seq::<Recipe>::empty(),
    {
        Cookbook { recipes: Vec::new() }
    }

    /// Adds a recipe at the end.
    pub fn add_recipe(&mut self, recipe: Recipe)
        ensures
            final(self).recipes@ == old(self).recipes@.push(recipe),
    {
        self.recipes.push(recipe);
    }

    /// The recipes, in order.
    pub fn recipes(&self) -> (r: &[Recipe])
        ensures
            r@ == self.recipes@,
    {
        self.recipes.as_slice()
    }
}

} // verus!
