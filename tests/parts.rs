use ocean::color::Color;
use ocean::cookbook::{Cookbook, Recipe};
use ocean::crab::Crab;
use ocean::diet::Diet;
use ocean::prey::Prey;
use ocean::random::RandomSource;
use ocean::text::same_text;

#[test]
fn random_source_follows_the_recurrence() {
    let mut rng = RandomSource::new(0);
    assert_eq!(rng.next_u64(), 335903614);
    assert_eq!(rng.state, 1442695040888963407);
    assert_eq!(rng.next_u64(), 436792849);
    assert_eq!(rng.state, 1876011003808476466);
    let mut other = RandomSource::new(42);
    assert_eq!(other.next_u64(), 2440530669);
    assert_eq!(other.state, 10481999410520546993);
}

#[test]
fn diet_from_draw_cycles() {
    assert_eq!(Diet::from_draw(0), Diet::Herbivore);
    assert_eq!(Diet::from_draw(1), Diet::Carnivore);
    assert_eq!(Diet::from_draw(2), Diet::Omnivore);
    assert_eq!(Diet::from_draw(3), Diet::Herbivore);
    assert_eq!(Diet::from_draw(u64::MAX), Diet::Herbivore);
}

#[test]
fn diet_compatibility() {
    assert!(Diet::Carnivore.accepts(Diet::Carnivore));
    assert!(!Diet::Carnivore.accepts(Diet::Herbivore));
    assert!(!Diet::Herbivore.accepts(Diet::Carnivore));
    assert!(Diet::Herbivore.accepts(Diet::Omnivore));
    assert!(Diet::Carnivore.accepts(Diet::Omnivore));
    assert!(Diet::Omnivore.accepts(Diet::Herbivore));
}

#[test]
fn colors_cross() {
    assert_eq!(Color::cross(&Color::Red, &Color::Red), Color::Red);
    assert_eq!(Color::cross(&Color::Blue, &Color::Blue), Color::Blue);
    assert_eq!(Color::cross(&Color::Red, &Color::Green), Color::Blue);
    assert_eq!(Color::cross(&Color::Green, &Color::Red), Color::Blue);
    assert_eq!(Color::cross(&Color::Red, &Color::Blue), Color::Green);
    assert_eq!(Color::cross(&Color::Green, &Color::Blue), Color::Red);
}

#[test]
fn prey_escape_rules() {
    let minnow = Prey::minnow(25);
    // odds 25 out of 25 + 30
    assert!(minnow.try_escape(30, 24));
    assert!(!minnow.try_escape(30, 25));
    assert!(minnow.try_escape(30, 55));
    assert!(!minnow.try_escape(30, 54));
    assert!(!Prey::minnow(0).try_escape(0, 0));
    assert!(Prey::minnow(5).try_escape(0, 123));
    let shrimp = Prey::shrimp(1);
    assert!(shrimp.try_escape(7, 10));
    assert!(!shrimp.try_escape(7, 11));
    assert!(Prey::shrimp(10).try_escape(0, 9));
    assert!(!Prey::Clam.try_escape(0, 0));
    assert!(!Prey::Algae.try_escape(u32::MAX, u64::MAX));
}

#[test]
fn prey_diets() {
    assert_eq!(Prey::minnow(3).diet(), Diet::Carnivore);
    assert_eq!(Prey::shrimp(3).diet(), Diet::Omnivore);
    assert_eq!(Prey::Clam.diet(), Diet::Carnivore);
    assert_eq!(Prey::Algae.diet(), Diet::Herbivore);
}

#[test]
fn text_comparison() {
    assert!(same_text("crab", "crab"));
    assert!(!same_text("crab", "crib"));
    assert!(!same_text("crab", "crabs"));
    assert!(same_text("", ""));
    assert!(same_text("kräbbe", "kräbbe"));
}

#[test]
fn crab_accessors() {
    let c = Crab::new("Ferris".to_string(), 7, Color::Green, Diet::Omnivore);
    assert_eq!(c.name(), "Ferris");
    assert_eq!(c.speed(), 7);
    assert_eq!(*c.color(), Color::Green);
    assert_eq!(*c.breed(), Color::Green);
    assert_eq!(c.diet(), Diet::Omnivore);
    assert!(c.reefs.is_empty());
}

#[test]
fn recipe_choice_takes_first_match() {
    let mut book = Cookbook::new();
    book.add_recipe(Recipe::new("salad".to_string(), Diet::Herbivore));
    book.add_recipe(Recipe::new("stew".to_string(), Diet::Carnivore));
    book.add_recipe(Recipe::new("chowder".to_string(), Diet::Carnivore));
    let meaty = Crab::new("M".to_string(), 1, Color::Red, Diet::Carnivore);
    let leafy = Crab::new("L".to_string(), 1, Color::Red, Diet::Herbivore);
    let omni = Crab::new("O".to_string(), 1, Color::Red, Diet::Omnivore);
    assert_eq!(meaty.choose_recipe(&book).map(|r| r.name()), Some("stew"));
    assert_eq!(leafy.choose_recipe(&book).map(|r| r.name()), Some("salad"));
    assert!(omni.choose_recipe(&book).is_none());
    assert!(meaty.choose_recipe(&Cookbook::new()).is_none());
    assert_eq!(book.recipes().len(), 3);
    assert_eq!(book.recipes()[2].diet(), Diet::Carnivore);
}
