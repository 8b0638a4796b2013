use ocean::color::Color;
use ocean::crab::Crab;
use ocean::diet::Diet;
use ocean::ocean::Ocean;
use ocean::prey::Prey;
use ocean::random::RandomSource;
use ocean::reef::Reef;

fn crab(name: &str, speed: u32, diet: Diet) -> Crab {
    Crab::new(name.to_string(), speed, Color::Red, diet)
}

fn count(reef: &Reef, item: Prey) -> usize {
    reef.prey.iter().filter(|p| **p == item).count()
}

#[test]
fn minnows_and_clam_scenario() {
    let mut ocean = Ocean::new();
    let h = ocean.generate_reef(2, 0, 1, 0);
    let mut hunter = crab("Ferris", 30, Diet::Carnivore);
    hunter.discover_reef(h);
    let mut rng = RandomSource::new(0);
    // Both minnows escape on the first two draws; the clam is eaten.
    assert!(hunter.hunt(&mut ocean.reefs, &mut rng));
    assert_eq!(ocean.reefs[h].prey, vec![Prey::Minnow { speed: 25 }, Prey::Minnow { speed: 25 }]);
    // The next minnow is caught.
    assert!(hunter.hunt(&mut ocean.reefs, &mut rng));
    assert_eq!(ocean.reefs[h].prey, vec![Prey::Minnow { speed: 25 }]);
    // The last minnow escapes and goes back.
    assert!(!hunter.hunt(&mut ocean.reefs, &mut rng));
    assert_eq!(ocean.reefs[h].prey, vec![Prey::Minnow { speed: 25 }]);
}

#[test]
fn first_hunt_with_a_clam_always_eats() {
    for seed in 0..50u64 {
        let mut ocean = Ocean::new();
        let h = ocean.generate_reef(2, 0, 1, 0);
        let mut hunter = crab("Ferris", 30, Diet::Carnivore);
        hunter.discover_reef(h);
        let mut rng = RandomSource::new(seed);
        assert!(hunter.hunt(&mut ocean.reefs, &mut rng));
        let reef = &ocean.reefs[h];
        assert_eq!(reef.population(), 2);
        let minnows = count(reef, Prey::Minnow { speed: 25 });
        let clams = count(reef, Prey::Clam);
        assert_eq!(minnows + clams, 2);
        assert!(clams <= 1);
    }
}

#[test]
fn population_plus_eaten_is_conserved() {
    let mut ocean = Ocean::new();
    let h = ocean.generate_reef(3, 3, 2, 2);
    let mut hunter = crab("Omni", 10, Diet::Omnivore);
    hunter.discover_reef(h);
    let mut rng = RandomSource::new(42);
    let mut eaten = 0usize;
    for _ in 0..30 {
        let before = ocean.reefs[h].population();
        let caught = hunter.hunt(&mut ocean.reefs, &mut rng);
        let after = ocean.reefs[h].population();
        if caught {
            eaten += 1;
            assert_eq!(after + 1, before);
        } else {
            assert_eq!(after, before);
        }
        assert_eq!(after + eaten, 10);
    }
}

#[test]
fn no_reefs_means_no_meal_and_no_change() {
    let mut ocean = Ocean::new();
    let h = ocean.generate_reef(1, 1, 1, 1);
    let hunter = crab("Lonely", 5, Diet::Carnivore);
    let mut rng = RandomSource::new(9);
    assert!(!hunter.hunt(&mut ocean.reefs, &mut rng));
    assert_eq!(rng.state, 9);
    assert_eq!(
        ocean.reefs[h].prey,
        vec![Prey::Minnow { speed: 25 }, Prey::Shrimp { energy: 1 }, Prey::Clam, Prey::Algae]
    );
}

#[test]
fn unsuitable_prey_is_all_returned() {
    let mut ocean = Ocean::new();
    let h = ocean.generate_reef(0, 0, 0, 3);
    let mut hunter = crab("Meaty", 5, Diet::Carnivore);
    hunter.discover_reef(h);
    let mut rng = RandomSource::new(1);
    for _ in 0..5 {
        assert!(!hunter.hunt(&mut ocean.reefs, &mut rng));
        assert_eq!(ocean.reefs[h].prey, vec![Prey::Algae, Prey::Algae, Prey::Algae]);
    }
}

#[test]
fn herbivore_skips_clams_across_reefs() {
    let mut ocean = Ocean::new();
    let a = ocean.generate_reef(0, 0, 2, 0);
    let b = ocean.generate_reef(0, 0, 1, 0);
    let mut hunter = crab("Leafy", 5, Diet::Herbivore);
    hunter.discover_reef(a);
    hunter.discover_reef(b);
    let mut rng = RandomSource::new(3);
    assert!(!hunter.hunt(&mut ocean.reefs, &mut rng));
    assert_eq!(ocean.reefs[a].prey, vec![Prey::Clam, Prey::Clam]);
    assert_eq!(ocean.reefs[b].prey, vec![Prey::Clam]);
}

#[test]
fn single_sure_prey_is_eaten() {
    let mut ocean = Ocean::new();
    let h = ocean.generate_reef(0, 0, 1, 0);
    let mut hunter = crab("Clammy", 1, Diet::Carnivore);
    hunter.discover_reef(h);
    let mut rng = RandomSource::new(5);
    assert!(hunter.hunt(&mut ocean.reefs, &mut rng));
    assert_eq!(ocean.reefs[h].population(), 0);
    assert!(!hunter.hunt(&mut ocean.reefs, &mut rng));
}

#[test]
fn later_reef_feeds_when_earlier_is_empty() {
    let mut ocean = Ocean::new();
    let empty = ocean.generate_reef(0, 0, 0, 0);
    let full = ocean.generate_reef(0, 0, 0, 2);
    let mut hunter = crab("Greens", 3, Diet::Herbivore);
    hunter.discover_reef(empty);
    hunter.discover_reef(full);
    let mut rng = RandomSource::new(11);
    assert!(hunter.hunt(&mut ocean.reefs, &mut rng));
    assert_eq!(ocean.reefs[empty].population(), 0);
    assert_eq!(ocean.reefs[full].prey, vec![Prey::Algae]);
}

#[test]
fn escaped_prey_goes_back_to_its_own_reef() {
    let mut ocean = Ocean::new();
    let a = ocean.generate_reef(0, 0, 0, 1);
    let b = ocean.generate_reef(0, 0, 1, 0);
    let mut hunter = crab("Picky", 2, Diet::Carnivore);
    hunter.discover_reef(a);
    hunter.discover_reef(b);
    let mut rng = RandomSource::new(8);
    assert!(hunter.hunt(&mut ocean.reefs, &mut rng));
    assert_eq!(ocean.reefs[a].prey, vec![Prey::Algae]);
    assert_eq!(ocean.reefs[b].population(), 0);
}

#[test]
fn handle_without_reef_is_skipped() {
    let mut ocean = Ocean::new();
    let h = ocean.generate_reef(0, 0, 1, 0);
    let mut hunter = crab("Lost", 2, Diet::Carnivore);
    hunter.discover_reef(7);
    hunter.discover_reef(h);
    let mut rng = RandomSource::new(8);
    assert!(hunter.hunt(&mut ocean.reefs, &mut rng));
    assert_eq!(ocean.reefs[h].population(), 0);
}

#[test]
fn reef_takes_from_the_front_and_adds_at_the_end() {
    let mut reef = Reef::new();
    assert_eq!(reef.take_prey(), None);
    reef.add_prey(Prey::Clam);
    reef.add_prey(Prey::Algae);
    assert_eq!(reef.take_prey(), Some(Prey::Clam));
    reef.add_prey(Prey::Clam);
    assert_eq!(reef.prey, vec![Prey::Algae, Prey::Clam]);
    assert_eq!(reef.population(), 2);
}

#[test]
fn generated_reef_order_and_handles() {
    let mut ocean = Ocean::new();
    assert_eq!(ocean.generate_reef(1, 2, 1, 1), 0);
    assert_eq!(ocean.generate_reef(0, 0, 0, 0), 1);
    assert_eq!(ocean.reefs().len(), 2);
    assert_eq!(
        ocean.reefs()[0].prey,
        vec![
            Prey::Minnow { speed: 25 },
            Prey::Shrimp { energy: 1 },
            Prey::Shrimp { energy: 1 },
            Prey::Clam,
            Prey::Algae
        ]
    );
    assert_eq!(ocean.reefs()[1].population(), 0);
}
