use arrata::{Character, Inspiration, Item, Quality, Quirk, QuirkCategory, Stat};
use std::cmp::Ordering;

#[test]
fn thresholds_fall_as_quality_rises() {
    assert_eq!(Quality::Basic.threshold(), 4);
    assert_eq!(Quality::Adept.threshold(), 3);
    assert_eq!(Quality::Superb.threshold(), 2);
}

#[test]
fn superb_is_the_highest_quality() {
    assert!(Quality::Basic < Quality::Adept);
    assert!(Quality::Adept < Quality::Superb);
    assert!(Quality::Basic < Quality::Superb);
    assert!(Quality::Superb > Quality::Basic);
    assert!(Quality::Adept >= Quality::Adept);
    assert!(Quality::Adept <= Quality::Adept);
    assert!(!(Quality::Superb < Quality::Adept));
}

#[test]
fn qualities_compare_by_rank() {
    let all = [Quality::Basic, Quality::Adept, Quality::Superb];
    for (i, a) in all.iter().enumerate() {
        for (j, b) in all.iter().enumerate() {
            assert_eq!(a.partial_cmp(b), Some(i.cmp(&j)));
            assert_eq!(a == b, i == j);
        }
    }
    assert_eq!(Quality::Superb.partial_cmp(&Quality::Basic), Some(Ordering::Greater));
}

#[test]
fn qualities_sort_from_basic_to_superb() {
    let mut all = vec![Quality::Superb, Quality::Basic, Quality::Adept, Quality::Basic];
    all.sort();
    assert_eq!(all, vec![Quality::Basic, Quality::Basic, Quality::Adept, Quality::Superb]);
    assert_eq!(Quality::Adept.max(Quality::Superb), Quality::Superb);
    assert_eq!(Quality::Adept.min(Quality::Basic), Quality::Basic);
    for a in all.iter() {
        for b in all.iter() {
            assert_eq!(a.partial_cmp(b), Some(a.cmp(b)));
        }
    }
}

#[test]
fn qualities_have_names_and_letters() {
    assert_eq!(Quality::Basic.to_string(), "Basic");
    assert_eq!(Quality::Adept.to_string(), "Adept");
    assert_eq!(Quality::Superb.to_string(), "Superb");
    assert_eq!(Quality::Basic.letter(), 'B');
    assert_eq!(Quality::Adept.letter(), 'A');
    assert_eq!(Quality::Superb.letter(), 'S');
}

#[test]
fn letters_are_read_back() {
    for quality in [Quality::Basic, Quality::Adept, Quality::Superb] {
        assert_eq!(Quality::from_letter(quality.letter()), quality);
    }
    assert_eq!(Quality::from_letter('a'), Quality::Adept);
    assert_eq!(Quality::from_letter('s'), Quality::Superb);
    assert_eq!(Quality::from_letter('b'), Quality::Basic);
    assert_eq!(Quality::from_letter('z'), Quality::Basic);
    assert_eq!(Quality::from_letter('4'), Quality::Basic);
}

#[test]
fn new_stat_is_one_basic_die() {
    let stat = Stat::new("Will".to_string());
    assert_eq!(stat.name, "Will");
    assert_eq!(stat.quality, Quality::Basic);
    assert_eq!(stat.quantity, 1);
    assert_eq!(stat.checks, Some(0));
}

#[test]
fn new_character_has_the_six_core_stats() {
    let character = Character::new("Ada".to_string());
    assert_eq!(character.name, "Ada");
    assert_eq!(character.stock, "Stock");
    let names: Vec<&str> = character.stats.iter().map(|stat| stat.name.as_str()).collect();
    assert_eq!(names, vec!["Will", "Perception", "Conscious", "Power", "Speed", "Forte"]);
    for stat in &character.stats {
        assert_eq!(*stat, Stat::new(stat.name.clone()));
    }
    assert!(character.skills.is_empty());
    assert!(character.finite_resources.is_empty());
    assert!(character.infinite_resources.is_empty());
    assert!(character.quirks.is_empty());
    assert!(character.inventory.is_empty());
    assert_eq!(character.argos, "");
    assert_eq!(character.inspiration, Inspiration { ethos: 0, pathos: 0, logos: 0 });
}

#[test]
fn default_character_is_called_name() {
    assert_eq!(Character::default(), Character::new("Name".to_string()));
    assert_eq!(Character::default().name, "Name");
}

#[test]
fn new_item_is_out_of_stock() {
    let item = Item::new("Rope".to_string());
    assert_eq!(item.name, "Rope");
    assert_eq!(item.quantity, 0);
    assert_eq!(item.description, "");
    assert_eq!(Item::default(), Item::new("New Item!".to_string()));
}

#[test]
fn new_quirk_is_filed_under_ethos() {
    let quirk = Quirk::new("Stubborn".to_string());
    assert_eq!(quirk.name, "Stubborn");
    assert_eq!(quirk.category, QuirkCategory::Ethos);
    assert_eq!(quirk.description, "");
    assert!(quirk.boons.is_empty());
    assert!(quirk.flaws.is_empty());
    assert_eq!(Quirk::default(), Quirk::new("New Quirk!".to_string()));
}

#[test]
fn new_inspiration_is_none() {
    assert_eq!(Inspiration::new(), Inspiration { ethos: 0, pathos: 0, logos: 0 });
    assert_eq!(Inspiration::default(), Inspiration::new());
}
