use tabs_army::catalogue::{clan_names, create_initial_units, CATALOGUE_SIZE};

#[test]
fn catalogue_has_every_unit_in_order() {
    let r = create_initial_units();
    assert_eq!(r.len(), 101);
    assert_eq!(CATALOGUE_SIZE, 101);
    for (i, u) in r.units.iter().enumerate() {
        assert_eq!(u.id as usize, i);
        assert!(u.enabled);
        assert!(u.cost >= 50);
    }
    assert_eq!(r.units[0].unit_name, "Clubber");
    assert_eq!(r.units[0].file_name, "1.png");
    assert_eq!(r.units[0].faction, "Tribal");
    assert_eq!(r.units[0].cost, 70);
    assert_eq!(r.units[63].unit_name, "Dynamite Thrower");
    assert_eq!(r.units[63].file_name, "101.png");
    assert_eq!(r.units[97].unit_name, "Artemis");
    assert_eq!(r.units[97].cost, 6500);
    assert_eq!(r.units[100].unit_name, "Ball n' Chain");
    assert_eq!(r.units[100].faction, "Secret");
    assert_eq!(r.units[100].cost, 350);
}

#[test]
fn every_faction_has_a_button() {
    let names = clan_names();
    assert_eq!(
        names,
        vec!["Tribal", "Farmer", "Medieval", "Ancient", "Viking", "Dynasty", "Renaissance", "Pirate", "Spooky", "Western", "Secret"]
    );
    let r = create_initial_units();
    for u in r.units.iter() {
        assert!(names.contains(&u.faction));
    }
}

#[test]
fn faction_sizes() {
    let r = create_initial_units();
    let count = |f: &str| r.units.iter().filter(|u| u.faction == f).count();
    assert_eq!(count("Tribal"), 7);
    assert_eq!(count("Farmer"), 7);
    assert_eq!(count("Secret"), 31);
}
