use tabs_army::roster::TabUnits;
use tabs_army::unit::TabUnit;

fn small_roster() -> TabUnits {
    let mut r = TabUnits::new();
    r.add(TabUnit::new(0, "1.png", "Clubber", "Tribal", 70, true));
    r.add(TabUnit::new(1, "8.png", "Halfling", "Farmer", 50, false));
    r.add(TabUnit::new(2, "2.png", "Protector", "Tribal", 90, false));
    r.add(TabUnit::new(3, "9.png", "Farmer", "Farmer", 70, true));
    r
}

fn flags(r: &TabUnits) -> Vec<bool> {
    r.units.iter().map(|u| u.enabled).collect()
}

#[test]
fn add_appends_and_len_counts() {
    let r = small_roster();
    assert_eq!(r.len(), 4);
    assert_eq!(r.units[2].unit_name, "Protector");
}

#[test]
fn replace_puts_unit_at_position() {
    let mut r = small_roster();
    r.replace(1, TabUnit::new(1, "x.png", "New", "Farmer", 5, true));
    assert_eq!(r.units[1].unit_name, "New");
    assert_eq!(r.units[1].cost, 5);
    assert_eq!(r.len(), 4);
}

#[test]
fn select_all_enables_every_unit() {
    let mut r = small_roster();
    r.select_all();
    assert_eq!(flags(&r), vec![true, true, true, true]);
    assert_eq!(r.units[1].unit_name, "Halfling");
    r.select_all();
    assert_eq!(flags(&r), vec![true, true, true, true]);
}

#[test]
fn disable_all_disables_every_unit() {
    let mut r = small_roster();
    r.disable_all();
    assert_eq!(flags(&r), vec![false, false, false, false]);
}

#[test]
fn select_clan_enables_only_that_faction() {
    let mut r = small_roster();
    r.disable_all();
    r.select_clan(String::from("Farmer"));
    assert_eq!(flags(&r), vec![false, true, false, true]);
    r.select_clan(String::from("Tribal"));
    assert_eq!(flags(&r), vec![true, true, true, true]);
}

#[test]
fn select_clan_of_unknown_faction_changes_nothing() {
    let mut r = small_roster();
    r.select_clan(String::from("Nobody"));
    assert_eq!(flags(&r), vec![true, false, false, true]);
}

#[test]
fn selection_writes_by_unit_number() {
    // The unit at position 0 carries number 2: the pass writes it at position 2.
    let mut r = TabUnits::new();
    r.add(TabUnit::new(2, "a.png", "A", "Tribal", 10, false));
    r.add(TabUnit::new(1, "b.png", "B", "Tribal", 20, false));
    r.add(TabUnit::new(2, "c.png", "C", "Tribal", 30, false));
    r.select_all();
    assert_eq!(r.units[0].unit_name, "A");
    assert!(!r.units[0].enabled);
    assert!(r.units[1].enabled);
    assert_eq!(r.units[2].unit_name, "A");
    assert!(r.units[2].enabled);
}

#[test]
fn toggle_flips_and_twice_restores() {
    let mut r = small_roster();
    assert_eq!(r.toggle_unit(0), false);
    assert_eq!(flags(&r), vec![false, false, false, true]);
    assert_eq!(r.toggle_unit(0), true);
    assert_eq!(flags(&r), vec![true, false, false, true]);
    assert_eq!(r.toggle_unit(1), true);
}

#[test]
fn roster_description_one_line_per_unit() {
    let mut r = TabUnits::new();
    r.add(TabUnit::new(0, "1.png", "Clubber", "Tribal", 70, true));
    r.add(TabUnit::new(1, "2.png", "Protector", "Tribal", 90, false));
    assert_eq!(
        r.describe(),
        "{ id: 0, file_name: 1.png, unit_name: Clubber, faction: Tribal, cost: 70, enabled: true } :: TabUnit\n\
         { id: 1, file_name: 2.png, unit_name: Protector, faction: Tribal, cost: 90, enabled: false } :: TabUnit\n"
    );
    assert_eq!(TabUnits::new().describe(), "");
}

#[test]
fn selection_fits_only_when_concerned_numbers_are_positions() {
    let mut r = TabUnits::new();
    r.add(TabUnit::new(0, "a.png", "A", "Tribal", 10, false));
    r.add(TabUnit::new(7, "b.png", "B", "Farmer", 20, false));
    assert!(!r.selection_fits(None, true));
    assert!(r.selection_fits(Some(&String::from("Tribal")), true));
    assert!(!r.selection_fits(Some(&String::from("Farmer")), true));
    r.select_clan(String::from("Tribal"));
    assert!(r.units[0].enabled);
    assert!(!r.units[1].enabled);
    // a unit with a bad number is not read if it was overwritten first
    let mut q = TabUnits::new();
    q.add(TabUnit::new(1, "a.png", "A", "Tribal", 10, false));
    q.add(TabUnit::new(9, "b.png", "B", "Tribal", 20, false));
    assert!(q.selection_fits(None, true));
    q.select_all();
    assert_eq!(q.units[1].unit_name, "A");
    assert!(q.units[1].enabled);
    assert!(!q.units[0].enabled);
}
