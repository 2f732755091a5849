use std::collections::HashMap;

use tabs_army::catalogue::create_initial_units;
use tabs_army::layout::{
    army_entries, army_order, army_table_rows, picture_path, rows_of, unit_cells, unit_class, unit_element_id,
    unit_states, unit_table_rows,
};
use tabs_army::roster::TabUnits;
use tabs_army::unit::TabUnit;

#[test]
fn rows_of_seven() {
    let rows = rows_of((0..16).collect::<Vec<u32>>());
    assert_eq!(rows, vec![(0..7).collect::<Vec<u32>>(), (7..14).collect(), vec![14, 15]]);
    let exact = rows_of((0..7).collect::<Vec<u32>>());
    assert_eq!(exact.len(), 1);
    let none: Vec<Vec<u32>> = rows_of(Vec::new());
    assert!(none.is_empty());
}

#[test]
fn element_names() {
    assert_eq!(unit_element_id(42), "unit42");
    assert_eq!(picture_path("7.png"), "pics/7.png");
    assert_eq!(unit_class(true), "unit_div unit_enabled");
    assert_eq!(unit_class(false), "unit_div unit_disabled");
}

#[test]
fn unit_table_of_catalogue() {
    let units = create_initial_units();
    let rows = unit_table_rows(&units);
    assert_eq!(rows.len(), 15);
    assert!(rows[..14].iter().all(|r| r.len() == 7));
    assert_eq!(rows[14].len(), 3);
    let first = &rows[0][0];
    assert_eq!(first.element_id, "unit0");
    assert_eq!(first.image_src, "pics/1.png");
    assert_eq!(first.class, "unit_div unit_enabled");
    assert_eq!(first.cost_text, "70");
    let last = &rows[14][2];
    assert_eq!(last.element_id, "unit100");
    assert_eq!(last.cost_text, "350");
}

#[test]
fn unit_table_draws_every_unit_enabled() {
    let mut units = create_initial_units();
    units.disable_all();
    let cells = unit_cells(&units);
    assert_eq!(cells.len(), 101);
    assert!(cells.iter().all(|c| c.class == "unit_div unit_enabled"));
}

#[test]
fn unit_states_follow_flags() {
    let mut units = create_initial_units();
    units.disable_all();
    units.select_clan(String::from("Viking"));
    let states = unit_states(&units);
    assert_eq!(states.len(), 101);
    assert_eq!(states[0].element_id, "unit0");
    assert_eq!(states[0].class, "unit_div unit_disabled");
    assert_eq!(states[28].element_id, "unit28");
    assert_eq!(states[28].class, "unit_div unit_enabled");
}

fn roster() -> TabUnits {
    let mut r = TabUnits::new();
    r.add(TabUnit::new(0, "v1.png", "V1", "Viking", 300, true));
    r.add(TabUnit::new(1, "a1.png", "A1", "Ancient", 500, true));
    r.add(TabUnit::new(2, "v2.png", "V2", "Viking", 100, true));
    r.add(TabUnit::new(3, "a2.png", "A2", "Ancient", 500, true));
    r.add(TabUnit::new(4, "a3.png", "A3", "Ancient", 200, true));
    r
}

#[test]
fn army_order_by_faction_then_cost_stable() {
    let r = roster();
    let entries = vec![(0u32, 1u32), (3, 2), (2, 5), (1, 4), (4, 1)];
    let ordered = army_order(&r, &entries);
    assert_eq!(ordered, vec![(4, 1), (3, 2), (1, 4), (2, 5), (0, 1)]);
}

#[test]
fn army_table_cells() {
    let r = roster();
    let rows = army_table_rows(&r, &vec![(0u32, 3u32), (4, 12)]);
    assert_eq!(rows.len(), 1);
    assert_eq!(rows[0].len(), 2);
    assert_eq!(rows[0][0].image_src, "pics/a3.png");
    assert_eq!(rows[0][0].count_text, "12");
    assert_eq!(rows[0][1].image_src, "pics/v1.png");
    assert_eq!(rows[0][1].count_text, "3");
}

#[test]
fn empty_army_has_one_empty_row() {
    let r = roster();
    let rows = army_table_rows(&r, &Vec::new());
    assert_eq!(rows.len(), 1);
    assert!(rows[0].is_empty());
}

#[test]
fn army_table_wraps_after_seven() {
    let units = create_initial_units();
    let entries: Vec<(u32, u32)> = (0..8u32).map(|i| (i, 1)).collect();
    let rows = army_table_rows(&units, &entries);
    assert_eq!(rows.len(), 2);
    assert_eq!(rows[0].len(), 7);
    assert_eq!(rows[1].len(), 1);
}

#[test]
fn army_entries_lists_map() {
    let mut m = HashMap::new();
    m.insert(3u32, 2u32);
    m.insert(7u32, 1u32);
    m.insert(1u32, 9u32);
    let mut e = army_entries(&m);
    e.sort();
    assert_eq!(e, vec![(1, 9), (3, 2), (7, 1)]);
    assert!(army_entries(&HashMap::new()).is_empty());
}
