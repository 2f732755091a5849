use std::collections::HashMap;

use tabs_army::army::{army_candidates, weight, ArmyDraft, Candidate, DraftStart, Round, MIN_FUNDS, WEIGHT_KINDS};

fn ready(d: DraftStart) -> ArmyDraft {
    match d {
        DraftStart::Ready(d) => d,
        DraftStart::NoCandidates => panic!("no candidates"),
        DraftStart::WeightsRejected => panic!("weights rejected"),
    }
}
use tabs_army::catalogue::create_initial_units;
use tabs_army::roster::TabUnits;
use tabs_army::unit::TabUnit;

fn roster() -> TabUnits {
    let mut r = TabUnits::new();
    r.add(TabUnit::new(0, "a.png", "A", "Tribal", 300, true));
    r.add(TabUnit::new(1, "b.png", "B", "Tribal", 100, true));
    r.add(TabUnit::new(2, "c.png", "C", "Farmer", 100, false));
    r.add(TabUnit::new(3, "d.png", "D", "Farmer", 60, true));
    r.add(TabUnit::new(4, "e.png", "E", "Farmer", 100, true));
    r.add(TabUnit::new(5, "f.png", "F", "Farmer", 900, true));
    r
}

#[test]
fn weights_follow_price_bands() {
    assert_eq!(WEIGHT_KINDS, 8);
    assert_eq!(weight(0, 120), 98);
    assert_eq!(weight(0, 121), 50);
    assert_eq!(weight(0, 501), 2);
    assert_eq!(weight(1, 80), 98);
    assert_eq!(weight(1, 81), 75);
    assert_eq!(weight(1, 121), 5);
    assert_eq!(weight(2, 150), 95);
    assert_eq!(weight(2, 250), 50);
    assert_eq!(weight(2, 251), 5);
    assert_eq!(weight(3, 150), 25);
    assert_eq!(weight(3, 250), 35);
    assert_eq!(weight(3, 509), 95);
    assert_eq!(weight(3, 510), 5);
    assert_eq!(weight(4, 989), 5);
    assert_eq!(weight(4, 1994), 95);
    assert_eq!(weight(4, 1995), 10);
    assert_eq!(weight(5, 250), 95);
    assert_eq!(weight(5, 2994), 5);
    assert_eq!(weight(5, 2995), 95);
    assert_eq!(weight(6, 300), 3);
    assert_eq!(weight(6, 750), 95);
    assert_eq!(weight(6, 1500), 3);
    assert_eq!(weight(6, 1501), 10);
    assert_eq!(weight(7, 2998), 5);
    assert_eq!(weight(7, 2999), 95);
}

#[test]
fn candidates_are_enabled_affordable_and_sorted_stably() {
    let r = roster();
    let c = army_candidates(&r, 500);
    assert_eq!(
        c,
        vec![
            Candidate { id: 3, cost: 60 },
            Candidate { id: 1, cost: 100 },
            Candidate { id: 4, cost: 100 },
            Candidate { id: 0, cost: 300 },
        ]
    );
    assert_eq!(army_candidates(&r, 59), vec![]);
    assert_eq!(army_candidates(&r, 60), vec![Candidate { id: 3, cost: 60 }]);
}

#[test]
fn prepare_is_none_when_nothing_affordable() {
    let r = roster();
    assert!(matches!(ArmyDraft::prepare(&r, 10, 0), DraftStart::NoCandidates));
    let mut off = roster();
    off.disable_all();
    assert!(matches!(ArmyDraft::prepare(&off, 100000, 3), DraftStart::NoCandidates));
}

#[test]
fn draw_buys_affordable_candidate() {
    let r = roster();
    let mut d = ready(ArmyDraft::prepare(&r, 500, 2));
    assert_eq!(d.kind(), 2);
    assert_eq!(d.budget(), 500);
    assert_eq!(d.candidate_count(), 4);
    assert_eq!(d.candidate(0), Candidate { id: 3, cost: 60 });
    assert!(!d.draw(3)); // unit 0 for 300
    assert_eq!(d.money_left(), 200);
    assert!(!d.draw(1)); // unit 1 for 100
    assert!(!d.draw(1));
    assert_eq!(d.money_left(), 0);
    assert!(d.draw(0)); // less than 50 left: over
    let army = d.into_army();
    let mut expected = HashMap::new();
    expected.insert(0u32, 1u32);
    expected.insert(1u32, 2u32);
    assert_eq!(army, expected);
}

#[test]
fn unaffordable_draw_passes_unless_cheapest() {
    let r = roster();
    let mut d = ready(ArmyDraft::prepare(&r, 500, 0));
    assert!(!d.draw(3)); // 300 spent, 200 left
    assert!(!d.draw(3)); // 300 > 200: passed over
    assert_eq!(d.money_left(), 200);
    assert!(!d.draw(2)); // 100 bought
    assert!(!d.draw(2)); // 100 bought
    assert_eq!(d.money_left(), 0);
    let mut e = ready(ArmyDraft::prepare(&r, 100, 0));
    assert!(!e.draw(0)); // 60 bought, 40 left
    assert!(e.draw(1)); // less than 50 left
    let mut f = ready(ArmyDraft::prepare(&r, 160, 0));
    assert!(!f.draw(2)); // 100 bought, 60 left
    assert!(!f.draw(1)); // 100 > 60, not the cheapest: goes on
    assert!(!f.draw(0)); // 60 bought, 0 left
    assert_eq!(f.money_left(), 0);
    let mut g = ready(ArmyDraft::prepare(&r, 150, 0));
    assert!(!g.draw(1)); // 100 bought, 50 left
    assert!(g.draw(0)); // cheapest costs 60 > 50: over
    assert_eq!(g.money_left(), 50);
    assert!(g.can_count_round(0));
    assert!(g.can_count_round(1));
}

#[test]
fn min_funds_is_fifty() {
    assert_eq!(MIN_FUNDS, 50);
}

#[test]
fn random_draft_stays_within_budget() {
    let units = create_initial_units();
    let mut rng = rand::thread_rng();
    for money in [50u32, 70, 1000, 5000, 20000] {
        let mut d = ready(ArmyDraft::start(&units, money, &mut rng));
        assert!(d.kind() < 8);
        let mut rounds = 0;
        loop {
            match d.draw_random(&mut rng) {
                Round::Over => break,
                Round::GoOn => {}
                Round::CountFull => panic!("count full"),
            }
            rounds += 1;
            assert!(rounds < 1_000_000);
        }
        let left = d.money_left();
        let army = d.into_army();
        let mut spent = 0u64;
        for (id, count) in army.iter() {
            let u = &units.units[*id as usize];
            assert!(u.cost <= money);
            spent += u.cost as u64 * *count as u64;
        }
        assert_eq!(spent + left as u64, money as u64);
        // the cheapest catalogue unit costs 50, so the draft ends only below 50
        assert!(left < 50);
    }
}

#[test]
fn random_draft_none_when_too_poor() {
    let units = create_initial_units();
    let mut rng = rand::thread_rng();
    assert!(matches!(ArmyDraft::start(&units, 49, &mut rng), DraftStart::NoCandidates));
}

#[test]
fn random_draws_cover_only_candidates() {
    let r = roster();
    let mut rng = rand::thread_rng();
    let mut seen = HashMap::new();
    for _ in 0..200 {
        let mut d = ready(ArmyDraft::prepare(&r, 100000, 0));
        assert!(matches!(d.draw_random(&mut rng), Round::GoOn));
        let army = d.into_army();
        assert_eq!(army.len(), 1);
        for (id, count) in army {
            assert_eq!(count, 1);
            assert!(id != 2);
            *seen.entry(id).or_insert(0) += 1;
        }
    }
    // weighting 0 favours cheap units (98 against 2 for the 900 one)
    assert!(seen.get(&3).copied().unwrap_or(0) > 0);
}
