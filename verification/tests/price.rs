use tabs_army::price::{Price, PRICE_CAP, PRICE_FLOOR, START_PRICE};

#[test]
fn price_starts_at_five_thousand() {
    let p = Price::new();
    assert_eq!(p.value(), 5000);
    assert_eq!(START_PRICE, 5000);
}

#[test]
fn inc_and_dec_move_by_fifty() {
    let mut p = Price::new();
    assert_eq!(p.inc_price(), 5050);
    assert_eq!(p.inc_price(), 5100);
    assert_eq!(p.dec_price(), 5050);
    assert_eq!(p.value(), 5050);
}

#[test]
fn inc_stops_at_cap() {
    let mut p = Price::new();
    for _ in 0..1000 {
        p.inc_price();
    }
    assert_eq!(p.value(), PRICE_CAP);
    assert_eq!(p.inc_price(), 20000);
}

#[test]
fn dec_stops_at_floor() {
    let mut p = Price::new();
    for _ in 0..1000 {
        p.dec_price();
    }
    assert_eq!(p.value(), PRICE_FLOOR);
    assert_eq!(p.dec_price(), 50);
    assert_eq!(p.inc_price(), 100);
}

#[test]
fn dec_undoes_inc_below_cap() {
    let mut p = Price::new();
    let before = p.value();
    p.inc_price();
    assert_eq!(p.dec_price(), before);
    p.dec_price();
    assert_eq!(p.inc_price(), before);
}
