use tabs_army::text::{decimal_text, push_bool, push_decimal, text_le};
use tabs_army::unit::TabUnit;

#[test]
fn decimal_text_writes_digits() {
    assert_eq!(decimal_text(0), "0");
    assert_eq!(decimal_text(7), "7");
    assert_eq!(decimal_text(10), "10");
    assert_eq!(decimal_text(5000), "5000");
    assert_eq!(decimal_text(u32::MAX), "4294967295");
}

#[test]
fn push_decimal_appends() {
    let mut s = String::from("cost ");
    push_decimal(&mut s, 250);
    assert_eq!(s, "cost 250");
}

#[test]
fn push_bool_words() {
    let mut s = String::new();
    push_bool(&mut s, true);
    push_bool(&mut s, false);
    assert_eq!(s, "truefalse");
}

#[test]
fn text_order_is_dictionary_order() {
    assert!(text_le("Ancient", "Dynasty"));
    assert!(!text_le("Dynasty", "Ancient"));
    assert!(text_le("Pirate", "Pirate"));
    assert!(text_le("Pi", "Pirate"));
    assert!(!text_le("Pirate", "Pi"));
    assert!(text_le("", ""));
    assert!(text_le("Secret", "Spooky"));
    assert!(text_le("Zebra", "apple"));
    for (a, b) in [("Tribal", "Viking"), ("Farmer", "Medieval"), ("Western", "Renaissance")] {
        assert_eq!(text_le(a, b), a <= b);
        assert_eq!(text_le(b, a), b <= a);
    }
}

#[test]
fn unit_description_matches_display_format() {
    let u = TabUnit::new(3, "4.png", "Stoner", "Tribal", 160, true);
    assert_eq!(
        u.describe(),
        "{ id: 3, file_name: 4.png, unit_name: Stoner, faction: Tribal, cost: 160, enabled: true } :: TabUnit"
    );
    let v = TabUnit::new(0, "1.png", "Clubber", "Tribal", 70, false);
    assert_eq!(
        v.describe(),
        "{ id: 0, file_name: 1.png, unit_name: Clubber, faction: Tribal, cost: 70, enabled: false } :: TabUnit"
    );
}

#[test]
fn unit_clone_keeps_fields() {
    let u = TabUnit::new(5, "6.png", "Chieftain", "Tribal", 400, true);
    let c = u.clone();
    assert_eq!(c.id, 5);
    assert_eq!(c.file_name, "6.png");
    assert_eq!(c.unit_name, "Chieftain");
    assert_eq!(c.faction, "Tribal");
    assert_eq!(c.cost, 400);
    assert!(c.enabled);
}
