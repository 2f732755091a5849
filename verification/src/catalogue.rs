use vstd::prelude::*;

use crate::army::MIN_FUNDS;
use crate::roster::{ids_match_positions, TabUnits};
use crate::unit::{TabUnit, UnitView};

verus! {

/// The number of units in the catalogue.
pub const CATALOGUE_SIZE: usize = 101;

/// The units of a roster as plain values.
pub open spec fn view_of(s: Seq<TabUnit>) -> Seq<UnitView> {
    s.map_values(|x: TabUnit| x@)
}

/// The first ten units of the catalogue (numbers 0 to 9).
pub open spec fn catalogue_part_0() -> Seq<UnitView> {
    seq![
        UnitView { id: 0, file_name: "1.png"@, unit_name: "Clubber"@, faction: "Tribal"@, cost: 70, enabled: true },
        UnitView { id: 1, file_name: "2.png"@, unit_name: "Protector"@, faction: "Tribal"@, cost: 90, enabled: true },
        UnitView { id: 2, file_name: "3.png"@, unit_name: "Spear Thrower"@, faction: "Tribal"@, cost: 120, enabled: true },
        UnitView { id: 3, file_name: "4.png"@, unit_name: "Stoner"@, faction: "Tribal"@, cost: 160, enabled: true },
        UnitView { id: 4, file_name: "5.png"@, unit_name: "Bone Mage"@, faction: "Tribal"@, cost: 300, enabled: true },
        UnitView { id: 5, file_name: "6.png"@, unit_name: "Chieftain"@, faction: "Tribal"@, cost: 400, enabled: true },
        UnitView { id: 6, file_name: "7.png"@, unit_name: "Mammoth"@, faction: "Tribal"@, cost: 2200, enabled: true },
        UnitView { id: 7, file_name: "8.png"@, unit_name: "Halfling"@, faction: "Farmer"@, cost: 50, enabled: true },
        UnitView { id: 8, file_name: "9.png"@, unit_name: "Farmer"@, faction: "Farmer"@, cost: 70, enabled: true },
        UnitView { id: 9, file_name: "10.png"@, unit_name: "Hay baler"@, faction: "Farmer"@, cost: 140, enabled: true },
    ]
}

/// The second ten units of the catalogue (numbers 10 to 19).
pub open spec fn catalogue_part_1() -> Seq<UnitView> {
    seq![
        UnitView { id: 10, file_name: "11.png"@, unit_name: "Potion seller"@, faction: "Farmer"@, cost: 340, enabled: true },
        UnitView { id: 11, file_name: "12.png"@, unit_name: "Harvester"@, faction: "Farmer"@, cost: 500, enabled: true },
        UnitView { id: 12, file_name: "13.png"@, unit_name: "Wheelbarrow"@, faction: "Farmer"@, cost: 1000, enabled: true },
        UnitView { id: 13, file_name: "14.png"@, unit_name: "Scarecrow"@, faction: "Farmer"@, cost: 1200, enabled: true },
        UnitView { id: 14, file_name: "15.png"@, unit_name: "Bard"@, faction: "Medieval"@, cost: 60, enabled: true },
        UnitView { id: 15, file_name: "16.png"@, unit_name: "Squire"@, faction: "Medieval"@, cost: 100, enabled: true },
        UnitView { id: 16, file_name: "17.png"@, unit_name: "Archer"@, faction: "Medieval"@, cost: 140, enabled: true },
        UnitView { id: 17, file_name: "18.png"@, unit_name: "Healer"@, faction: "Medieval"@, cost: 180, enabled: true },
        UnitView { id: 18, file_name: "19.png"@, unit_name: "Knight"@, faction: "Medieval"@, cost: 650, enabled: true },
        UnitView { id: 19, file_name: "20.png"@, unit_name: "Catapult"@, faction: "Medieval"@, cost: 1000, enabled: true },
    ]
}

/// The third ten units of the catalogue (numbers 20 to 29).
pub open spec fn catalogue_part_2() -> Seq<UnitView> {
    seq![
        UnitView { id: 20, file_name: "21.png"@, unit_name: "The King"@, faction: "Medieval"@, cost: 1500, enabled: true },
        UnitView { id: 21, file_name: "22.png"@, unit_name: "Shield bearer"@, faction: "Ancient"@, cost: 100, enabled: true },
        UnitView { id: 22, file_name: "23.png"@, unit_name: "Sarissa"@, faction: "Ancient"@, cost: 120, enabled: true },
        UnitView { id: 23, file_name: "24.png"@, unit_name: "Hoplite"@, faction: "Ancient"@, cost: 180, enabled: true },
        UnitView { id: 24, file_name: "25.png"@, unit_name: "Snake Archer"@, faction: "Ancient"@, cost: 300, enabled: true },
        UnitView { id: 25, file_name: "26.png"@, unit_name: "Ballista"@, faction: "Ancient"@, cost: 900, enabled: true },
        UnitView { id: 26, file_name: "27.png"@, unit_name: "Minotaur"@, faction: "Ancient"@, cost: 1600, enabled: true },
        UnitView { id: 27, file_name: "28.png"@, unit_name: "Zeus"@, faction: "Ancient"@, cost: 2000, enabled: true },
        UnitView { id: 28, file_name: "29.png"@, unit_name: "Headbutter"@, faction: "Viking"@, cost: 90, enabled: true },
        UnitView { id: 29, file_name: "30.png"@, unit_name: "Ice Archer"@, faction: "Viking"@, cost: 160, enabled: true },
    ]
}

/// The fourth ten units of the catalogue (numbers 30 to 39).
pub open spec fn catalogue_part_3() -> Seq<UnitView> {
    seq![
        UnitView { id: 30, file_name: "31.png"@, unit_name: "Brawler"@, faction: "Viking"@, cost: 220, enabled: true },
        UnitView { id: 31, file_name: "32.png"@, unit_name: "Berserker"@, faction: "Viking"@, cost: 250, enabled: true },
        UnitView { id: 32, file_name: "33.png"@, unit_name: "Valkyrie"@, faction: "Viking"@, cost: 500, enabled: true },
        UnitView { id: 33, file_name: "34.png"@, unit_name: "Jarl"@, faction: "Viking"@, cost: 850, enabled: true },
        UnitView { id: 34, file_name: "35.png"@, unit_name: "Longship"@, faction: "Viking"@, cost: 1000, enabled: true },
        UnitView { id: 35, file_name: "36.png"@, unit_name: "Samurai"@, faction: "Dynasty"@, cost: 140, enabled: true },
        UnitView { id: 36, file_name: "37.png"@, unit_name: "Firework Archer"@, faction: "Dynasty"@, cost: 180, enabled: true },
        UnitView { id: 37, file_name: "38.png"@, unit_name: "Monk"@, faction: "Dynasty"@, cost: 250, enabled: true },
        UnitView { id: 38, file_name: "39.png"@, unit_name: "Ninja"@, faction: "Dynasty"@, cost: 500, enabled: true },
        UnitView { id: 39, file_name: "40.png"@, unit_name: "Dragon"@, faction: "Dynasty"@, cost: 1000, enabled: true },
    ]
}

/// The fifth ten units of the catalogue (numbers 40 to 49).
pub open spec fn catalogue_part_4() -> Seq<UnitView> {
    seq![
        UnitView { id: 40, file_name: "41.png"@, unit_name: "Hwacha"@, faction: "Dynasty"@, cost: 1500, enabled: true },
        UnitView { id: 41, file_name: "42.png"@, unit_name: "Monkey King"@, faction: "Dynasty"@, cost: 2000, enabled: true },
        UnitView { id: 42, file_name: "61.png"@, unit_name: "Painter"@, faction: "Renaissance"@, cost: 50, enabled: true },
        UnitView { id: 43, file_name: "62.png"@, unit_name: "Fencer"@, faction: "Renaissance"@, cost: 150, enabled: true },
        UnitView { id: 44, file_name: "63.png"@, unit_name: "Balloon Archer"@, faction: "Renaissance"@, cost: 200, enabled: true },
        UnitView { id: 45, file_name: "64.png"@, unit_name: "Musketeer"@, faction: "Renaissance"@, cost: 250, enabled: true },
        UnitView { id: 46, file_name: "65.png"@, unit_name: "Halberd"@, faction: "Renaissance"@, cost: 400, enabled: true },
        UnitView { id: 47, file_name: "66.png"@, unit_name: "Jouster"@, faction: "Renaissance"@, cost: 1000, enabled: true },
        UnitView { id: 48, file_name: "67.png"@, unit_name: "Da Vinci Tank"@, faction: "Renaissance"@, cost: 4000, enabled: true },
        UnitView { id: 49, file_name: "70.png"@, unit_name: "Flintlock"@, faction: "Pirate"@, cost: 100, enabled: true },
    ]
}

/// The sixth ten units of the catalogue (numbers 50 to 59).
pub open spec fn catalogue_part_5() -> Seq<UnitView> {
    seq![
        UnitView { id: 50, file_name: "71.png"@, unit_name: "Blunderbuss"@, faction: "Pirate"@, cost: 200, enabled: true },
        UnitView { id: 51, file_name: "72.png"@, unit_name: "Bomb Thrower"@, faction: "Pirate"@, cost: 250, enabled: true },
        UnitView { id: 52, file_name: "73.png"@, unit_name: "Harpooner"@, faction: "Pirate"@, cost: 400, enabled: true },
        UnitView { id: 53, file_name: "74.png"@, unit_name: "Cannon"@, faction: "Pirate"@, cost: 1000, enabled: true },
        UnitView { id: 54, file_name: "75.png"@, unit_name: "Captain"@, faction: "Pirate"@, cost: 1500, enabled: true },
        UnitView { id: 55, file_name: "76.png"@, unit_name: "Pirate Queen"@, faction: "Pirate"@, cost: 2500, enabled: true },
        UnitView { id: 56, file_name: "84.png"@, unit_name: "Skeleton Warrior"@, faction: "Spooky"@, cost: 80, enabled: true },
        UnitView { id: 57, file_name: "85.png"@, unit_name: "Skeleton Archer"@, faction: "Spooky"@, cost: 180, enabled: true },
        UnitView { id: 58, file_name: "86.png"@, unit_name: "Candlehead"@, faction: "Spooky"@, cost: 200, enabled: true },
        UnitView { id: 59, file_name: "87.png"@, unit_name: "Vampire"@, faction: "Spooky"@, cost: 200, enabled: true },
    ]
}

/// The seventh ten units of the catalogue (numbers 60 to 69).
pub open spec fn catalogue_part_6() -> Seq<UnitView> {
    seq![
        UnitView { id: 60, file_name: "88.png"@, unit_name: "Pumpkin Catapult"@, faction: "Spooky"@, cost: 1000, enabled: true },
        UnitView { id: 61, file_name: "89.png"@, unit_name: "Swordcaster"@, faction: "Spooky"@, cost: 1000, enabled: true },
        UnitView { id: 62, file_name: "90.png"@, unit_name: "Reaper"@, faction: "Spooky"@, cost: 2500, enabled: true },
        UnitView { id: 63, file_name: "101.png"@, unit_name: "Dynamite Thrower"@, faction: "Western"@, cost: 120, enabled: true },
        UnitView { id: 64, file_name: "92.png"@, unit_name: "Miner"@, faction: "Western"@, cost: 200, enabled: true },
        UnitView { id: 65, file_name: "93.png"@, unit_name: "Cactus"@, faction: "Western"@, cost: 400, enabled: true },
        UnitView { id: 66, file_name: "94.png"@, unit_name: "Gunslinger"@, faction: "Western"@, cost: 650, enabled: true },
        UnitView { id: 67, file_name: "95.png"@, unit_name: "Lasso"@, faction: "Western"@, cost: 850, enabled: true },
        UnitView { id: 68, file_name: "96.png"@, unit_name: "Deadeye"@, faction: "Western"@, cost: 900, enabled: true },
        UnitView { id: 69, file_name: "97.png"@, unit_name: "Quick Draw"@, faction: "Western"@, cost: 1200, enabled: true },
    ]
}

/// The eighth ten units of the catalogue (numbers 70 to 79).
pub open spec fn catalogue_part_7() -> Seq<UnitView> {
    seq![
        UnitView { id: 70, file_name: "68.png"@, unit_name: "Ballooner"@, faction: "Secret"@, cost: 90, enabled: true },
        UnitView { id: 71, file_name: "77.png"@, unit_name: "Bomb on a Stick"@, faction: "Secret"@, cost: 140, enabled: true },
        UnitView { id: 72, file_name: "43.png"@, unit_name: "Fan Bearer"@, faction: "Secret"@, cost: 200, enabled: true },
        UnitView { id: 73, file_name: "78.png"@, unit_name: "Raptor"@, faction: "Secret"@, cost: 200, enabled: true },
        UnitView { id: 74, file_name: "45.png"@, unit_name: "The Teacher"@, faction: "Secret"@, cost: 200, enabled: true },
        UnitView { id: 75, file_name: "79.png"@, unit_name: "Shouter"@, faction: "Secret"@, cost: 250, enabled: true },
        UnitView { id: 76, file_name: "44.png"@, unit_name: "Jester"@, faction: "Secret"@, cost: 300, enabled: true },
        UnitView { id: 77, file_name: "46.png"@, unit_name: "Chu Ko Nu"@, faction: "Secret"@, cost: 350, enabled: true },
        UnitView { id: 78, file_name: "47.png"@, unit_name: "Executioner"@, faction: "Secret"@, cost: 350, enabled: true },
        UnitView { id: 79, file_name: "48.png"@, unit_name: "Taekwondo"@, faction: "Secret"@, cost: 400, enabled: true },
    ]
}

/// The ninth ten units of the catalogue (numbers 80 to 89).
pub open spec fn catalogue_part_8() -> Seq<UnitView> {
    seq![
        UnitView { id: 80, file_name: "80.png"@, unit_name: "Raptor Rider"@, faction: "Secret"@, cost: 480, enabled: true },
        UnitView { id: 81, file_name: "50.png"@, unit_name: "Cheerleader"@, faction: "Secret"@, cost: 500, enabled: true },
        UnitView { id: 82, file_name: "91.png"@, unit_name: "Cupid"@, faction: "Secret"@, cost: 500, enabled: true },
        UnitView { id: 83, file_name: "49.png"@, unit_name: "Mace Spinner"@, faction: "Secret"@, cost: 500, enabled: true },
        UnitView { id: 84, file_name: "81.png"@, unit_name: "CLAMS"@, faction: "Secret"@, cost: 500, enabled: true },
        UnitView { id: 85, file_name: "51.png"@, unit_name: "Vlad"@, faction: "Secret"@, cost: 1000, enabled: true },
        UnitView { id: 86, file_name: "53.png"@, unit_name: "Wheelbarrow Dragon"@, faction: "Secret"@, cost: 1400, enabled: true },
        UnitView { id: 87, file_name: "82.png"@, unit_name: "Bomb Cannon"@, faction: "Secret"@, cost: 1500, enabled: true },
        UnitView { id: 88, file_name: "54.png"@, unit_name: "Cavalry"@, faction: "Secret"@, cost: 1800, enabled: true },
        UnitView { id: 89, file_name: "69.png"@, unit_name: "Lady Red Jade"@, faction: "Secret"@, cost: 2000, enabled: true },
    ]
}

/// The tenth ten units of the catalogue (numbers 90 to 99).
pub open spec fn catalogue_part_9() -> Seq<UnitView> {
    seq![
        UnitView { id: 90, file_name: "83.png"@, unit_name: "Blackbeard"@, faction: "Secret"@, cost: 2500, enabled: true },
        UnitView { id: 91, file_name: "55.png"@, unit_name: "Shogun"@, faction: "Secret"@, cost: 2800, enabled: true },
        UnitView { id: 92, file_name: "56.png"@, unit_name: "Samurai Giant"@, faction: "Secret"@, cost: 3000, enabled: true },
        UnitView { id: 93, file_name: "57.png"@, unit_name: "Sensei"@, faction: "Secret"@, cost: 3000, enabled: true },
        UnitView { id: 94, file_name: "52.png"@, unit_name: "Ullr"@, faction: "Secret"@, cost: 3000, enabled: true },
        UnitView { id: 95, file_name: "58.png"@, unit_name: "Tree Giant"@, faction: "Secret"@, cost: 4000, enabled: true },
        UnitView { id: 96, file_name: "59.png"@, unit_name: "Ice Giant"@, faction: "Secret"@, cost: 6000, enabled: true },
        UnitView { id: 97, file_name: "60.png"@, unit_name: "Artemis"@, faction: "Secret"@, cost: 6500, enabled: true },
        UnitView { id: 98, file_name: "98.png"@, unit_name: "Bank Robbers"@, faction: "Secret"@, cost: 850, enabled: true },
        UnitView { id: 99, file_name: "99.png"@, unit_name: "Gatling Gun"@, faction: "Secret"@, cost: 2000, enabled: true },
    ]
}

/// The eleventh ten units of the catalogue (numbers 100 to 100).
pub open spec fn catalogue_part_10() -> Seq<UnitView> {
    seq![
        UnitView { id: 100, file_name: "100.png"@, unit_name: "Ball n' Chain"@, faction: "Secret"@, cost: 350, enabled: true },
    ]
}

/// The units of the game, in catalogue order: number, picture, name,
/// faction and cost; every one enabled.
pub open spec fn catalogue() -> Seq<UnitView> {
    catalogue_part_0() + catalogue_part_1() + catalogue_part_2() + catalogue_part_3() + catalogue_part_4() + catalogue_part_5() + catalogue_part_6() + catalogue_part_7() + catalogue_part_8() + catalogue_part_9() + catalogue_part_10()
}

/// The factions, in the order their buttons are shown.
pub open spec fn clan_list() -> Seq<Seq<char>> {
    seq!["Tribal"@, "Farmer"@, "Medieval"@, "Ancient"@, "Viking"@, "Dynasty"@, "Renaissance"@, "Pirate"@, "Spooky"@, "Western"@, "Secret"@]
}

/// Viewing a roster with one more unit is viewing the roster and then that unit.
pub proof fn lemma_view_push(s: Seq<TabUnit>, u: TabUnit)
    ensures
        view_of(s.push(u)) == view_of(s).push(u@),
{
    assert(view_of(s.push(u)) =~= view_of(s).push(u@));
}

fn add_part_0(units: &mut TabUnits)
    ensures
        view_of(final(units).units@) == view_of(old(units).units@) + catalogue_part_0(),
{
    let u = TabUnit::new(0, "1.png", "Clubber", "Tribal", 70, true);
    proof { lemma_view_push(units.units@, u); }
    units.add(u);
    let u = TabUnit::new(1, "2.png", "Protector", "Tribal", 90, true);
    proof { lemma_view_push(units.units@, u); }
    units.add(u);
    let u = TabUnit::new(2, "3.png", "Spear Thrower", "Tribal", 120, true);
    proof { lemma_view_push(units.units@, u); }
    units.add(u);
    let u = TabUnit::new(3, "4.png", "Stoner", "Tribal", 160, true);
    proof { lemma_view_push(units.units@, u); }
    units.add(u);
    let u = TabUnit::new(4, "5.png", "Bone Mage", "Tribal", 300, true);
    proof { lemma_view_push(units.units@, u); }
    units.add(u);
    let u = TabUnit::new(5, "6.png", "Chieftain", "Tribal", 400, true);
    proof { lemma_view_push(units.units@, u); }
    units.add(u);
    let u = TabUnit::new(6, "7.png", "Mammoth", "Tribal", 2200, true);
    proof { lemma_view_push(units.units@, u); }
    units.add(u);
    let u = TabUnit::new(7, "8.png", "Halfling", "Farmer", 50, true);
    proof { lemma_view_push(units.units@, u); }
    units.add(u);
    let u = TabUnit::new(8, "9.png", "Farmer", "Farmer", 70, true);
    proof { lemma_view_push(units.units@, u); }
    units.add(u);
    let u = TabUnit::new(9, "10.png", "Hay baler", "Farmer", 140, true);
    proof { lemma_view_push(units.units@, u); }
    units.add(u);
    assert(view_of(units.units@) =~= view_of(old(units).units@) + catalogue_part_0());
}

fn add_part_1(units: &mut TabUnits)
    ensures
        view_of(final(units).units@) == view_of(old(units).units@) + catalogue_part_1(),
{
    let u = TabUnit::new(10, "11.png", "Potion seller", "Farmer", 340, true);
    proof { lemma_view_push(units.units@, u); }
    units.add(u);
    let u = TabUnit::new(11, "12.png", "Harvester", "Farmer", 500, true);
    proof { lemma_view_push(units.units@, u); }
    units.add(u);
    let u = TabUnit::new(12, "13.png", "Wheelbarrow", "Farmer", 1000, true);
    proof { lemma_view_push(units.units@, u); }
    units.add(u);
    let u = TabUnit::new(13, "14.png", "Scarecrow", "Farmer", 1200, true);
    proof { lemma_view_push(units.units@, u); }
    units.add(u);
    let u = TabUnit::new(14, "15.png", "Bard", "Medieval", 60, true);
    proof { lemma_view_push(units.units@, u); }
    units.add(u);
    let u = TabUnit::new(15, "16.png", "Squire", "Medieval", 100, true);
    proof { lemma_view_push(units.units@, u); }
    units.add(u);
    let u = TabUnit::new(16, "17.png", "Archer", "Medieval", 140, true);
    proof { lemma_view_push(units.units@, u); }
    units.add(u);
    let u = TabUnit::new(17, "18.png", "Healer", "Medieval", 180, true);
    proof { lemma_view_push(units.units@, u); }
    units.add(u);
    let u = TabUnit::new(18, "19.png", "Knight", "Medieval", 650, true);
    proof { lemma_view_push(units.units@, u); }
    units.add(u);
    let u = TabUnit::new(19, "20.png", "Catapult", "Medieval", 1000, true);
    proof { lemma_view_push(units.units@, u); }
    units.add(u);
    assert(view_of(units.units@) =~= view_of(old(units).units@) + catalogue_part_1());
}

fn add_part_2(units: &mut TabUnits)
    ensures
        view_of(final(units).units@) == view_of(old(units).units@) + catalogue_part_2(),
{
    let u = TabUnit::new(20, "21.png", "The King", "Medieval", 1500, true);
    proof { lemma_view_push(units.units@, u); }
    units.add(u);
    let u = TabUnit::new(21, "22.png", "Shield bearer", "Ancient", 100, true);
    proof { lemma_view_push(units.units@, u); }
    units.add(u);
    let u = TabUnit::new(22, "23.png", "Sarissa", "Ancient", 120, true);
    proof { lemma_view_push(units.units@, u); }
    units.add(u);
    let u = TabUnit::new(23, "24.png", "Hoplite", "Ancient", 180, true);
    proof { lemma_view_push(units.units@, u); }
    units.add(u);
    let u = TabUnit::new(24, "25.png", "Snake Archer", "Ancient", 300, true);
    proof { lemma_view_push(units.units@, u); }
    units.add(u);
    let u = TabUnit::new(25, "26.png", "Ballista", "Ancient", 900, true);
    proof { lemma_view_push(units.units@, u); }
    units.add(u);
    let u = TabUnit::new(26, "27.png", "Minotaur", "Ancient", 1600, true);
    proof { lemma_view_push(units.units@, u); }
    units.add(u);
    let u = TabUnit::new(27, "28.png", "Zeus", "Ancient", 2000, true);
    proof { lemma_view_push(units.units@, u); }
    units.add(u);
    let u = TabUnit::new(28, "29.png", "Headbutter", "Viking", 90, true);
    proof { lemma_view_push(units.units@, u); }
    units.add(u);
    let u = TabUnit::new(29, "30.png", "Ice Archer", "Viking", 160, true);
    proof { lemma_view_push(units.units@, u); }
    units.add(u);
    assert(view_of(units.units@) =~= view_of(old(units).units@) + catalogue_part_2());
}

fn add_part_3(units: &mut TabUnits)
    ensures
        view_of(final(units).units@) == view_of(old(units).units@) + catalogue_part_3(),
{
    let u = TabUnit::new(30, "31.png", "Brawler", "Viking", 220, true);
    proof { lemma_view_push(units.units@, u); }
    units.add(u);
    let u = TabUnit::new(31, "32.png", "Berserker", "Viking", 250, true);
    proof { lemma_view_push(units.units@, u); }
    units.add(u);
    let u = TabUnit::new(32, "33.png", "Valkyrie", "Viking", 500, true);
    proof { lemma_view_push(units.units@, u); }
    units.add(u);
    let u = TabUnit::new(33, "34.png", "Jarl", "Viking", 850, true);
    proof { lemma_view_push(units.units@, u); }
    units.add(u);
    let u = TabUnit::new(34, "35.png", "Longship", "Viking", 1000, true);
    proof { lemma_view_push(units.units@, u); }
    units.add(u);
    let u = TabUnit::new(35, "36.png", "Samurai", "Dynasty", 140, true);
    proof { lemma_view_push(units.units@, u); }
    units.add(u);
    let u = TabUnit::new(36, "37.png", "Firework Archer", "Dynasty", 180, true);
    proof { lemma_view_push(units.units@, u); }
    units.add(u);
    let u = TabUnit::new(37, "38.png", "Monk", "Dynasty", 250, true);
    proof { lemma_view_push(units.units@, u); }
    units.add(u);
    let u = TabUnit::new(38, "39.png", "Ninja", "Dynasty", 500, true);
    proof { lemma_view_push(units.units@, u); }
    units.add(u);
    let u = TabUnit::new(39, "40.png", "Dragon", "Dynasty", 1000, true);
    proof { lemma_view_push(units.units@, u); }
    units.add(u);
    assert(view_of(units.units@) =~= view_of(old(units).units@) + catalogue_part_3());
}

fn add_part_4(units: &mut TabUnits)
    ensures
        view_of(final(units).units@) == view_of(old(units).units@) + catalogue_part_4(),
{
    let u = TabUnit::new(40, "41.png", "Hwacha", "Dynasty", 1500, true);
    proof { lemma_view_push(units.units@, u); }
    units.add(u);
    let u = TabUnit::new(41, "42.png", "Monkey King", "Dynasty", 2000, true);
    proof { lemma_view_push(units.units@, u); }
    units.add(u);
    let u = TabUnit::new(42, "61.png", "Painter", "Renaissance", 50, true);
    proof { lemma_view_push(units.units@, u); }
    units.add(u);
    let u = TabUnit::new(43, "62.png", "Fencer", "Renaissance", 150, true);
    proof { lemma_view_push(units.units@, u); }
    units.add(u);
    let u = TabUnit::new(44, "63.png", "Balloon Archer", "Renaissance", 200, true);
    proof { lemma_view_push(units.units@, u); }
    units.add(u);
    let u = TabUnit::new(45, "64.png", "Musketeer", "Renaissance", 250, true);
    proof { lemma_view_push(units.units@, u); }
    units.add(u);
    let u = TabUnit::new(46, "65.png", "Halberd", "Renaissance", 400, true);
    proof { lemma_view_push(units.units@, u); }
    units.add(u);
    let u = TabUnit::new(47, "66.png", "Jouster", "Renaissance", 1000, true);
    proof { lemma_view_push(units.units@, u); }
    units.add(u);
    let u = TabUnit::new(48, "67.png", "Da Vinci Tank", "Renaissance", 4000, true);
    proof { lemma_view_push(units.units@, u); }
    units.add(u);
    let u = TabUnit::new(49, "70.png", "Flintlock", "Pirate", 100, true);
    proof { lemma_view_push(units.units@, u); }
    units.add(u);
    assert(view_of(units.units@) =~= view_of(old(units).units@) + catalogue_part_4());
}

fn add_part_5(units: &mut TabUnits)
    ensures
        view_of(final(units).units@) == view_of(old(units).units@) + catalogue_part_5(),
{
    let u = TabUnit::new(50, "71.png", "Blunderbuss", "Pirate", 200, true);
    proof { lemma_view_push(units.units@, u); }
    units.add(u);
    let u = TabUnit::new(51, "72.png", "Bomb Thrower", "Pirate", 250, true);
    proof { lemma_view_push(units.units@, u); }
    units.add(u);
    let u = TabUnit::new(52, "73.png", "Harpooner", "Pirate", 400, true);
    proof { lemma_view_push(units.units@, u); }
    units.add(u);
    let u = TabUnit::new(53, "74.png", "Cannon", "Pirate", 1000, true);
    proof { lemma_view_push(units.units@, u); }
    units.add(u);
    let u = TabUnit::new(54, "75.png", "Captain", "Pirate", 1500, true);
    proof { lemma_view_push(units.units@, u); }
    units.add(u);
    let u = TabUnit::new(55, "76.png", "Pirate Queen", "Pirate", 2500, true);
    proof { lemma_view_push(units.units@, u); }
    units.add(u);
    let u = TabUnit::new(56, "84.png", "Skeleton Warrior", "Spooky", 80, true);
    proof { lemma_view_push(units.units@, u); }
    units.add(u);
    let u = TabUnit::new(57, "85.png", "Skeleton Archer", "Spooky", 180, true);
    proof { lemma_view_push(units.units@, u); }
    units.add(u);
    let u = TabUnit::new(58, "86.png", "Candlehead", "Spooky", 200, true);
    proof { lemma_view_push(units.units@, u); }
    units.add(u);
    let u = TabUnit::new(59, "87.png", "Vampire", "Spooky", 200, true);
    proof { lemma_view_push(units.units@, u); }
    units.add(u);
    assert(view_of(units.units@) =~= view_of(old(units).units@) + catalogue_part_5());
}

fn add_part_6(units: &mut TabUnits)
    ensures
        view_of(final(units).units@) == view_of(old(units).units@) + catalogue_part_6(),
{
    let u = TabUnit::new(60, "88.png", "Pumpkin Catapult", "Spooky", 1000, true);
    proof { lemma_view_push(units.units@, u); }
    units.add(u);
    let u = TabUnit::new(61, "89.png", "Swordcaster", "Spooky", 1000, true);
    proof { lemma_view_push(units.units@, u); }
    units.add(u);
    let u = TabUnit::new(62, "90.png", "Reaper", "Spooky", 2500, true);
    proof { lemma_view_push(units.units@, u); }
    units.add(u);
    let u = TabUnit::new(63, "101.png", "Dynamite Thrower", "Western", 120, true);
    proof { lemma_view_push(units.units@, u); }
    units.add(u);
    let u = TabUnit::new(64, "92.png", "Miner", "Western", 200, true);
    proof { lemma_view_push(units.units@, u); }
    units.add(u);
    let u = TabUnit::new(65, "93.png", "Cactus", "Western", 400, true);
    proof { lemma_view_push(units.units@, u); }
    units.add(u);
    let u = TabUnit::new(66, "94.png", "Gunslinger", "Western", 650, true);
    proof { lemma_view_push(units.units@, u); }
    units.add(u);
    let u = TabUnit::new(67, "95.png", "Lasso", "Western", 850, true);
    proof { lemma_view_push(units.units@, u); }
    units.add(u);
    let u = TabUnit::new(68, "96.png", "Deadeye", "Western", 900, true);
    proof { lemma_view_push(units.units@, u); }
    units.add(u);
    let u = TabUnit::new(69, "97.png", "Quick Draw", "Western", 1200, true);
    proof { lemma_view_push(units.units@, u); }
    units.add(u);
    assert(view_of(units.units@) =~= view_of(old(units).units@) + catalogue_part_6());
}

fn add_part_7(units: &mut TabUnits)
    ensures
        view_of(final(units).units@) == view_of(old(units).units@) + catalogue_part_7(),
{
    let u = TabUnit::new(70, "68.png", "Ballooner", "Secret", 90, true);
    proof { lemma_view_push(units.units@, u); }
    units.add(u);
    let u = TabUnit::new(71, "77.png", "Bomb on a Stick", "Secret", 140, true);
    proof { lemma_view_push(units.units@, u); }
    units.add(u);
    let u = TabUnit::new(72, "43.png", "Fan Bearer", "Secret", 200, true);
    proof { lemma_view_push(units.units@, u); }
    units.add(u);
    let u = TabUnit::new(73, "78.png", "Raptor", "Secret", 200, true);
    proof { lemma_view_push(units.units@, u); }
    units.add(u);
    let u = TabUnit::new(74, "45.png", "The Teacher", "Secret", 200, true);
    proof { lemma_view_push(units.units@, u); }
    units.add(u);
    let u = TabUnit::new(75, "79.png", "Shouter", "Secret", 250, true);
    proof { lemma_view_push(units.units@, u); }
    units.add(u);
    let u = TabUnit::new(76, "44.png", "Jester", "Secret", 300, true);
    proof { lemma_view_push(units.units@, u); }
    units.add(u);
    let u = TabUnit::new(77, "46.png", "Chu Ko Nu", "Secret", 350, true);
    proof { lemma_view_push(units.units@, u); }
    units.add(u);
    let u = TabUnit::new(78, "47.png", "Executioner", "Secret", 350, true);
    proof { lemma_view_push(units.units@, u); }
    units.add(u);
    let u = TabUnit::new(79, "48.png", "Taekwondo", "Secret", 400, true);
    proof { lemma_view_push(units.units@, u); }
    units.add(u);
    assert(view_of(units.units@) =~= view_of(old(units).units@) + catalogue_part_7());
}

fn add_part_8(units: &mut TabUnits)
    ensures
        view_of(final(units).units@) == view_of(old(units).units@) + catalogue_part_8(),
{
    let u = TabUnit::new(80, "80.png", "Raptor Rider", "Secret", 480, true);
    proof { lemma_view_push(units.units@, u); }
    units.add(u);
    let u = TabUnit::new(81, "50.png", "Cheerleader", "Secret", 500, true);
    proof { lemma_view_push(units.units@, u); }
    units.add(u);
    let u = TabUnit::new(82, "91.png", "Cupid", "Secret", 500, true);
    proof { lemma_view_push(units.units@, u); }
    units.add(u);
    let u = TabUnit::new(83, "49.png", "Mace Spinner", "Secret", 500, true);
    proof { lemma_view_push(units.units@, u); }
    units.add(u);
    let u = TabUnit::new(84, "81.png", "CLAMS", "Secret", 500, true);
    proof { lemma_view_push(units.units@, u); }
    units.add(u);
    let u = TabUnit::new(85, "51.png", "Vlad", "Secret", 1000, true);
    proof { lemma_view_push(units.units@, u); }
    units.add(u);
    let u = TabUnit::new(86, "53.png", "Wheelbarrow Dragon", "Secret", 1400, true);
    proof { lemma_view_push(units.units@, u); }
    units.add(u);
    let u = TabUnit::new(87, "82.png", "Bomb Cannon", "Secret", 1500, true);
    proof { lemma_view_push(units.units@, u); }
    units.add(u);
    let u = TabUnit::new(88, "54.png", "Cavalry", "Secret", 1800, true);
    proof { lemma_view_push(units.units@, u); }
    units.add(u);
    let u = TabUnit::new(89, "69.png", "Lady Red Jade", "Secret", 2000, true);
    proof { lemma_view_push(units.units@, u); }
    units.add(u);
    assert(view_of(units.units@) =~= view_of(old(units).units@) + catalogue_part_8());
}

fn add_part_9(units: &mut TabUnits)
    ensures
        view_of(final(units).units@) == view_of(old(units).units@) + catalogue_part_9(),
{
    let u = TabUnit::new(90, "83.png", "Blackbeard", "Secret", 2500, true);
    proof { lemma_view_push(units.units@, u); }
    units.add(u);
    let u = TabUnit::new(91, "55.png", "Shogun", "Secret", 2800, true);
    proof { lemma_view_push(units.units@, u); }
    units.add(u);
    let u = TabUnit::new(92, "56.png", "Samurai Giant", "Secret", 3000, true);
    proof { lemma_view_push(units.units@, u); }
    units.add(u);
    let u = TabUnit::new(93, "57.png", "Sensei", "Secret", 3000, true);
    proof { lemma_view_push(units.units@, u); }
    units.add(u);
    let u = TabUnit::new(94, "52.png", "Ullr", "Secret", 3000, true);
    proof { lemma_view_push(units.units@, u); }
    units.add(u);
    let u = TabUnit::new(95, "58.png", "Tree Giant", "Secret", 4000, true);
    proof { lemma_view_push(units.units@, u); }
    units.add(u);
    let u = TabUnit::new(96, "59.png", "Ice Giant", "Secret", 6000, true);
    proof { lemma_view_push(units.units@, u); }
    units.add(u);
    let u = TabUnit::new(97, "60.png", "Artemis", "Secret", 6500, true);
    proof { lemma_view_push(units.units@, u); }
    units.add(u);
    let u = TabUnit::new(98, "98.png", "Bank Robbers", "Secret", 850, true);
    proof { lemma_view_push(units.units@, u); }
    units.add(u);
    let u = TabUnit::new(99, "99.png", "Gatling Gun", "Secret", 2000, true);
    proof { lemma_view_push(units.units@, u); }
    units.add(u);
    assert(view_of(units.units@) =~= view_of(old(units).units@) + catalogue_part_9());
}

fn add_part_10(units: &mut TabUnits)
    ensures
        view_of(final(units).units@) == view_of(old(units).units@) + catalogue_part_10(),
{
    let u = TabUnit::new(100, "100.png", "Ball n' Chain", "Secret", 350, true);
    proof { lemma_view_push(units.units@, u); }
    units.add(u);
    assert(view_of(units.units@) =~= view_of(old(units).units@) + catalogue_part_10());
}

/// The roster of the game: the units of the catalogue, in order.
pub fn create_initial_units() -> (units: TabUnits)
    ensures
        units.units@.len() == CATALOGUE_SIZE,
        forall|i: int| 0 <= i < CATALOGUE_SIZE ==> (#[trigger] units.units@[i])@ == catalogue()[i],
        ids_match_positions(units.units@),
        forall|i: int| 0 <= i < CATALOGUE_SIZE ==> (#[trigger] units.units@[i]).enabled,
        forall|i: int| 0 <= i < CATALOGUE_SIZE ==> (#[trigger] units.units@[i]).cost == price_list()[i]
            && units.units@[i].unit_name@ == name_list()[i],
{
    let mut units = TabUnits::new();
    assert(view_of(units.units@) =~= Seq::<UnitView>::empty());
    add_part_0(&mut units);
    add_part_1(&mut units);
    add_part_2(&mut units);
    add_part_3(&mut units);
    add_part_4(&mut units);
    add_part_5(&mut units);
    add_part_6(&mut units);
    add_part_7(&mut units);
    add_part_8(&mut units);
    add_part_9(&mut units);
    add_part_10(&mut units);
    assert(view_of(units.units@) =~= catalogue());
    assert forall|i: int| 0 <= i < CATALOGUE_SIZE implies (#[trigger] units.units@[i])@ == catalogue()[i] by {
        assert(view_of(units.units@)[i] == units.units@[i]@);
    }
    proof {
        law_catalogue_shape();
        law_catalogue_prices();
        assert forall|i: int| 0 <= i < CATALOGUE_SIZE implies (#[trigger] units.units@[i]).cost == price_list()[i]
            && units.units@[i].unit_name@ == name_list()[i] by {
            assert(units.units@[i]@ == catalogue()[i]);
        }
        assert forall|i: int| 0 <= i < units.units@.len() implies #[trigger] units.units@[i].id == i by {
            assert(units.units@[i]@ == catalogue()[i]);
        }
        assert forall|i: int| 0 <= i < CATALOGUE_SIZE implies (#[trigger] units.units@[i]).enabled by {
            assert(units.units@[i]@ == catalogue()[i]);
        }
    }
    units
}

/// A catalogue entry at position `i`: numbered `i`, enabled, costing at
/// least `MIN_FUNDS`, and of one of the listed factions.
pub open spec fn catalogue_entry_shape(v: UnitView, i: int) -> bool {
    &&& v.id == i
    &&& v.enabled
    &&& v.cost >= MIN_FUNDS
    &&& exists|c: int| 0 <= c < clan_list().len() && #[trigger] clan_list()[c] == v.faction
}

/// The faction at each place of the list of factions.
proof fn lemma_clan_names_listed()
    ensures
        clan_list().len() == 11,
        clan_list()[0] == "Tribal"@,
        clan_list()[1] == "Farmer"@,
        clan_list()[2] == "Medieval"@,
        clan_list()[3] == "Ancient"@,
        clan_list()[4] == "Viking"@,
        clan_list()[5] == "Dynasty"@,
        clan_list()[6] == "Renaissance"@,
        clan_list()[7] == "Pirate"@,
        clan_list()[8] == "Spooky"@,
        clan_list()[9] == "Western"@,
        clan_list()[10] == "Secret"@,
{
}

proof fn lemma_part_0_shape()
    ensures
        forall|j: int| 0 <= j < catalogue_part_0().len() ==> catalogue_entry_shape(#[trigger] catalogue_part_0()[j], 0 + j),
{
    assert forall|j: int| 0 <= j < catalogue_part_0().len() implies catalogue_entry_shape(#[trigger] catalogue_part_0()[j], 0 + j) by {
        lemma_clan_names_listed();
    }
}

proof fn lemma_part_1_shape()
    ensures
        forall|j: int| 0 <= j < catalogue_part_1().len() ==> catalogue_entry_shape(#[trigger] catalogue_part_1()[j], 10 + j),
{
    assert forall|j: int| 0 <= j < catalogue_part_1().len() implies catalogue_entry_shape(#[trigger] catalogue_part_1()[j], 10 + j) by {
        lemma_clan_names_listed();
    }
}

proof fn lemma_part_2_shape()
    ensures
        forall|j: int| 0 <= j < catalogue_part_2().len() ==> catalogue_entry_shape(#[trigger] catalogue_part_2()[j], 20 + j),
{
    assert forall|j: int| 0 <= j < catalogue_part_2().len() implies catalogue_entry_shape(#[trigger] catalogue_part_2()[j], 20 + j) by {
        lemma_clan_names_listed();
    }
}

proof fn lemma_part_3_shape()
    ensures
        forall|j: int| 0 <= j < catalogue_part_3().len() ==> catalogue_entry_shape(#[trigger] catalogue_part_3()[j], 30 + j),
{
    assert forall|j: int| 0 <= j < catalogue_part_3().len() implies catalogue_entry_shape(#[trigger] catalogue_part_3()[j], 30 + j) by {
        lemma_clan_names_listed();
    }
}

proof fn lemma_part_4_shape()
    ensures
        forall|j: int| 0 <= j < catalogue_part_4().len() ==> catalogue_entry_shape(#[trigger] catalogue_part_4()[j], 40 + j),
{
    assert forall|j: int| 0 <= j < catalogue_part_4().len() implies catalogue_entry_shape(#[trigger] catalogue_part_4()[j], 40 + j) by {
        lemma_clan_names_listed();
    }
}

proof fn lemma_part_5_shape()
    ensures
        forall|j: int| 0 <= j < catalogue_part_5().len() ==> catalogue_entry_shape(#[trigger] catalogue_part_5()[j], 50 + j),
{
    assert forall|j: int| 0 <= j < catalogue_part_5().len() implies catalogue_entry_shape(#[trigger] catalogue_part_5()[j], 50 + j) by {
        lemma_clan_names_listed();
    }
}

proof fn lemma_part_6_shape()
    ensures
        forall|j: int| 0 <= j < catalogue_part_6().len() ==> catalogue_entry_shape(#[trigger] catalogue_part_6()[j], 60 + j),
{
    assert forall|j: int| 0 <= j < catalogue_part_6().len() implies catalogue_entry_shape(#[trigger] catalogue_part_6()[j], 60 + j) by {
        lemma_clan_names_listed();
    }
}

proof fn lemma_part_7_shape()
    ensures
        forall|j: int| 0 <= j < catalogue_part_7().len() ==> catalogue_entry_shape(#[trigger] catalogue_part_7()[j], 70 + j),
{
    assert forall|j: int| 0 <= j < catalogue_part_7().len() implies catalogue_entry_shape(#[trigger] catalogue_part_7()[j], 70 + j) by {
        lemma_clan_names_listed();
    }
}

proof fn lemma_part_8_shape()
    ensures
        forall|j: int| 0 <= j < catalogue_part_8().len() ==> catalogue_entry_shape(#[trigger] catalogue_part_8()[j], 80 + j),
{
    assert forall|j: int| 0 <= j < catalogue_part_8().len() implies catalogue_entry_shape(#[trigger] catalogue_part_8()[j], 80 + j) by {
        lemma_clan_names_listed();
    }
}

proof fn lemma_part_9_shape()
    ensures
        forall|j: int| 0 <= j < catalogue_part_9().len() ==> catalogue_entry_shape(#[trigger] catalogue_part_9()[j], 90 + j),
{
    assert forall|j: int| 0 <= j < catalogue_part_9().len() implies catalogue_entry_shape(#[trigger] catalogue_part_9()[j], 90 + j) by {
        lemma_clan_names_listed();
    }
}

proof fn lemma_part_10_shape()
    ensures
        forall|j: int| 0 <= j < catalogue_part_10().len() ==> catalogue_entry_shape(#[trigger] catalogue_part_10()[j], 100 + j),
{
    assert forall|j: int| 0 <= j < catalogue_part_10().len() implies catalogue_entry_shape(#[trigger] catalogue_part_10()[j], 100 + j) by {
        lemma_clan_names_listed();
    }
}

/// Every catalogue unit is numbered by its position, enabled, costs at
/// least `MIN_FUNDS`, and belongs to a faction that has a button.
pub proof fn law_catalogue_shape()
    ensures
        catalogue().len() == CATALOGUE_SIZE,
        forall|i: int| 0 <= i < CATALOGUE_SIZE ==> catalogue_entry_shape(#[trigger] catalogue()[i], i),
{
    lemma_part_0_shape();
    lemma_part_1_shape();
    lemma_part_2_shape();
    lemma_part_3_shape();
    lemma_part_4_shape();
    lemma_part_5_shape();
    lemma_part_6_shape();
    lemma_part_7_shape();
    lemma_part_8_shape();
    lemma_part_9_shape();
    lemma_part_10_shape();
    assert forall|i: int| 0 <= i < CATALOGUE_SIZE implies catalogue_entry_shape(#[trigger] catalogue()[i], i) by {
        if 0 <= i < 10 { assert(catalogue()[i] == catalogue_part_0()[i - 0]); }
        if 10 <= i < 20 { assert(catalogue()[i] == catalogue_part_1()[i - 10]); }
        if 20 <= i < 30 { assert(catalogue()[i] == catalogue_part_2()[i - 20]); }
        if 30 <= i < 40 { assert(catalogue()[i] == catalogue_part_3()[i - 30]); }
        if 40 <= i < 50 { assert(catalogue()[i] == catalogue_part_4()[i - 40]); }
        if 50 <= i < 60 { assert(catalogue()[i] == catalogue_part_5()[i - 50]); }
        if 60 <= i < 70 { assert(catalogue()[i] == catalogue_part_6()[i - 60]); }
        if 70 <= i < 80 { assert(catalogue()[i] == catalogue_part_7()[i - 70]); }
        if 80 <= i < 90 { assert(catalogue()[i] == catalogue_part_8()[i - 80]); }
        if 90 <= i < 100 { assert(catalogue()[i] == catalogue_part_9()[i - 90]); }
        if 100 <= i < 110 { assert(catalogue()[i] == catalogue_part_10()[i - 100]); }
    }
}

/// The price list of the game, unit by unit in catalogue order.
pub open spec fn price_list() -> Seq<u32> {
    seq![
        70, 90, 120, 160, 300, 400, 2200, 50, 70, 140,
        340, 500, 1000, 1200, 60, 100, 140, 180, 650, 1000,
        1500, 100, 120, 180, 300, 900, 1600, 2000, 90, 160,
        220, 250, 500, 850, 1000, 140, 180, 250, 500, 1000,
        1500, 2000, 50, 150, 200, 250, 400, 1000, 4000, 100,
        200, 250, 400, 1000, 1500, 2500, 80, 180, 200, 200,
        1000, 1000, 2500, 120, 200, 400, 650, 850, 900, 1200,
        90, 140, 200, 200, 200, 250, 300, 350, 350, 400,
        480, 500, 500, 500, 500, 1000, 1400, 1500, 1800, 2000,
        2500, 2800, 3000, 3000, 3000, 4000, 6000, 6500, 850, 2000,
        350,
    ]
}

/// The unit names of the game, in catalogue order.
pub open spec fn name_list() -> Seq<Seq<char>> {
    seq![
        "Clubber"@, "Protector"@, "Spear Thrower"@, "Stoner"@, "Bone Mage"@,
        "Chieftain"@, "Mammoth"@, "Halfling"@, "Farmer"@, "Hay baler"@,
        "Potion seller"@, "Harvester"@, "Wheelbarrow"@, "Scarecrow"@, "Bard"@,
        "Squire"@, "Archer"@, "Healer"@, "Knight"@, "Catapult"@,
        "The King"@, "Shield bearer"@, "Sarissa"@, "Hoplite"@, "Snake Archer"@,
        "Ballista"@, "Minotaur"@, "Zeus"@, "Headbutter"@, "Ice Archer"@,
        "Brawler"@, "Berserker"@, "Valkyrie"@, "Jarl"@, "Longship"@,
        "Samurai"@, "Firework Archer"@, "Monk"@, "Ninja"@, "Dragon"@,
        "Hwacha"@, "Monkey King"@, "Painter"@, "Fencer"@, "Balloon Archer"@,
        "Musketeer"@, "Halberd"@, "Jouster"@, "Da Vinci Tank"@, "Flintlock"@,
        "Blunderbuss"@, "Bomb Thrower"@, "Harpooner"@, "Cannon"@, "Captain"@,
        "Pirate Queen"@, "Skeleton Warrior"@, "Skeleton Archer"@, "Candlehead"@, "Vampire"@,
        "Pumpkin Catapult"@, "Swordcaster"@, "Reaper"@, "Dynamite Thrower"@, "Miner"@,
        "Cactus"@, "Gunslinger"@, "Lasso"@, "Deadeye"@, "Quick Draw"@,
        "Ballooner"@, "Bomb on a Stick"@, "Fan Bearer"@, "Raptor"@, "The Teacher"@,
        "Shouter"@, "Jester"@, "Chu Ko Nu"@, "Executioner"@, "Taekwondo"@,
        "Raptor Rider"@, "Cheerleader"@, "Cupid"@, "Mace Spinner"@, "CLAMS"@,
        "Vlad"@, "Wheelbarrow Dragon"@, "Bomb Cannon"@, "Cavalry"@, "Lady Red Jade"@,
        "Blackbeard"@, "Shogun"@, "Samurai Giant"@, "Sensei"@, "Ullr"@,
        "Tree Giant"@, "Ice Giant"@, "Artemis"@, "Bank Robbers"@, "Gatling Gun"@,
        "Ball n' Chain"@,
    ]
}

proof fn lemma_part_0_prices()
    ensures
        forall|j: int| 0 <= j < catalogue_part_0().len() ==> (#[trigger] catalogue_part_0()[j]).cost == price_list()[0 + j]
            && catalogue_part_0()[j].unit_name == name_list()[0 + j],
{
}

proof fn lemma_part_1_prices()
    ensures
        forall|j: int| 0 <= j < catalogue_part_1().len() ==> (#[trigger] catalogue_part_1()[j]).cost == price_list()[10 + j]
            && catalogue_part_1()[j].unit_name == name_list()[10 + j],
{
}

proof fn lemma_part_2_prices()
    ensures
        forall|j: int| 0 <= j < catalogue_part_2().len() ==> (#[trigger] catalogue_part_2()[j]).cost == price_list()[20 + j]
            && catalogue_part_2()[j].unit_name == name_list()[20 + j],
{
}

proof fn lemma_part_3_prices()
    ensures
        forall|j: int| 0 <= j < catalogue_part_3().len() ==> (#[trigger] catalogue_part_3()[j]).cost == price_list()[30 + j]
            && catalogue_part_3()[j].unit_name == name_list()[30 + j],
{
}

proof fn lemma_part_4_prices()
    ensures
        forall|j: int| 0 <= j < catalogue_part_4().len() ==> (#[trigger] catalogue_part_4()[j]).cost == price_list()[40 + j]
            && catalogue_part_4()[j].unit_name == name_list()[40 + j],
{
}

proof fn lemma_part_5_prices()
    ensures
        forall|j: int| 0 <= j < catalogue_part_5().len() ==> (#[trigger] catalogue_part_5()[j]).cost == price_list()[50 + j]
            && catalogue_part_5()[j].unit_name == name_list()[50 + j],
{
}

proof fn lemma_part_6_prices()
    ensures
        forall|j: int| 0 <= j < catalogue_part_6().len() ==> (#[trigger] catalogue_part_6()[j]).cost == price_list()[60 + j]
            && catalogue_part_6()[j].unit_name == name_list()[60 + j],
{
}

proof fn lemma_part_7_prices()
    ensures
        forall|j: int| 0 <= j < catalogue_part_7().len() ==> (#[trigger] catalogue_part_7()[j]).cost == price_list()[70 + j]
            && catalogue_part_7()[j].unit_name == name_list()[70 + j],
{
}

proof fn lemma_part_8_prices()
    ensures
        forall|j: int| 0 <= j < catalogue_part_8().len() ==> (#[trigger] catalogue_part_8()[j]).cost == price_list()[80 + j]
            && catalogue_part_8()[j].unit_name == name_list()[80 + j],
{
}

proof fn lemma_part_9_prices()
    ensures
        forall|j: int| 0 <= j < catalogue_part_9().len() ==> (#[trigger] catalogue_part_9()[j]).cost == price_list()[90 + j]
            && catalogue_part_9()[j].unit_name == name_list()[90 + j],
{
}

proof fn lemma_part_10_prices()
    ensures
        forall|j: int| 0 <= j < catalogue_part_10().len() ==> (#[trigger] catalogue_part_10()[j]).cost == price_list()[100 + j]
            && catalogue_part_10()[j].unit_name == name_list()[100 + j],
{
}

/// The catalogue holds every unit of the game under its name and at its
/// price from the price list.
pub proof fn law_catalogue_prices()
    ensures
        price_list().len() == CATALOGUE_SIZE,
        name_list().len() == CATALOGUE_SIZE,
        forall|i: int| 0 <= i < CATALOGUE_SIZE ==> (#[trigger] catalogue()[i]).cost == price_list()[i]
            && catalogue()[i].unit_name == name_list()[i],
{
    lemma_part_0_prices();
    lemma_part_1_prices();
    lemma_part_2_prices();
    lemma_part_3_prices();
    lemma_part_4_prices();
    lemma_part_5_prices();
    lemma_part_6_prices();
    lemma_part_7_prices();
    lemma_part_8_prices();
    lemma_part_9_prices();
    lemma_part_10_prices();
    assert forall|i: int| 0 <= i < CATALOGUE_SIZE implies (#[trigger] catalogue()[i]).cost == price_list()[i]
        && catalogue()[i].unit_name == name_list()[i] by {
        if 0 <= i < 10 { assert(catalogue()[i] == catalogue_part_0()[i - 0]); }
        if 10 <= i < 20 { assert(catalogue()[i] == catalogue_part_1()[i - 10]); }
        if 20 <= i < 30 { assert(catalogue()[i] == catalogue_part_2()[i - 20]); }
        if 30 <= i < 40 { assert(catalogue()[i] == catalogue_part_3()[i - 30]); }
        if 40 <= i < 50 { assert(catalogue()[i] == catalogue_part_4()[i - 40]); }
        if 50 <= i < 60 { assert(catalogue()[i] == catalogue_part_5()[i - 50]); }
        if 60 <= i < 70 { assert(catalogue()[i] == catalogue_part_6()[i - 60]); }
        if 70 <= i < 80 { assert(catalogue()[i] == catalogue_part_7()[i - 70]); }
        if 80 <= i < 90 { assert(catalogue()[i] == catalogue_part_8()[i - 80]); }
        if 90 <= i < 100 { assert(catalogue()[i] == catalogue_part_9()[i - 90]); }
        if 100 <= i < 110 { assert(catalogue()[i] == catalogue_part_10()[i - 100]); }
    }
}

/// The names of the factions, in the order their buttons are shown.
pub fn clan_names() -> (names: Vec<String>)
    ensures
        names@.len() == clan_list().len(),
        forall|i: int| 0 <= i < names@.len() ==> (#[trigger] names@[i])@ == clan_list()[i],
{
    let mut names: Vec<String> = Vec::new();
    names.push(String::from_str("Tribal"));
    names.push(String::from_str("Farmer"));
    names.push(String::from_str("Medieval"));
    names.push(String::from_str("Ancient"));
    names.push(String::from_str("Viking"));
    names.push(String::from_str("Dynasty"));
    names.push(String::from_str("Renaissance"));
    names.push(String::from_str("Pirate"));
    names.push(String::from_str("Spooky"));
    names.push(String::from_str("Western"));
    names.push(String::from_str("Secret"));
    assert(names@.map_values(|s: String| s@) =~= clan_list());
    assert forall|i: int| 0 <= i < names@.len() implies (#[trigger] names@[i])@ == clan_list()[i] by {
        assert(names@.map_values(|s: String| s@)[i] == names@[i]@);
    }
    names
}

} // verus!
