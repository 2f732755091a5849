use vstd::prelude::*;

use std::collections::HashMap;
use vstd::std_specs::iter::IteratorSpec;

use crate::roster::TabUnits;
use crate::sort::{law_stable_order_unique, stable_order, stable_order_of, total_preorder};
use crate::text::{decimal, decimal_text, lemma_lex_antisymmetric, lemma_lex_reflexive, lemma_lex_total, lemma_lex_transitive, lex_le, push_decimal, text_le};
use crate::unit::{TabUnit, UnitView};

verus! {

broadcast use vstd::std_specs::hash::group_hash_axioms;

/// The number of cells in a table row.
pub const ROW_WIDTH: usize = 7;

/// The length of row `r` when `n` items are laid out in rows of
/// `ROW_WIDTH`: full rows, then what remains.
pub open spec fn row_len(n: int, r: int) -> int {
    if n - 7 * r < 7 { n - 7 * r } else { 7 }
}

/// `rows` lays out `items` in order, `ROW_WIDTH` to a row, the last row
/// holding what remains; no items, no rows.
pub open spec fn laid_out<T>(items: Seq<T>, rows: Seq<Vec<T>>) -> bool {
    &&& rows.len() == (items.len() + 6) / 7
    &&& forall|r: int| 0 <= r < rows.len() ==> (#[trigger] rows[r])@.len() == row_len(items.len() as int, r)
    &&& forall|r: int, c: int| 0 <= r < rows.len() && 0 <= c < rows[r]@.len() ==> #[trigger] rows[r]@[c] == items[7 * r + c]
}

/// Lays out `items` in order, `ROW_WIDTH` to a row.
pub fn rows_of<T>(items: Vec<T>) -> (rows: Vec<Vec<T>>)
    ensures
        laid_out(items@, rows@),
{
    let ghost all = items@;
    let n = items.len();
    let mut rest = items;
    let mut rows: Vec<Vec<T>> = Vec::new();
    let mut row: Vec<T> = Vec::new();
    let mut k: usize = 0;
    while rest.len() > 0
        invariant
            k <= n,
            n == all.len(),
            rest@ == all.skip(k as int),
            k == 7 * rows@.len() + row@.len(),
            row@.len() <= 7,
            k > 0 ==> row@.len() >= 1,
            forall|r: int| 0 <= r < rows@.len() ==> (#[trigger] rows@[r])@.len() == 7,
            forall|r: int, c: int| 0 <= r < rows@.len() && 0 <= c < rows@[r]@.len() ==> #[trigger] rows@[r]@[c] == all[7 * r + c],
            forall|c: int| 0 <= c < row@.len() ==> #[trigger] row@[c] == all[7 * rows@.len() + c],
        decreases rest@.len(),
    {
        if row.len() == ROW_WIDTH {
            rows.push(row);
            row = Vec::new();
        }
        let x = rest.remove(0);
        row.push(x);
        k = k + 1;
    }
    if row.len() > 0 {
        rows.push(row);
    }
    proof {
        assert(k == n);
        if n == 0 {
            assert(rows@.len() == 0);
        } else {
            assert(rows@.len() == (n + 6) / 7);
        }
        assert forall|r: int| 0 <= r < rows@.len() implies (#[trigger] rows@[r])@.len() == row_len(n as int, r) by {
        }
    }
    rows
}

/// A cell of the unit table: the element's id (`unit` and the number), its
/// picture, its class and the cost shown.
pub struct UnitCell {
    pub element_id: String,
    pub image_src: String,
    pub class: String,
    pub cost_text: String,
}

/// A cell of the unit table as plain values.
pub struct UnitCellView {
    pub element_id: Seq<char>,
    pub image_src: Seq<char>,
    pub class: Seq<char>,
    pub cost_text: Seq<char>,
}

impl View for UnitCell {
    type V = UnitCellView;

    open spec fn view(&self) -> UnitCellView {
        UnitCellView {
            element_id: self.element_id@,
            image_src: self.image_src@,
            class: self.class@,
            cost_text: self.cost_text@,
        }
    }
}

/// The id of the element that shows unit number `id`.
pub open spec fn element_id_of(id: u32) -> Seq<char> {
    "unit"@ + decimal(id as nat)
}

/// Where the picture `file_name` is served.
pub open spec fn picture_of(file_name: Seq<char>) -> Seq<char> {
    "pics/"@ + file_name
}

/// The class of a unit's element, by its flag.
pub open spec fn class_of(enabled: bool) -> Seq<char> {
    if enabled { "unit_div unit_enabled"@ } else { "unit_div unit_disabled"@ }
}

/// The cell of the unit table for `u`. The table is drawn with every unit
/// in the enabled style, whatever its flag.
pub open spec fn unit_cell(u: UnitView) -> UnitCellView {
    UnitCellView {
        element_id: element_id_of(u.id),
        image_src: picture_of(u.file_name),
        class: class_of(true),
        cost_text: decimal(u.cost as nat),
    }
}

/// The id of the element that shows unit number `id`.
pub fn unit_element_id(id: u32) -> (s: String)
    ensures
        s@ == element_id_of(id),
{
    let mut s = String::from_str("unit");
    push_decimal(&mut s, id);
    s
}

/// Where the picture `file_name` is served.
pub fn picture_path(file_name: &str) -> (s: String)
    ensures
        s@ == picture_of(file_name@),
{
    let mut s = String::from_str("pics/");
    s.append(file_name);
    s
}

/// The class of a unit's element, by its flag.
pub fn unit_class(enabled: bool) -> (s: String)
    ensures
        s@ == class_of(enabled),
{
    if enabled {
        String::from_str("unit_div unit_enabled")
    } else {
        String::from_str("unit_div unit_disabled")
    }
}

/// The cells of the unit table, one per unit, in roster order.
pub fn unit_cells(units: &TabUnits) -> (cells: Vec<UnitCell>)
    ensures
        cells@.len() == units.units@.len(),
        forall|i: int| 0 <= i < cells@.len() ==> (#[trigger] cells@[i])@ == unit_cell(units.units@[i]@),
{
    let n = units.units.len();
    let mut cells: Vec<UnitCell> = Vec::new();
    let mut k: usize = 0;
    while k < n
        invariant
            k <= n,
            n == units.units@.len(),
            cells@.len() == k,
            forall|i: int| 0 <= i < k ==> (#[trigger] cells@[i])@ == unit_cell(units.units@[i]@),
        decreases n - k,
    {
        let u = &units.units[k];
        let cell = UnitCell {
            element_id: unit_element_id(u.id),
            image_src: picture_path(u.file_name.as_str()),
            class: unit_class(true),
            cost_text: decimal_text(u.cost),
        };
        cells.push(cell);
        k = k + 1;
    }
    cells
}

/// The unit table: the cells of the roster, `ROW_WIDTH` to a row.
pub fn unit_table_rows(units: &TabUnits) -> (rows: Vec<Vec<UnitCell>>)
    ensures
        rows@.len() == (units.units@.len() + 6) / 7,
        forall|r: int| 0 <= r < rows@.len() ==> (#[trigger] rows@[r])@.len() == row_len(units.units@.len() as int, r),
        forall|r: int, c: int| 0 <= r < rows@.len() && 0 <= c < rows@[r]@.len() ==> (#[trigger] rows@[r]@[c])@
            == unit_cell(units.units@[7 * r + c]@),
{
    let cells = unit_cells(units);
    let ghost cv = cells@;
    let rows = rows_of(cells);
    proof {
        assert forall|r: int, c: int| 0 <= r < rows@.len() && 0 <= c < rows@[r]@.len() implies (#[trigger] rows@[r]@[c])@
            == unit_cell(units.units@[7 * r + c]@) by {
            assert(rows@[r]@[c] == cv[7 * r + c]);
        }
    }
    rows
}

/// The id and class that the element of a unit must show.
pub struct UnitState {
    pub element_id: String,
    pub class: String,
}

/// The id and class of every unit's element, in roster order, by the
/// units' flags.
pub fn unit_states(units: &TabUnits) -> (states: Vec<UnitState>)
    ensures
        states@.len() == units.units@.len(),
        forall|i: int| 0 <= i < states@.len() ==> (#[trigger] states@[i]).element_id@ == element_id_of(units.units@[i].id)
            && states@[i].class@ == class_of(units.units@[i].enabled),
{
    let n = units.units.len();
    let mut states: Vec<UnitState> = Vec::new();
    let mut k: usize = 0;
    while k < n
        invariant
            k <= n,
            n == units.units@.len(),
            states@.len() == k,
            forall|i: int| 0 <= i < k ==> (#[trigger] states@[i]).element_id@ == element_id_of(units.units@[i].id)
                && states@[i].class@ == class_of(units.units@[i].enabled),
        decreases n - k,
    {
        let u = &units.units[k];
        states.push(UnitState { element_id: unit_element_id(u.id), class: unit_class(u.enabled) });
        k = k + 1;
    }
    states
}

/// Comparison of two entries (unit number, count) of an army by the units
/// they name in the roster `s`: by faction in dictionary order, then by cost.
pub open spec fn army_le(s: Seq<TabUnit>, e: Seq<(u32, u32)>) -> spec_fn(int, int) -> bool {
    |i: int, j: int|
        {
            let ui = s[e[i].0 as int];
            let uj = s[e[j].0 as int];
            lex_le(ui.faction@, uj.faction@) && (lex_le(uj.faction@, ui.faction@) ==> ui.cost <= uj.cost)
        }
}

/// Every entry names a position of the roster.
pub open spec fn entries_in_roster(s: Seq<TabUnit>, e: Seq<(u32, u32)>) -> bool {
    forall|i: int| 0 <= i < e.len() ==> (#[trigger] e[i]).0 < s.len()
}

/// The comparison of army entries is a total preorder.
pub proof fn lemma_army_le_preorder(s: Seq<TabUnit>, e: Seq<(u32, u32)>)
    requires
        entries_in_roster(s, e),
    ensures
        total_preorder(army_le(s, e), e.len() as int),
{
    let le = army_le(s, e);
    assert forall|i: int, j: int| 0 <= i < e.len() && 0 <= j < e.len() implies #[trigger] le(i, j) || le(j, i) by {
        let fi = s[e[i].0 as int].faction@;
        let fj = s[e[j].0 as int].faction@;
        lemma_lex_total(fi, fj);
    }
    assert forall|i: int, j: int, k: int|
        0 <= i < e.len() && 0 <= j < e.len() && 0 <= k < e.len() && #[trigger] le(i, j) && #[trigger] le(j, k) implies le(i, k) by {
        let fi = s[e[i].0 as int].faction@;
        let fj = s[e[j].0 as int].faction@;
        let fk = s[e[k].0 as int].faction@;
        lemma_lex_transitive(fi, fj, fk);
        if lex_le(fk, fi) {
            lemma_lex_transitive(fj, fk, fi);
            lemma_lex_transitive(fk, fi, fj);
            lemma_lex_antisymmetric(fi, fj);
            lemma_lex_antisymmetric(fj, fk);
        }
    }
}

/// `out` holds the entries `e`, ordered by faction and then cost of the
/// units they name, entries that tie in their order in `e`.
pub open spec fn army_ordered(s: Seq<TabUnit>, e: Seq<(u32, u32)>, out: Seq<(u32, u32)>) -> bool {
    exists|order: Seq<usize>|
        #[trigger] stable_order_of(order, e.len() as int, army_le(s, e))
            && out == order.map_values(|i: usize| e[i as int])
}

/// Ordering an army for its table has one outcome.
pub proof fn law_army_order_unique(s: Seq<TabUnit>, e: Seq<(u32, u32)>, out1: Seq<(u32, u32)>, out2: Seq<(u32, u32)>)
    requires
        entries_in_roster(s, e),
        army_ordered(s, e, out1),
        army_ordered(s, e, out2),
    ensures
        out1 == out2,
{
    let n = e.len() as int;
    let o1 = choose|order: Seq<usize>| #[trigger] stable_order_of(order, n, army_le(s, e))
        && out1 == order.map_values(|i: usize| e[i as int]);
    let o2 = choose|order: Seq<usize>| #[trigger] stable_order_of(order, n, army_le(s, e))
        && out2 == order.map_values(|i: usize| e[i as int]);
    lemma_army_le_preorder(s, e);
    law_stable_order_unique(o1, o2, n, army_le(s, e));
}

/// The entries `out` go up by the factions of the units they name, in
/// dictionary order, and within one faction by the units' costs.
pub open spec fn by_faction_then_cost(s: Seq<TabUnit>, out: Seq<(u32, u32)>) -> bool {
    forall|a: int, b: int| 0 <= a < b < out.len() ==> {
        let ua = s[(#[trigger] out[a]).0 as int];
        let ub = s[(#[trigger] out[b]).0 as int];
        &&& lex_le(ua.faction@, ub.faction@)
        &&& ua.faction@ == ub.faction@ ==> ua.cost <= ub.cost
    }
}

/// An army ordered for its table holds the same entries, goes up by
/// faction in dictionary order, and within a faction by cost.
pub proof fn law_army_order_by_faction_then_cost(s: Seq<TabUnit>, e: Seq<(u32, u32)>, out: Seq<(u32, u32)>)
    requires
        entries_in_roster(s, e),
        army_ordered(s, e, out),
    ensures
        out.len() == e.len(),
        by_faction_then_cost(s, out),
        forall|a: int| 0 <= a < out.len() ==> e.contains(#[trigger] out[a]),
        forall|k: int| 0 <= k < e.len() ==> out.contains(#[trigger] e[k]),
{
    let n = e.len() as int;
    let order = choose|order: Seq<usize>| #[trigger] stable_order_of(order, n, army_le(s, e))
        && out == order.map_values(|i: usize| e[i as int]);
    assert forall|a: int, b: int| 0 <= a < b < out.len() implies {
        let ua = s[(#[trigger] out[a]).0 as int];
        let ub = s[(#[trigger] out[b]).0 as int];
        &&& lex_le(ua.faction@, ub.faction@)
        &&& ua.faction@ == ub.faction@ ==> ua.cost <= ub.cost
    } by {
        assert(army_le(s, e)(order[a] as int, order[b] as int));
        assert(out[a] == e[order[a] as int]);
        assert(out[b] == e[order[b] as int]);
        lemma_lex_reflexive(s[out[a].0 as int].faction@);
    }
    assert forall|a: int| 0 <= a < out.len() implies e.contains(#[trigger] out[a]) by {
        assert(out[a] == e[order[a] as int]);
    }
    assert forall|k: int| 0 <= k < e.len() implies out.contains(#[trigger] e[k]) by {
        assert(crate::sort::lists(order, k));
        let a = choose|a: int| 0 <= a < order.len() && order[a] == k;
        assert(out[a] == e[k]);
    }
}

/// The entries of an army ordered for its table: by faction in dictionary
/// order, then by cost, entries that tie in their given order.
pub fn army_order(units: &TabUnits, entries: &Vec<(u32, u32)>) -> (out: Vec<(u32, u32)>)
    requires
        entries_in_roster(units.units@, entries@),
    ensures
        army_ordered(units.units@, entries@, out@),
        out@.len() == entries@.len(),
        by_faction_then_cost(units.units@, out@),
{
    let ghost s = units.units@;
    let ghost e = entries@;
    proof { lemma_army_le_preorder(s, e); }
    let m = entries.len();
    let le = |i: usize, j: usize| -> (r: bool)
        requires
            i < entries@.len(),
            j < entries@.len(),
            entries_in_roster(units.units@, entries@),
        ensures
            r == army_le(units.units@, entries@)(i as int, j as int),
        {
            let ui = &units.units[entries[i].0 as usize];
            let uj = &units.units[entries[j].0 as usize];
            if text_le(ui.faction.as_str(), uj.faction.as_str()) {
                if text_le(uj.faction.as_str(), ui.faction.as_str()) {
                    ui.cost <= uj.cost
                } else {
                    true
                }
            } else {
                false
            }
        };
    let order = stable_order(m, le, Ghost(army_le(s, e)));
    let mut out: Vec<(u32, u32)> = Vec::new();
    let mut a: usize = 0;
    while a < m
        invariant
            a <= m,
            m == e.len(),
            entries@ == e,
            stable_order_of(order@, m as int, army_le(s, e)),
            out@ == order@.take(a as int).map_values(|i: usize| e[i as int]),
        decreases m - a,
    {
        let i = order[a];
        out.push(entries[i]);
        assert(order@.take((a + 1) as int) =~= order@.take(a as int).push(i));
        assert(out@ =~= order@.take((a + 1) as int).map_values(|i: usize| e[i as int]));
        a = a + 1;
    }
    assert(order@.take(m as int) =~= order@);
    assert(stable_order_of(order@, e.len() as int, army_le(s, e)));
    proof { law_army_order_by_faction_then_cost(s, e, out@); }
    out
}

/// A cell of the army table: the unit's picture and how many were drafted.
pub struct ArmyCell {
    pub image_src: String,
    pub count_text: String,
}

/// A cell of the army table as plain values.
pub struct ArmyCellView {
    pub image_src: Seq<char>,
    pub count_text: Seq<char>,
}

impl View for ArmyCell {
    type V = ArmyCellView;

    open spec fn view(&self) -> ArmyCellView {
        ArmyCellView { image_src: self.image_src@, count_text: self.count_text@ }
    }
}

/// The cell of the army table for the entry (unit number, count) of roster `s`.
pub open spec fn army_cell(s: Seq<TabUnit>, entry: (u32, u32)) -> ArmyCellView {
    ArmyCellView { image_src: picture_of(s[entry.0 as int].file_name@), count_text: decimal(entry.1 as nat) }
}

/// The army table: the army's entries ordered by faction and cost, one cell
/// each, `ROW_WIDTH` to a row; an empty army still has one, empty, row.
pub fn army_table_rows(units: &TabUnits, entries: &Vec<(u32, u32)>) -> (rows: Vec<Vec<ArmyCell>>)
    requires
        entries_in_roster(units.units@, entries@),
    ensures
        exists|ordered: Seq<(u32, u32)>| #[trigger] army_ordered(units.units@, entries@, ordered) && by_faction_then_cost(units.units@, ordered) && {
            &&& entries@.len() == 0 ==> rows@.len() == 1 && rows@[0]@.len() == 0
            &&& entries@.len() > 0 ==> {
                &&& rows@.len() == (entries@.len() + 6) / 7
                &&& forall|r: int| 0 <= r < rows@.len() ==> (#[trigger] rows@[r])@.len() == row_len(entries@.len() as int, r)
                &&& forall|r: int, c: int| 0 <= r < rows@.len() && 0 <= c < rows@[r]@.len() ==> (#[trigger] rows@[r]@[c])@
                    == army_cell(units.units@, ordered[7 * r + c])
            }
        },
{
    let ordered = army_order(units, entries);
    let n = ordered.len();
    let mut cells: Vec<ArmyCell> = Vec::new();
    let mut k: usize = 0;
    while k < n
        invariant
            k <= n,
            n == ordered@.len(),
            n == entries@.len(),
            army_ordered(units.units@, entries@, ordered@),
            entries_in_roster(units.units@, entries@),
            cells@.len() == k,
            forall|i: int| 0 <= i < k ==> (#[trigger] cells@[i])@ == army_cell(units.units@, ordered@[i]),
        decreases n - k,
    {
        let (id, count) = ordered[k];
        proof {
            let order = choose|order: Seq<usize>| #[trigger] stable_order_of(order, entries@.len() as int, army_le(units.units@, entries@))
                && ordered@ == order.map_values(|i: usize| entries@[i as int]);
            assert(ordered@[k as int] == entries@[order[k as int] as int]);
        }
        let u = &units.units[id as usize];
        cells.push(ArmyCell { image_src: picture_path(u.file_name.as_str()), count_text: decimal_text(count) });
        k = k + 1;
    }
    let ghost cv = cells@;
    let mut rows = rows_of(cells);
    if n == 0 {
        rows.push(Vec::new());
    }
    proof {
        assert forall|r: int, c: int| 0 <= r < rows@.len() && 0 <= c < rows@[r]@.len() && n > 0 implies (#[trigger] rows@[r]@[c])@
            == army_cell(units.units@, ordered@[7 * r + c]) by {
            assert(rows@[r]@[c] == cv[7 * r + c]);
        }
    }
    rows
}

/// The entries (unit number, count) of an army, in the order the map is
/// walked, which is not fixed: each unit once, with its count.
pub fn army_entries(army: &HashMap<u32, u32>) -> (entries: Vec<(u32, u32)>)
    ensures
        entries@.len() == army@.dom().len(),
        forall|i: int| 0 <= i < entries@.len() ==> army@.contains_key((#[trigger] entries@[i]).0) && army@[entries@[i].0] == entries@[i].1,
        forall|id: u32| #[trigger] army@.contains_key(id) ==> exists|i: int| 0 <= i < entries@.len() && (#[trigger] entries@[i]).0 == id,
        forall|i: int, j: int| 0 <= i < j < entries@.len() ==> (#[trigger] entries@[i]).0 != (#[trigger] entries@[j]).0,
{
    let mut entries: Vec<(u32, u32)> = Vec::new();
    let ghost v = vstd::std_specs::hash::spec_hash_map_iter(army).remaining();
    for kv in it: army.iter()
        invariant
            it.seq() == v,
            entries@.len() == it.index(),
            forall|i: int| 0 <= i < it.index() ==> #[trigger] entries@[i] == (*v[i].0, *v[i].1),
    {
        let (k, c) = kv;
        entries.push((*k, *c));
    }
    proof {
        assert(entries@.len() == v.len());
        assert(v.no_duplicates());
        assert forall|id: u32| #[trigger] army@.contains_key(id) implies exists|i: int| 0 <= i < entries@.len() && (#[trigger] entries@[i]).0 == id by {
            assert(v.contains((&id, &army@[id])));
            let i = choose|i: int| 0 <= i < v.len() && v[i] == (&id, &army@[id]);
            assert(entries@[i].0 == id);
        }
        assert forall|i: int, j: int| 0 <= i < j < entries@.len() implies (#[trigger] entries@[i]).0 != (#[trigger] entries@[j]).0 by {
            if entries@[i].0 == entries@[j].0 {
                assert(army@.contains_key(*v[i].0) && army@[*v[i].0] == *v[i].1);
                assert(army@.contains_key(*v[j].0) && army@[*v[j].0] == *v[j].1);
                assert(v[i] == v[j]);
            }
        }
    }
    entries
}

} // verus!
