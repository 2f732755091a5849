use vstd::prelude::*;

use std::collections::HashMap;

use crate::random::{draw_index, picker_weights, random_below, weight_total, weighted_index, WeightedPicker};
use crate::roster::TabUnits;
use crate::sort::{law_stable_order_unique, lists, stable_order, stable_order_of, total_preorder};
use crate::unit::TabUnit;
use rand::rngs::ThreadRng;

verus! {

broadcast use vstd::std_specs::hash::group_hash_axioms;

/// A unit that may be drafted: its number and its cost.
#[derive(Clone, Copy, Debug, PartialEq, Eq, Structural)]
pub struct Candidate {
    pub id: u32,
    pub cost: u32,
}

/// The number of weightings among which a draft picks one at random.
pub const WEIGHT_KINDS: usize = 8;

/// The draft stops once less than this is left.
pub const MIN_FUNDS: u32 = 50;

/// The weight that weighting `kind` gives a unit of cost `cost`: each
/// weighting favours another price band.
pub open spec fn weight_spec(kind: int, cost: u32) -> u32 {
    if kind == 0 {
        if cost < 121 { 98 } else if cost < 501 { 50 } else { 2 }
    } else if kind == 1 {
        if cost < 81 { 98 } else if cost < 121 { 75 } else { 5 }
    } else if kind == 2 {
        if cost < 151 { 95 } else if cost < 251 { 50 } else { 5 }
    } else if kind == 3 {
        if cost < 151 { 25 } else if cost < 251 { 35 } else if cost < 510 { 95 } else { 5 }
    } else if kind == 4 {
        if cost < 990 { 5 } else if cost < 1995 { 95 } else { 10 }
    } else if kind == 5 {
        if cost < 251 { 95 } else if cost < 2995 { 5 } else { 95 }
    } else if kind == 6 {
        if cost < 301 { 3 } else if cost < 751 { 95 } else if cost < 1501 { 3 } else { 10 }
    } else {
        if cost < 2999 { 5 } else { 95 }
    }
}

/// The weight that weighting `kind` gives a unit of cost `cost`.
pub fn weight(kind: usize, cost: u32) -> (w: u32)
    requires
        kind < WEIGHT_KINDS,
    ensures
        w == weight_spec(kind as int, cost),
{
    if kind == 0 {
        if cost < 121 { 98 } else if cost < 501 { 50 } else { 2 }
    } else if kind == 1 {
        if cost < 81 { 98 } else if cost < 121 { 75 } else { 5 }
    } else if kind == 2 {
        if cost < 151 { 95 } else if cost < 251 { 50 } else { 5 }
    } else if kind == 3 {
        if cost < 151 { 25 } else if cost < 251 { 35 } else if cost < 510 { 95 } else { 5 }
    } else if kind == 4 {
        if cost < 990 { 5 } else if cost < 1995 { 95 } else { 10 }
    } else if kind == 5 {
        if cost < 251 { 95 } else if cost < 2995 { 5 } else { 95 }
    } else if kind == 6 {
        if cost < 301 { 3 } else if cost < 751 { 95 } else if cost < 1501 { 3 } else { 10 }
    } else {
        if cost < 2999 { 5 } else { 95 }
    }
}

/// Every weighting gives every unit a weight between 2 and 98.
pub proof fn law_weights_positive_and_small(kind: int, cost: u32)
    requires
        0 <= kind < WEIGHT_KINDS,
    ensures
        2 <= weight_spec(kind, cost) <= 98,
{
}

/// Whether unit `u` may be drafted with `money`: it is enabled and costs no more.
pub open spec fn is_eligible(u: TabUnit, money: u32) -> bool {
    u.enabled && u.cost <= money
}

/// The units of `s` that may be drafted with `money`, in roster order.
pub open spec fn eligible(s: Seq<TabUnit>, money: u32) -> Seq<Candidate>
    decreases s.len(),
{
    if s.len() == 0 {
        Seq::empty()
    } else {
        let rest = eligible(s.drop_last(), money);
        if is_eligible(s.last(), money) {
            rest.push(Candidate { id: s.last().id, cost: s.last().cost })
        } else {
            rest
        }
    }
}

/// Comparison of two positions of `pool` by cost.
pub open spec fn cost_le(pool: Seq<Candidate>) -> spec_fn(int, int) -> bool {
    |i: int, j: int| pool[i].cost <= pool[j].cost
}

/// `cands` is `pool` sorted by cost, candidates of equal cost in their
/// order in `pool`.
pub open spec fn arranged_by_cost(cands: Seq<Candidate>, pool: Seq<Candidate>) -> bool {
    exists|order: Seq<usize>|
        #[trigger] stable_order_of(order, pool.len() as int, cost_le(pool))
            && cands == order.map_values(|i: usize| pool[i as int])
}

/// `c` stands for an enabled unit of `s`, with its number and its cost,
/// and that cost is within `money`.
pub open spec fn drawn_from(s: Seq<TabUnit>, money: u32, c: Candidate) -> bool {
    exists|j: int| 0 <= j < s.len() && is_eligible(#[trigger] s[j], money) && s[j].id == c.id && s[j].cost == c.cost
}

/// Sorting the candidates by cost has one outcome: two arrangements of the
/// same pool by cost, stable for equal costs, are the same.
pub proof fn law_candidates_unique(c1: Seq<Candidate>, c2: Seq<Candidate>, pool: Seq<Candidate>)
    requires
        arranged_by_cost(c1, pool),
        arranged_by_cost(c2, pool),
    ensures
        c1 == c2,
{
    let n = pool.len() as int;
    let o1 = choose|order: Seq<usize>| #[trigger] stable_order_of(order, n, cost_le(pool))
        && c1 == order.map_values(|i: usize| pool[i as int]);
    let o2 = choose|order: Seq<usize>| #[trigger] stable_order_of(order, n, cost_le(pool))
        && c2 == order.map_values(|i: usize| pool[i as int]);
    assert(total_preorder(cost_le(pool), n));
    law_stable_order_unique(o1, o2, n, cost_le(pool));
}

/// Every eligible candidate stands for an enabled unit of the roster that
/// `money` pays for.
pub proof fn lemma_eligible_from_roster(s: Seq<TabUnit>, money: u32)
    ensures
        forall|k: int| 0 <= k < eligible(s, money).len() ==> drawn_from(s, money, #[trigger] eligible(s, money)[k]),
        eligible(s, money).len() <= s.len(),
    decreases s.len(),
{
    if s.len() > 0 {
        let t = s.drop_last();
        lemma_eligible_from_roster(t, money);
        assert forall|k: int| 0 <= k < eligible(s, money).len() implies drawn_from(s, money, #[trigger] eligible(s, money)[k]) by {
            if k < eligible(t, money).len() {
                assert(eligible(s, money)[k] == eligible(t, money)[k]);
                assert(drawn_from(t, money, eligible(t, money)[k]));
                let j = choose|j: int| 0 <= j < t.len() && is_eligible(#[trigger] t[j], money)
                    && t[j].id == eligible(t, money)[k].id && t[j].cost == eligible(t, money)[k].cost;
                assert(s[j] == t[j]);
            } else {
                assert(is_eligible(s[s.len() - 1], money));
            }
        }
    }
}

/// Some candidate of `cands` has number `id` and cost `cost`.
pub open spec fn has_candidate(cands: Seq<Candidate>, id: u32, cost: u32) -> bool {
    exists|i: int| 0 <= i < cands.len() && (#[trigger] cands[i]).id == id && cands[i].cost == cost
}

/// Some unit of `s` is enabled, costs at most `money`, and has number `id`
/// and cost `cost`.
pub open spec fn has_affordable_unit(s: Seq<TabUnit>, money: u32, id: u32, cost: u32) -> bool {
    exists|j: int| 0 <= j < s.len() && (#[trigger] s[j]).enabled && s[j].cost <= money && s[j].id == id && s[j].cost == cost
}

/// Every enabled unit of the roster that costs at most `money` is in the
/// eligible pool, with its number and cost.
pub proof fn lemma_eligible_complete(s: Seq<TabUnit>, money: u32)
    ensures
        forall|j: int| 0 <= j < s.len() && (#[trigger] s[j]).enabled && s[j].cost <= money
            ==> has_candidate(eligible(s, money), s[j].id, s[j].cost),
    decreases s.len(),
{
    if s.len() > 0 {
        let t = s.drop_last();
        lemma_eligible_complete(t, money);
        assert forall|j: int| 0 <= j < s.len() && (#[trigger] s[j]).enabled && s[j].cost <= money
            implies has_candidate(eligible(s, money), s[j].id, s[j].cost) by {
            if j < t.len() {
                assert(t[j] == s[j]);
                assert(has_candidate(eligible(t, money), t[j].id, t[j].cost));
                let i = choose|i: int| 0 <= i < eligible(t, money).len() && (#[trigger] eligible(t, money)[i]).id == t[j].id
                    && eligible(t, money)[i].cost == t[j].cost;
                assert(eligible(s, money)[i] == eligible(t, money)[i]);
            } else {
                let e = eligible(s, money);
                assert(e[e.len() - 1].id == s[j].id);
            }
        }
    }
}

/// The candidates are exactly the enabled units of the roster that cost at
/// most the budget: each such unit is a candidate, with its number and
/// cost, and each candidate is such a unit.
pub proof fn law_candidates_exact(units: Seq<TabUnit>, money: u32, cands: Seq<Candidate>)
    requires
        arranged_by_cost(cands, eligible(units, money)),
    ensures
        forall|j: int| 0 <= j < units.len() && (#[trigger] units[j]).enabled && units[j].cost <= money
            ==> has_candidate(cands, units[j].id, units[j].cost),
        forall|i: int| 0 <= i < cands.len() ==> has_affordable_unit(units, money, (#[trigger] cands[i]).id, cands[i].cost),
        forall|a: int, b: int| 0 <= a < b < cands.len() ==> cands[a].cost <= cands[b].cost,
{
    let pool = eligible(units, money);
    lemma_eligible_complete(units, money);
    lemma_eligible_from_roster(units, money);
    let order = choose|order: Seq<usize>| #[trigger] stable_order_of(order, pool.len() as int, cost_le(pool))
        && cands == order.map_values(|i: usize| pool[i as int]);
    assert forall|j: int| 0 <= j < units.len() && (#[trigger] units[j]).enabled && units[j].cost <= money
        implies has_candidate(cands, units[j].id, units[j].cost) by {
        assert(has_candidate(pool, units[j].id, units[j].cost));
        let k = choose|k: int| 0 <= k < pool.len() && (#[trigger] pool[k]).id == units[j].id && pool[k].cost == units[j].cost;
        assert(lists(order, k));
        let a = choose|a: int| 0 <= a < order.len() && order[a] == k;
        assert(cands[a] == pool[k]);
    }
    assert forall|i: int| 0 <= i < cands.len() implies has_affordable_unit(units, money, (#[trigger] cands[i]).id, cands[i].cost) by {
        assert(cands[i] == pool[order[i] as int]);
        assert(drawn_from(units, money, pool[order[i] as int]));
        let j = choose|j: int| 0 <= j < units.len() && is_eligible(#[trigger] units[j], money)
            && units[j].id == pool[order[i] as int].id && units[j].cost == pool[order[i] as int].cost;
        assert(units[j].enabled && units[j].cost <= money);
    }
    assert forall|a: int, b: int| 0 <= a < b < cands.len() implies cands[a].cost <= cands[b].cost by {
        assert(cost_le(pool)(order[a] as int, order[b] as int));
    }
}

/// The candidates of a draft with `money`: the enabled units of the roster
/// that cost no more than `money`, sorted by cost, units of equal cost in
/// roster order.
pub fn army_candidates(units: &TabUnits, money: u32) -> (cands: Vec<Candidate>)
    ensures
        arranged_by_cost(cands@, eligible(units.units@, money)),
        cands@.len() == eligible(units.units@, money).len(),
        forall|j: int| 0 <= j < units.units@.len() && (#[trigger] units.units@[j]).enabled && units.units@[j].cost <= money
            ==> has_candidate(cands@, units.units@[j].id, units.units@[j].cost),
        forall|i: int| 0 <= i < cands@.len() ==> has_affordable_unit(units.units@, money, (#[trigger] cands@[i]).id, cands@[i].cost),
        forall|a: int, b: int| 0 <= a < b < cands@.len() ==> cands@[a].cost <= cands@[b].cost,
{
    let n = units.units.len();
    let mut pool: Vec<Candidate> = Vec::new();
    let mut k: usize = 0;
    while k < n
        invariant
            k <= n,
            n == units.units@.len(),
            pool@ == eligible(units.units@.take(k as int), money),
        decreases n - k,
    {
        let u = &units.units[k];
        assert(units.units@.take((k + 1) as int).drop_last() =~= units.units@.take(k as int));
        if u.enabled && u.cost <= money {
            pool.push(Candidate { id: u.id, cost: u.cost });
        }
        k = k + 1;
    }
    assert(units.units@.take(n as int) =~= units.units@);
    let ghost pv = pool@;
    let pool_ref = &pool;
    let m = pool.len();
    let le = |i: usize, j: usize| -> (r: bool)
        requires
            i < pool_ref@.len(),
            j < pool_ref@.len(),
        ensures
            r == (pool_ref@[i as int].cost <= pool_ref@[j as int].cost),
        { pool_ref[i].cost <= pool_ref[j].cost };
    let order = stable_order(m, le, Ghost(cost_le(pv)));
    let mut cands: Vec<Candidate> = Vec::new();
    let mut a: usize = 0;
    while a < m
        invariant
            a <= m,
            m == pv.len(),
            pool@ == pv,
            stable_order_of(order@, m as int, cost_le(pv)),
            cands@ == order@.take(a as int).map_values(|i: usize| pv[i as int]),
        decreases m - a,
    {
        let i = order[a];
        cands.push(pool[i]);
        assert(order@.take((a + 1) as int) =~= order@.take(a as int).push(i));
        assert(cands@ =~= order@.take((a + 1) as int).map_values(|i: usize| pv[i as int]));
        a = a + 1;
    }
    assert(order@.take(m as int) =~= order@);
    assert(stable_order_of(order@, pv.len() as int, cost_le(pv)));
    proof {
        law_candidates_exact(units.units@, money, cands@);
        assert forall|x: int, y: int| 0 <= x < y < cands@.len() implies cands@[x].cost <= cands@[y].cost by {
            assert(cost_le(pv)(order@[x] as int, order@[y] as int));
        }
    }
    cands
}

/// The state of a draft as plain values: the candidates and the weighting
/// it draws with, the weights its distribution was made from, the money it
/// started with and what is left of it, the army so far (unit number to
/// count), and the candidate positions bought so far, in order.
pub struct DraftView {
    pub candidates: Seq<Candidate>,
    pub kind: int,
    pub weights: Seq<u32>,
    pub budget: u32,
    pub money_left: u32,
    pub army: Map<u32, u32>,
    pub purchases: Seq<int>,
}

/// What the purchases `ps` of candidates `c` cost together.
pub open spec fn spent(c: Seq<Candidate>, ps: Seq<int>) -> int
    decreases ps.len(),
{
    if ps.len() == 0 {
        0
    } else {
        spent(c, ps.drop_last()) + c[ps.last()].cost
    }
}

/// How many of the purchases `ps` of candidates `c` are of unit number `id`.
pub open spec fn bought(c: Seq<Candidate>, ps: Seq<int>, id: u32) -> nat
    decreases ps.len(),
{
    if ps.len() == 0 {
        0
    } else {
        bought(c, ps.drop_last(), id) + if c[ps.last()].id == id { 1nat } else { 0nat }
    }
}

/// The army counts exactly the purchases: a unit number is in it when it
/// was bought, with the number of times it was bought.
pub open spec fn tallies(army: Map<u32, u32>, c: Seq<Candidate>, ps: Seq<int>) -> bool {
    forall|id: u32|
        (#[trigger] army.contains_key(id) <==> bought(c, ps, id) > 0) && (army.contains_key(id) ==> army[id]
            == bought(c, ps, id))
}

/// The weights of the candidates `c` under weighting `kind`.
pub open spec fn weights_of(c: Seq<Candidate>, kind: int) -> Seq<u32> {
    c.map_values(|x: Candidate| weight_spec(kind, x.cost))
}

/// A draft state that the operations keep: there are candidates, the
/// weighting is one of the eight, the draft draws with the weights that
/// weighting gives the candidates, every purchase is of a candidate, what
/// was spent and what is left make up the budget, and the army counts the
/// purchases.
pub open spec fn draft_consistent(v: DraftView) -> bool {
    &&& v.candidates.len() > 0
    &&& 0 <= v.kind < WEIGHT_KINDS
    &&& v.weights == weights_of(v.candidates, v.kind)
    &&& forall|p: int| 0 <= p < v.purchases.len() ==> 0 <= #[trigger] v.purchases[p] < v.candidates.len()
    &&& v.money_left + spent(v.candidates, v.purchases) == v.budget
    &&& tallies(v.army, v.candidates, v.purchases)
}

/// Whether the round that draws candidate `r` buys it.
pub open spec fn buys(v: DraftView, r: int) -> bool {
    v.money_left >= MIN_FUNDS && v.money_left >= v.candidates[r].cost
}

/// The round that draws candidate `r` can count its purchase: it buys
/// nothing, or the count of the unit bought is below `u32::MAX`.
pub open spec fn can_count(v: DraftView, r: int) -> bool {
    let id = v.candidates[r].id;
    buys(v, r) ==> !v.army.contains_key(id) || v.army[id] < u32::MAX
}

/// The army after one more purchase of unit number `id`.
pub open spec fn count_one_more(army: Map<u32, u32>, id: u32) -> Map<u32, u32> {
    army.insert(id, (if army.contains_key(id) { army[id] + 1 } else { 1 }) as u32)
}

/// One round of the draft, after the candidate at position `r` was drawn:
/// with less than `MIN_FUNDS` left the draft stops; a candidate that costs
/// more than is left is passed over, and the draft stops only if it was the
/// cheapest one (position 0); otherwise the candidate is bought.
pub open spec fn draw_outcome(old: DraftView, r: int, new: DraftView, stop: bool) -> bool {
    let c = old.candidates[r];
    if old.money_left < MIN_FUNDS {
        stop && new == old
    } else if old.money_left < c.cost {
        stop == (r == 0) && new == old
    } else {
        &&& !stop
        &&& new == DraftView {
            money_left: (old.money_left - c.cost) as u32,
            army: count_one_more(old.army, c.id),
            purchases: old.purchases.push(r),
            ..old
        }
    }
}

/// A purchase of candidate `r` adds its cost to what was spent.
pub proof fn lemma_spent_push(c: Seq<Candidate>, ps: Seq<int>, r: int)
    ensures
        spent(c, ps.push(r)) == spent(c, ps) + c[r].cost,
{
    assert(ps.push(r).drop_last() =~= ps);
}

/// A purchase of candidate `r` counts once more for its unit number.
pub proof fn lemma_bought_push(c: Seq<Candidate>, ps: Seq<int>, r: int, id: u32)
    ensures
        bought(c, ps.push(r), id) == bought(c, ps, id) + if c[r].id == id { 1nat } else { 0nat },
{
    assert(ps.push(r).drop_last() =~= ps);
}

/// What was spent is never negative.
pub proof fn lemma_spent_nonnegative(c: Seq<Candidate>, ps: Seq<int>)
    ensures
        spent(c, ps) >= 0,
    decreases ps.len(),
{
    if ps.len() > 0 {
        lemma_spent_nonnegative(c, ps.drop_last());
    }
}

/// A unit number that was bought is the number of some candidate.
pub proof fn lemma_bought_is_candidate(c: Seq<Candidate>, ps: Seq<int>, id: u32)
    requires
        forall|p: int| 0 <= p < ps.len() ==> 0 <= #[trigger] ps[p] < c.len(),
        bought(c, ps, id) > 0,
    ensures
        exists|i: int| 0 <= i < c.len() && (#[trigger] c[i]).id == id,
    decreases ps.len(),
{
    let t = ps.drop_last();
    if c[ps.last()].id == id {
        assert(c[ps[ps.len() - 1]].id == id);
    } else {
        assert forall|p: int| 0 <= p < t.len() implies 0 <= #[trigger] t[p] < c.len() by {
            assert(t[p] == ps[p]);
        }
        lemma_bought_is_candidate(c, t, id);
    }
}

/// A list of positive weights has a positive sum.
pub proof fn lemma_weight_total_positive(w: Seq<u32>)
    requires
        w.len() > 0,
        forall|i: int| 0 <= i < w.len() ==> #[trigger] w[i] > 0,
    ensures
        weight_total(w) > 0,
    decreases w.len(),
{
    if w.len() > 1 {
        let t = w.drop_last();
        assert forall|i: int| 0 <= i < t.len() implies #[trigger] t[i] > 0 by {
            assert(t[i] == w[i]);
        }
        lemma_weight_total_positive(t);
        assert(w.last() == w[w.len() - 1]);
    } else {
        assert(weight_total(w.drop_last()) == 0);
        assert(w.last() == w[0]);
    }
}

/// The weights that weighting `kind` gives the units of `pool` fit the
/// weighted distribution: there are at most `u32::MAX` of them and none
/// exceeds `u32::MAX` divided by their number.
pub open spec fn weights_fit(pool: Seq<Candidate>, kind: int) -> bool {
    &&& pool.len() <= u32::MAX
    &&& forall|k: int| 0 <= k < pool.len() ==> (#[trigger] weight_spec(kind, pool[k].cost)) as int <= (u32::MAX as int) / (pool.len() as int)
}

/// Whether the weights fit does not depend on the order of the candidates.
pub proof fn lemma_weights_fit_arranged(cands: Seq<Candidate>, pool: Seq<Candidate>, kind: int)
    requires
        arranged_by_cost(cands, pool),
    ensures
        cands.len() == pool.len(),
        weights_fit(cands, kind) <==> weights_fit(pool, kind),
{
    let n = pool.len() as int;
    let order = choose|order: Seq<usize>| #[trigger] stable_order_of(order, n, cost_le(pool))
        && cands == order.map_values(|i: usize| pool[i as int]);
    if weights_fit(cands, kind) {
        assert forall|k: int| 0 <= k < pool.len() implies (#[trigger] weight_spec(kind, pool[k].cost)) as int <= (u32::MAX as int) / (pool.len() as int) by {
            assert(lists(order, k));
            let a = choose|a: int| 0 <= a < order.len() && order[a] == k;
            assert(cands[a] == pool[k]);
            assert(weight_spec(kind, cands[a].cost) as int <= (u32::MAX as int) / (cands.len() as int));
        }
    }
    if weights_fit(pool, kind) {
        assert forall|a: int| 0 <= a < cands.len() implies (#[trigger] weight_spec(kind, cands[a].cost)) as int <= (u32::MAX as int) / (cands.len() as int) by {
            assert(cands[a] == pool[order[a] as int]);
            assert(weight_spec(kind, pool[order[a] as int].cost) as int <= (u32::MAX as int) / (pool.len() as int));
        }
    }
}

/// The weights of the candidates of a roster fit whenever there are no
/// more than `u32::MAX / 98` of them.
pub proof fn law_small_pools_fit(pool: Seq<Candidate>, kind: int)
    requires
        0 <= kind < WEIGHT_KINDS,
        0 < pool.len() <= 43826196,
    ensures
        weights_fit(pool, kind),
{
    let n = pool.len() as int;
    assert((u32::MAX as int) / n >= 98) by (nonlinear_arith)
        requires
            0 < n <= 43826196,
    ;
    assert forall|k: int| 0 <= k < pool.len() implies (#[trigger] weight_spec(kind, pool[k].cost)) as int <= (u32::MAX as int) / (pool.len() as int) by {
        law_weights_positive_and_small(kind, pool[k].cost);
    }
}

/// A draft of an army: candidates are drawn at random, by weight, and bought
/// while the money lasts.
pub struct ArmyDraft {
    candidates: Vec<Candidate>,
    kind: usize,
    picker: WeightedPicker,
    budget: u32,
    money_left: u32,
    army: HashMap<u32, u32>,
    purchases: Ghost<Seq<int>>,
}

impl View for ArmyDraft {
    type V = DraftView;

    closed spec fn view(&self) -> DraftView {
        DraftView {
            candidates: self.candidates@,
            kind: self.kind as int,
            weights: picker_weights(self.picker),
            budget: self.budget,
            money_left: self.money_left,
            army: self.army@,
            purchases: self.purchases@,
        }
    }
}

/// How the start of a draft went.
pub enum DraftStart {
    /// No enabled unit costs the money or less: there is nothing to draft.
    NoCandidates,
    /// The draft is ready.
    Ready(ArmyDraft),
    /// The weights of the candidates do not fit the weighted distribution.
    WeightsRejected,
}

/// How a round with a random draw went.
pub enum Round {
    /// The draft goes on.
    GoOn,
    /// The draft is over.
    Over,
    /// The drawn unit would be bought, but its count is already `u32::MAX`;
    /// nothing changed.
    CountFull,
}

/// The draft that starts with candidates `cands`, weighting `kind` and
/// `money`: nothing bought yet.
pub open spec fn fresh_draft(cands: Seq<Candidate>, kind: int, money: u32) -> DraftView {
    DraftView {
        candidates: cands,
        kind,
        weights: weights_of(cands, kind),
        budget: money,
        money_left: money,
        army: Map::empty(),
        purchases: Seq::empty(),
    }
}

impl ArmyDraft {
    fn from_candidates(candidates: Vec<Candidate>, money: u32, kind: usize) -> (d: Option<ArmyDraft>)
        requires
            kind < WEIGHT_KINDS,
            0 < candidates@.len(),
        ensures
            d is None <==> !weights_fit(candidates@, kind as int),
            d matches Some(d) ==> d@ == fresh_draft(candidates@, kind as int, money) && draft_consistent(d@),
    {
        let n = candidates.len();
        let mut weights: Vec<u32> = Vec::new();
        let mut k: usize = 0;
        while k < n
            invariant
                k <= n,
                n == candidates@.len(),
                kind < WEIGHT_KINDS,
                weights@ == weights_of(candidates@.take(k as int), kind as int),
            decreases n - k,
        {
            let w = weight(kind, candidates[k].cost);
            weights.push(w);
            assert(weights@ =~= weights_of(candidates@.take((k + 1) as int), kind as int));
            k = k + 1;
        }
        assert(candidates@.take(n as int) =~= candidates@);
        let ghost wv = weights@;
        proof {
            assert forall|i: int| 0 <= i < wv.len() implies #[trigger] wv[i] > 0 by {
                law_weights_positive_and_small(kind as int, candidates@[i].cost);
            }
            lemma_weight_total_positive(wv);
            if weights_fit(candidates@, kind as int) {
                assert forall|i: int| 0 <= i < wv.len() implies #[trigger] wv[i] <= (u32::MAX as int) / (wv.len() as int) by {
                    assert(wv[i] == weight_spec(kind as int, candidates@[i].cost));
                }
            } else {
                if wv.len() <= u32::MAX {
                    let k = choose|k: int| 0 <= k < candidates@.len() && !((#[trigger] weight_spec(kind as int, candidates@[k].cost)) as int <= (u32::MAX as int) / (candidates@.len() as int));
                    assert(wv[k] == weight_spec(kind as int, candidates@[k].cost));
                }
            }
        }
        match weighted_index(weights) {
            Ok(picker) => {
                let army: HashMap<u32, u32> = HashMap::new();
                let d = ArmyDraft {
                    candidates,
                    kind,
                    picker,
                    budget: money,
                    money_left: money,
                    army,
                    purchases: Ghost(Seq::empty()),
                };
                proof {
                    assert(d@.army =~= Map::<u32, u32>::empty());
                    assert(tallies(d@.army, d@.candidates, d@.purchases));
                    assert(d@ == fresh_draft(candidates@, kind as int, money));
                }
                Some(d)
            },
            Err(_) => None,
        }
    }

    /// A draft of an army from the roster with `money`, drawing with the
    /// weighting `kind`. There is none when no enabled unit costs `money` or
    /// less, and none when the weights of the candidates do not fit the
    /// weighted distribution (only possible past `u32::MAX / 98` candidates).
    pub fn prepare(units: &TabUnits, money: u32, kind: usize) -> (d: DraftStart)
        requires
            kind < WEIGHT_KINDS,
        ensures
            d is NoCandidates <==> eligible(units.units@, money).len() == 0,
            d is WeightsRejected <==> eligible(units.units@, money).len() > 0 && !weights_fit(eligible(units.units@, money), kind as int),
            d matches DraftStart::Ready(d) ==> {
                &&& draft_consistent(d@)
                &&& arranged_by_cost(d@.candidates, eligible(units.units@, money))
                &&& d@ == fresh_draft(d@.candidates, kind as int, money)
            },
    {
        proof { lemma_eligible_from_roster(units.units@, money); }
        let candidates = army_candidates(units, money);
        let ghost cv = candidates@;
        if candidates.len() == 0 {
            DraftStart::NoCandidates
        } else {
            proof { lemma_weights_fit_arranged(cv, eligible(units.units@, money), kind as int); }
            match ArmyDraft::from_candidates(candidates, money, kind) {
                Some(d) => DraftStart::Ready(d),
                None => DraftStart::WeightsRejected,
            }
        }
    }

    /// A draft of an army from the roster with `money`, drawing with a
    /// weighting picked at random. There is none when no enabled unit costs
    /// `money` or less (and then nothing is drawn), and none when the
    /// weights of the candidates under the weighting picked do not fit the
    /// weighted distribution.
    pub fn start(units: &TabUnits, money: u32, rng: &mut ThreadRng) -> (d: DraftStart)
        ensures
            d is NoCandidates <==> eligible(units.units@, money).len() == 0,
            d is WeightsRejected ==> exists|kind: int| 0 <= kind < WEIGHT_KINDS && !weights_fit(eligible(units.units@, money), kind),
            d matches DraftStart::Ready(d) ==> {
                &&& draft_consistent(d@)
                &&& arranged_by_cost(d@.candidates, eligible(units.units@, money))
                &&& d@ == fresh_draft(d@.candidates, d@.kind, money)
            },
            eligible(units.units@, money).len() > 0 && (forall|kind: int| 0 <= kind < WEIGHT_KINDS ==> weights_fit(eligible(units.units@, money), kind))
                ==> d is Ready,
    {
        proof { lemma_eligible_from_roster(units.units@, money); }
        let candidates = army_candidates(units, money);
        let ghost cv = candidates@;
        if candidates.len() == 0 {
            DraftStart::NoCandidates
        } else {
            let kind = random_below(rng, WEIGHT_KINDS);
            proof { lemma_weights_fit_arranged(cv, eligible(units.units@, money), kind as int); }
            match ArmyDraft::from_candidates(candidates, money, kind) {
                Some(d) => DraftStart::Ready(d),
                None => DraftStart::WeightsRejected,
            }
        }
    }

    /// The money not spent yet.
    pub fn money_left(&self) -> (m: u32)
        ensures
            m == self@.money_left,
    {
        self.money_left
    }

    /// The weighting the draft draws with.
    pub fn kind(&self) -> (k: usize)
        ensures
            k == self@.kind,
    {
        self.kind
    }

    /// The money the draft started with.
    pub fn budget(&self) -> (b: u32)
        ensures
            b == self@.budget,
    {
        self.budget
    }

    /// The candidate at position `i`.
    pub fn candidate(&self, i: usize) -> (c: Candidate)
        requires
            i < self@.candidates.len(),
        ensures
            c == self@.candidates[i as int],
    {
        self.candidates[i]
    }

    /// The number of candidates.
    pub fn candidate_count(&self) -> (n: usize)
        ensures
            n == self@.candidates.len(),
    {
        self.candidates.len()
    }

    /// Whether the round that draws candidate `r` can count its purchase.
    pub fn can_count_round(&self, r: usize) -> (ok: bool)
        requires
            draft_consistent(self@),
            r < self@.candidates.len(),
        ensures
            ok == can_count(self@, r as int),
    {
        let c = self.candidates[r];
        if self.money_left < MIN_FUNDS || self.money_left < c.cost {
            return true;
        }
        match self.army.get(&c.id) {
            Some(n) => *n < u32::MAX,
            None => true,
        }
    }

    /// One round of the draft, after the candidate at position `r` was
    /// drawn. Returns whether the draft is over.
    pub fn draw(&mut self, r: usize) -> (stop: bool)
        requires
            draft_consistent(old(self)@),
            r < old(self)@.candidates.len(),
            can_count(old(self)@, r as int),
        ensures
            draft_consistent(final(self)@),
            draw_outcome(old(self)@, r as int, final(self)@, stop),
    {
        if self.money_left < MIN_FUNDS {
            return true;
        }
        let c = self.candidates[r];
        if self.money_left < c.cost {
            return r == 0;
        }
        let count: u32 = match self.army.get(&c.id) {
            Some(n) => *n,
            None => 0,
        };
        let ghost old_view = self@;
        self.army.insert(c.id, count + 1);
        self.money_left = self.money_left - c.cost;
        self.purchases = Ghost(self.purchases@.push(r as int));
        proof {
            lemma_spent_push(old_view.candidates, old_view.purchases, r as int);
            assert(self@.army =~= count_one_more(old_view.army, c.id));
            assert forall|id: u32| (#[trigger] self@.army.contains_key(id) <==> bought(self@.candidates, self@.purchases, id) > 0)
                && (self@.army.contains_key(id) ==> self@.army[id] == bought(self@.candidates, self@.purchases, id)) by {
                lemma_bought_push(old_view.candidates, old_view.purchases, r as int, id);
                assert(old_view.army.contains_key(id) <==> bought(old_view.candidates, old_view.purchases, id) > 0);
            }
            assert forall|p: int| 0 <= p < self@.purchases.len() implies 0 <= #[trigger] self@.purchases[p] < self@.candidates.len() by {
                if p < old_view.purchases.len() {
                    assert(self@.purchases[p] == old_view.purchases[p]);
                }
            }
        }
        false
    }

    /// One round of the draft with a candidate drawn at random, by the
    /// draft's weights. When the drawn unit would be bought but its count
    /// cannot grow, nothing changes and `CountFull` comes back.
    pub fn draw_random(&mut self, rng: &mut ThreadRng) -> (round: Round)
        requires
            draft_consistent(old(self)@),
        ensures
            draft_consistent(final(self)@),
            exists|r: int| 0 <= r < old(self)@.weights.len() && {
                if can_count(old(self)@, r) {
                    &&& !(round is CountFull)
                    &&& draw_outcome(old(self)@, r, final(self)@, round is Over)
                } else {
                    &&& round is CountFull
                    &&& final(self)@ == old(self)@
                }
            },
    {
        let r = draw_index(&self.picker, rng);
        if !self.can_count_round(r) {
            return Round::CountFull;
        }
        let stop = self.draw(r);
        if stop { Round::Over } else { Round::GoOn }
    }

    /// The army drafted: unit number to count.
    pub fn into_army(self) -> (army: HashMap<u32, u32>)
        ensures
            army@ == self@.army,
    {
        self.army
    }
}

/// What a draft spends never exceeds its budget.
pub proof fn law_spending_within_budget(v: DraftView)
    requires
        draft_consistent(v),
    ensures
        0 <= spent(v.candidates, v.purchases) <= v.budget,
{
    lemma_spent_nonnegative(v.candidates, v.purchases);
}

/// Every unit number in a draft's army is the number of one of its
/// candidates, counted as many times as it was bought.
pub proof fn law_army_holds_only_candidates(v: DraftView)
    requires
        draft_consistent(v),
    ensures
        forall|id: u32| #[trigger] v.army.contains_key(id) ==> exists|i: int| 0 <= i < v.candidates.len() && (#[trigger] v.candidates[i]).id == id,
        forall|id: u32| #[trigger] v.army.contains_key(id) ==> v.army[id] == bought(v.candidates, v.purchases, id),
{
    assert forall|id: u32| #[trigger] v.army.contains_key(id) implies exists|i: int| 0 <= i < v.candidates.len() && (#[trigger] v.candidates[i]).id == id by {
        lemma_bought_is_candidate(v.candidates, v.purchases, id);
    }
}

/// A round keeps a draft consistent, whatever was drawn.
pub proof fn law_draw_keeps_consistency(old: DraftView, r: int, new: DraftView, stop: bool)
    requires
        draft_consistent(old),
        0 <= r < old.candidates.len(),
        can_count(old, r),
        draw_outcome(old, r, new, stop),
    ensures
        draft_consistent(new),
        new.budget == old.budget,
        new.candidates == old.candidates,
        new.weights == old.weights,
        new.money_left <= old.money_left,
{
    let c = old.candidates[r];
    if old.money_left >= MIN_FUNDS && old.money_left >= c.cost {
        lemma_spent_push(old.candidates, old.purchases, r);
        assert forall|id: u32| (#[trigger] new.army.contains_key(id) <==> bought(new.candidates, new.purchases, id) > 0)
            && (new.army.contains_key(id) ==> new.army[id] == bought(new.candidates, new.purchases, id)) by {
            lemma_bought_push(old.candidates, old.purchases, r, id);
            assert(old.army.contains_key(id) <==> bought(old.candidates, old.purchases, id) > 0);
        }
        assert forall|p: int| 0 <= p < new.purchases.len() implies 0 <= #[trigger] new.purchases[p] < new.candidates.len() by {
            if p < old.purchases.len() {
                assert(new.purchases[p] == old.purchases[p]);
            }
        }
    }
}

/// A draft goes on only while at least `MIN_FUNDS` is left; it stops with
/// money to spare only when the cheapest candidate was drawn and is out of
/// reach; and a drawn candidate out of reach is never bought.
pub proof fn law_draw_stops_only_when_out_of_funds(old: DraftView, r: int, new: DraftView, stop: bool)
    requires
        draft_consistent(old),
        0 <= r < old.candidates.len(),
        draw_outcome(old, r, new, stop),
    ensures
        !stop ==> old.money_left >= MIN_FUNDS,
        stop ==> old.money_left < MIN_FUNDS || (r == 0 && old.money_left < old.candidates[0].cost),
        old.money_left < old.candidates[r].cost ==> new == old,
{
}

/// The candidates of a prepared draft are all enabled units of the roster
/// that the budget pays for, and the first one is the cheapest.
pub proof fn law_candidates_affordable(units: Seq<TabUnit>, money: u32, cands: Seq<Candidate>)
    requires
        arranged_by_cost(cands, eligible(units, money)),
    ensures
        forall|i: int| 0 <= i < cands.len() ==> drawn_from(units, money, #[trigger] cands[i]),
        forall|i: int| 0 <= i < cands.len() ==> cands[0].cost <= #[trigger] cands[i].cost,
{
    let pool = eligible(units, money);
    lemma_eligible_from_roster(units, money);
    let order = choose|order: Seq<usize>| #[trigger] stable_order_of(order, pool.len() as int, cost_le(pool))
        && cands == order.map_values(|i: usize| pool[i as int]);
    assert forall|i: int| 0 <= i < cands.len() implies drawn_from(units, money, #[trigger] cands[i]) by {
        assert(cands[i] == pool[order[i] as int]);
    }
    assert forall|i: int| 0 <= i < cands.len() implies cands[0].cost <= #[trigger] cands[i].cost by {
        if i > 0 {
            assert(cost_le(pool)(order[0] as int, order[i] as int));
        }
    }
}

} // verus!
