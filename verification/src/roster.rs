use vstd::prelude::*;

use crate::unit::{unit_description, with_enabled, TabUnit};

verus! {

/// The roster: every unit that can be drafted, in catalogue order.
pub struct TabUnits {
    pub units: Vec<TabUnit>,
}

/// Every unit's number is a valid position in the roster, so that a
/// replacement by number never falls outside it.
pub open spec fn ids_in_range(s: Seq<TabUnit>) -> bool {
    forall|i: int| 0 <= i < s.len() ==> #[trigger] s[i].id < s.len()
}

/// Every unit's number is its own position in the roster, as in the
/// catalogue.
pub open spec fn ids_match_positions(s: Seq<TabUnit>) -> bool {
    forall|i: int| 0 <= i < s.len() ==> #[trigger] s[i].id == i
}

/// Whether a selection for `clan` (every faction when `None`) concerns unit `u`.
pub open spec fn concerns(u: TabUnit, clan: Option<Seq<char>>) -> bool {
    match clan {
        Some(c) => u.faction@ == c,
        None => true,
    }
}

/// One step of a selection pass: the unit at position `k` is read, and if
/// the selection concerns it, it is written back, with the flag `on`, at
/// the position its number names.
pub open spec fn mark_step(t: Seq<TabUnit>, k: int, clan: Option<Seq<char>>, on: bool) -> Seq<TabUnit> {
    let u = t[k];
    if concerns(u, clan) {
        t.update(u.id as int, with_enabled(u, on))
    } else {
        t
    }
}

/// The first `n` steps of a selection pass over the roster `s`, in order.
pub open spec fn mark_pass(s: Seq<TabUnit>, n: nat, clan: Option<Seq<char>>, on: bool) -> Seq<TabUnit>
    decreases n,
{
    if n == 0 {
        s
    } else {
        mark_step(mark_pass(s, (n - 1) as nat, clan, on), n - 1, clan, on)
    }
}

/// The view of an optional faction name.
pub open spec fn clan_view(clan: Option<&String>) -> Option<Seq<char>> {
    match clan {
        Some(c) => Some(c@),
        None => None,
    }
}

/// Step `k` of a selection pass names a position inside the roster: the
/// unit read is not concerned, or its number is a position.
pub open spec fn step_fits(t: Seq<TabUnit>, k: int, clan: Option<Seq<char>>) -> bool {
    concerns(t[k], clan) ==> t[k].id < t.len()
}

/// The first `n` steps of a selection pass over `s` all name positions
/// inside the roster: the pass runs them without going out of bounds.
pub open spec fn pass_fits(s: Seq<TabUnit>, n: nat, clan: Option<Seq<char>>, on: bool) -> bool
    decreases n,
{
    if n == 0 {
        true
    } else {
        pass_fits(s, (n - 1) as nat, clan, on) && step_fits(mark_pass(s, (n - 1) as nat, clan, on), n - 1, clan)
    }
}

/// A pass that fits for `n` steps fits for fewer.
pub proof fn lemma_pass_fits_prefix(s: Seq<TabUnit>, n: nat, m: nat, clan: Option<Seq<char>>, on: bool)
    requires
        pass_fits(s, n, clan, on),
        m <= n,
    ensures
        pass_fits(s, m, clan, on),
    decreases n,
{
    if m < n {
        lemma_pass_fits_prefix(s, (n - 1) as nat, m, clan, on);
    }
}

/// A pass that fits keeps the length of the roster.
pub proof fn lemma_pass_fits_len(s: Seq<TabUnit>, n: nat, clan: Option<Seq<char>>, on: bool)
    requires
        pass_fits(s, n, clan, on),
        n <= s.len(),
    ensures
        mark_pass(s, n, clan, on).len() == s.len(),
    decreases n,
{
    if n > 0 {
        lemma_pass_fits_len(s, (n - 1) as nat, clan, on);
    }
}

/// When every number is a position, every selection pass fits.
pub proof fn lemma_in_range_fits(s: Seq<TabUnit>, n: nat, clan: Option<Seq<char>>, on: bool)
    requires
        ids_in_range(s),
        n <= s.len(),
    ensures
        pass_fits(s, n, clan, on),
    decreases n,
{
    if n > 0 {
        lemma_in_range_fits(s, (n - 1) as nat, clan, on);
        lemma_mark_pass_in_range(s, (n - 1) as nat, clan, on);
        let t = mark_pass(s, (n - 1) as nat, clan, on);
        assert(t[n - 1].id < t.len());
    }
}

/// The roster after "enable all".
pub open spec fn select_all_spec(s: Seq<TabUnit>) -> Seq<TabUnit> {
    mark_pass(s, s.len(), None, true)
}

/// The roster after "disable all".
pub open spec fn disable_all_spec(s: Seq<TabUnit>) -> Seq<TabUnit> {
    mark_pass(s, s.len(), None, false)
}

/// The roster after enabling the faction `clan`.
pub open spec fn select_clan_spec(s: Seq<TabUnit>, clan: Seq<char>) -> Seq<TabUnit> {
    mark_pass(s, s.len(), Some(clan), true)
}

/// The roster after a click on the unit at position `index`: the unit there
/// is written back, with its flag flipped, at the position its number names.
pub open spec fn toggle_spec(s: Seq<TabUnit>, index: int) -> Seq<TabUnit> {
    s.update(s[index].id as int, with_enabled(s[index], !s[index].enabled))
}

/// The description of a roster: one unit description per line.
pub open spec fn roster_description(s: Seq<TabUnit>) -> Seq<char>
    decreases s.len(),
{
    if s.len() == 0 {
        Seq::empty()
    } else {
        roster_description(s.drop_last()) + unit_description(s.last()@) + "\n"@
    }
}

/// A selection pass keeps the length of the roster, and keeps every number
/// a valid position.
pub proof fn lemma_mark_pass_in_range(s: Seq<TabUnit>, n: nat, clan: Option<Seq<char>>, on: bool)
    requires
        ids_in_range(s),
        n <= s.len(),
    ensures
        mark_pass(s, n, clan, on).len() == s.len(),
        ids_in_range(mark_pass(s, n, clan, on)),
    decreases n,
{
    if n > 0 {
        lemma_mark_pass_in_range(s, (n - 1) as nat, clan, on);
        let t = mark_pass(s, (n - 1) as nat, clan, on);
        let r = mark_pass(s, n, clan, on);
        assert forall|i: int| 0 <= i < r.len() implies #[trigger] r[i].id < r.len() by {
            assert(t[i].id < t.len());
            assert(t[n - 1].id < t.len());
        }
    }
}

/// On a roster whose numbers are positions, a selection pass over the first
/// `n` units sets the flag of each concerned one among them and touches
/// nothing else.
pub proof fn lemma_mark_pass_positions(s: Seq<TabUnit>, n: nat, clan: Option<Seq<char>>, on: bool)
    requires
        ids_match_positions(s),
        n <= s.len(),
    ensures
        mark_pass(s, n, clan, on).len() == s.len(),
        forall|j: int| 0 <= j < s.len() ==> #[trigger] mark_pass(s, n, clan, on)[j] == (if j < n && concerns(s[j], clan) {
            with_enabled(s[j], on)
        } else {
            s[j]
        }),
    decreases n,
{
    if n > 0 {
        lemma_mark_pass_positions(s, (n - 1) as nat, clan, on);
        let t = mark_pass(s, (n - 1) as nat, clan, on);
        assert(t[n - 1] == s[n - 1]);
        assert(s[n - 1].id == n - 1);
    }
}

/// "Enable all" twice is "enable all" once.
pub proof fn law_select_all_idempotent(s: Seq<TabUnit>)
    requires
        ids_match_positions(s),
    ensures
        select_all_spec(select_all_spec(s)) == select_all_spec(s),
{
    let a = select_all_spec(s);
    lemma_mark_pass_positions(s, s.len(), None, true);
    assert(ids_match_positions(a));
    lemma_mark_pass_positions(a, a.len(), None, true);
    assert(select_all_spec(a) =~= a);
}

/// After "enable all", every unit is enabled, whatever the flags were
/// before: "enable all" after "disable all" is "enable all" alone.
pub proof fn law_select_all_forgets_flags(s: Seq<TabUnit>)
    requires
        ids_match_positions(s),
    ensures
        select_all_spec(disable_all_spec(s)) == select_all_spec(s),
        forall|j: int| 0 <= j < s.len() ==> #[trigger] select_all_spec(s)[j].enabled,
{
    let d = disable_all_spec(s);
    lemma_mark_pass_positions(s, s.len(), None, false);
    lemma_mark_pass_positions(s, s.len(), None, true);
    assert(ids_match_positions(d));
    lemma_mark_pass_positions(d, d.len(), None, true);
    assert(select_all_spec(d) =~= select_all_spec(s));
}

/// After "disable all" and then the selection of a faction, exactly the
/// units of that faction are enabled, and no unit changed otherwise.
pub proof fn law_clan_selection_from_blank(s: Seq<TabUnit>, clan: Seq<char>)
    requires
        ids_match_positions(s),
    ensures
        select_clan_spec(disable_all_spec(s), clan).len() == s.len(),
        forall|j: int| 0 <= j < s.len() ==> #[trigger] select_clan_spec(disable_all_spec(s), clan)[j]
            == with_enabled(s[j], s[j].faction@ == clan),
{
    let d = disable_all_spec(s);
    lemma_mark_pass_positions(s, s.len(), None, false);
    assert(ids_match_positions(d));
    lemma_mark_pass_positions(d, d.len(), Some(clan), true);
}

/// Two clicks on the same unit leave the roster as it was.
pub proof fn law_toggle_twice(s: Seq<TabUnit>, index: int)
    requires
        ids_match_positions(s),
        0 <= index < s.len(),
    ensures
        toggle_spec(toggle_spec(s, index), index) == s,
{
    let t = toggle_spec(s, index);
    assert(s[index].id == index);
    assert(toggle_spec(t, index) =~= s);
}

impl TabUnits {
    /// An empty roster.
    pub fn new() -> (r: TabUnits)
        ensures
            r.units@ == Seq::<TabUnit>::empty(),
    {
        TabUnits { units: Vec::new() }
    }

    /// The number of units.
    pub fn len(&self) -> (n: usize)
        ensures
            n == self.units@.len(),
    {
        self.units.len()
    }

    /// Appends a unit at the end of the roster.
    pub fn add(&mut self, unit: TabUnit)
        ensures
            final(self).units@ == old(self).units@.push(unit),
    {
        self.units.push(unit);
    }

    /// Puts `unit` at position `unit_id`, in place of the unit there.
    pub fn replace(&mut self, unit_id: u32, unit: TabUnit)
        requires
            unit_id < old(self).units@.len(),
        ensures
            final(self).units@ == old(self).units@.update(unit_id as int, unit),
    {
        let x: usize = unit_id as usize;
        self.units.set(x, unit);
    }

    fn copy(&self) -> (r: TabUnits)
        ensures
            r.units@ == self.units@,
    {
        let n = self.units.len();
        let mut units: Vec<TabUnit> = Vec::new();
        let mut k: usize = 0;
        while k < n
            invariant
                k <= n,
                n == self.units@.len(),
                units@ == self.units@.take(k as int),
            decreases n - k,
        {
            units.push(self.units[k].clone());
            assert(units@ =~= self.units@.take((k + 1) as int));
            k = k + 1;
        }
        assert(units@ =~= self.units@);
        TabUnits { units }
    }

    /// Runs a selection pass, stopping at the first step that would name a
    /// position outside the roster. Returns whether the whole pass ran.
    fn mark_checked(&mut self, clan: Option<&String>, on: bool) -> (ok: bool)
        ensures
            ok == pass_fits(old(self).units@, old(self).units@.len(), clan_view(clan), on),
            ok ==> final(self).units@ == mark_pass(old(self).units@, old(self).units@.len(), clan_view(clan), on),
    {
        let n = self.units.len();
        let ghost s0 = self.units@;
        let ghost cv = clan_view(clan);
        let mut k: usize = 0;
        while k < n
            invariant
                k <= n,
                n == s0.len(),
                s0 == old(self).units@,
                cv == clan_view(clan),
                pass_fits(s0, k as nat, cv, on),
                self.units@ == mark_pass(s0, k as nat, cv, on),
                self.units@.len() == n,
            decreases n - k,
        {
            let u = self.units[k].clone();
            let concerned = match clan {
                Some(c) => u.faction == *c,
                None => true,
            };
            if concerned {
                let id = u.id;
                if id as usize >= n {
                    proof {
                        assert(concerns(self.units@[k as int], cv));
                        assert(!step_fits(mark_pass(s0, k as nat, cv, on), k as int, cv));
                        if pass_fits(s0, n as nat, cv, on) {
                            lemma_pass_fits_prefix(s0, n as nat, (k + 1) as nat, cv, on);
                            assert(false);
                        }
                    }
                    return false;
                }
                let marked = TabUnit { enabled: on, ..u };
                assert(marked == with_enabled(self.units@[k as int], on));
                self.replace(id, marked);
            }
            k = k + 1;
        }
        true
    }

    fn mark(&mut self, clan: Option<&String>, on: bool)
        requires
            pass_fits(old(self).units@, old(self).units@.len(), clan_view(clan), on),
        ensures
            final(self).units@ == mark_pass(old(self).units@, old(self).units@.len(), clan_view(clan), on),
            final(self).units@.len() == old(self).units@.len(),
    {
        let ghost s = self.units@;
        let ok = self.mark_checked(clan, on);
        proof { lemma_pass_fits_len(s, s.len(), clan_view(clan), on); }
    }

    /// Whether the selection pass for `clan` (every faction when `None`)
    /// with flag `on` runs without naming a position outside the roster.
    pub fn selection_fits(&self, clan: Option<&String>, on: bool) -> (ok: bool)
        ensures
            ok == pass_fits(self.units@, self.units@.len(), clan_view(clan), on),
    {
        let mut scratch = self.copy();
        scratch.mark_checked(clan, on)
    }

    /// Enables every unit.
    pub fn select_all(&mut self)
        requires
            pass_fits(old(self).units@, old(self).units@.len(), None, true),
        ensures
            final(self).units@ == select_all_spec(old(self).units@),
            final(self).units@.len() == old(self).units@.len(),
            ids_in_range(old(self).units@) ==> ids_in_range(final(self).units@),
            ids_match_positions(old(self).units@) ==> {
                &&& ids_match_positions(final(self).units@)
                &&& forall|j: int| 0 <= j < old(self).units@.len() ==>
                    #[trigger] final(self).units@[j] == with_enabled(old(self).units@[j], true)
            },
    {
        let ghost s = self.units@;
        self.mark(None, true);
        proof {
            if ids_in_range(s) { lemma_mark_pass_in_range(s, s.len(), None, true); }
            if ids_match_positions(s) {
                lemma_mark_pass_positions(s, s.len(), None, true);
            }
        }
    }

    /// Disables every unit.
    pub fn disable_all(&mut self)
        requires
            pass_fits(old(self).units@, old(self).units@.len(), None, false),
        ensures
            final(self).units@ == disable_all_spec(old(self).units@),
            final(self).units@.len() == old(self).units@.len(),
            ids_in_range(old(self).units@) ==> ids_in_range(final(self).units@),
            ids_match_positions(old(self).units@) ==> {
                &&& ids_match_positions(final(self).units@)
                &&& forall|j: int| 0 <= j < old(self).units@.len() ==>
                    #[trigger] final(self).units@[j] == with_enabled(old(self).units@[j], false)
            },
    {
        let ghost s = self.units@;
        self.mark(None, false);
        proof {
            if ids_in_range(s) { lemma_mark_pass_in_range(s, s.len(), None, false); }
            if ids_match_positions(s) {
                lemma_mark_pass_positions(s, s.len(), None, false);
            }
        }
    }

    /// Enables every unit of the faction `clan`; the others keep their flag.
    pub fn select_clan(&mut self, clan: String)
        requires
            pass_fits(old(self).units@, old(self).units@.len(), Some(clan@), true),
        ensures
            final(self).units@ == select_clan_spec(old(self).units@, clan@),
            final(self).units@.len() == old(self).units@.len(),
            ids_in_range(old(self).units@) ==> ids_in_range(final(self).units@),
            ids_match_positions(old(self).units@) ==> {
                &&& ids_match_positions(final(self).units@)
                &&& forall|j: int| 0 <= j < old(self).units@.len() ==>
                    #[trigger] final(self).units@[j] == (if old(self).units@[j].faction@ == clan@ {
                        with_enabled(old(self).units@[j], true)
                    } else {
                        old(self).units@[j]
                    })
            },
    {
        let ghost s = self.units@;
        self.mark(Some(&clan), true);
        proof {
            if ids_in_range(s) { lemma_mark_pass_in_range(s, s.len(), Some(clan@), true); }
            if ids_match_positions(s) {
                lemma_mark_pass_positions(s, s.len(), Some(clan@), true);
            }
        }
    }

    /// A click on the unit at position `index`: that unit is written back,
    /// with its flag flipped, at the position its number names. Returns the
    /// flag now held at `index`.
    pub fn toggle_unit(&mut self, index: usize) -> (now_enabled: bool)
        requires
            index < old(self).units@.len(),
            old(self).units@[index as int].id < old(self).units@.len(),
        ensures
            final(self).units@ == toggle_spec(old(self).units@, index as int),
            now_enabled == final(self).units@[index as int].enabled,
    {
        let u = self.units[index].clone();
        let id = u.id;
        let flipped = !u.enabled;
        let marked = TabUnit { enabled: flipped, ..u };
        self.replace(id, marked);
        self.units[index].enabled
    }

    /// The description of the roster: one unit description per line.
    pub fn describe(&self) -> (s: String)
        ensures
            s@ == roster_description(self.units@),
    {
        let mut s = String::new();
        let n = self.units.len();
        let mut k: usize = 0;
        while k < n
            invariant
                k <= n,
                n == self.units@.len(),
                s@ == roster_description(self.units@.take(k as int)),
            decreases n - k,
        {
            self.units[k].push_description(&mut s);
            s.append("\n");
            assert(self.units@.take((k + 1) as int).drop_last() =~= self.units@.take(k as int));
            k = k + 1;
        }
        assert(self.units@.take(n as int) =~= self.units@);
        s
    }
}

} // verus!
