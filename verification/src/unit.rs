use vstd::prelude::*;

use crate::text::{bool_word, decimal, push_bool, push_decimal};

verus! {

/// One unit of the roster: its number, the picture that shows it, its
/// name, the faction it belongs to, what it costs and whether it may be
/// drafted into an army.
pub struct TabUnit {
    pub id: u32,
    pub file_name: String,
    pub unit_name: String,
    pub faction: String,
    pub cost: u32,
    pub enabled: bool,
}

/// A unit as plain values.
pub struct UnitView {
    pub id: u32,
    pub file_name: Seq<char>,
    pub unit_name: Seq<char>,
    pub faction: Seq<char>,
    pub cost: u32,
    pub enabled: bool,
}

impl View for TabUnit {
    type V = UnitView;

    open spec fn view(&self) -> UnitView {
        UnitView {
            id: self.id,
            file_name: self.file_name@,
            unit_name: self.unit_name@,
            faction: self.faction@,
            cost: self.cost,
            enabled: self.enabled,
        }
    }
}

impl Clone for TabUnit {
    fn clone(&self) -> (r: Self)
        ensures
            r == *self,
    {
        TabUnit {
            id: self.id,
            file_name: self.file_name.clone(),
            unit_name: self.unit_name.clone(),
            faction: self.faction.clone(),
            cost: self.cost,
            enabled: self.enabled,
        }
    }
}

/// The unit `u` with its `enabled` flag set to `on`, all else kept.
pub open spec fn with_enabled(u: TabUnit, on: bool) -> TabUnit {
    TabUnit { enabled: on, ..u }
}

/// The one-line description of a unit:
/// `{ id: 3, file_name: 4.png, unit_name: Stoner, faction: Tribal, cost: 160, enabled: true } :: TabUnit`.
pub open spec fn unit_description(u: UnitView) -> Seq<char> {
    "{ id: "@ + decimal(u.id as nat) + ", file_name: "@ + u.file_name + ", unit_name: "@
        + u.unit_name + ", faction: "@ + u.faction + ", cost: "@ + decimal(u.cost as nat)
        + ", enabled: "@ + bool_word(u.enabled) + " } :: TabUnit"@
}

impl TabUnit {
    /// Builds a unit from its parts.
    pub fn new(id: u32, file_name: &str, unit_name: &str, faction: &str, cost: u32, enabled: bool) -> (u: TabUnit)
        ensures
            u@ == (UnitView {
                id,
                file_name: file_name@,
                unit_name: unit_name@,
                faction: faction@,
                cost,
                enabled,
            }),
    {
        TabUnit {
            id,
            file_name: String::from_str(file_name),
            unit_name: String::from_str(unit_name),
            faction: String::from_str(faction),
            cost,
            enabled,
        }
    }

    /// Appends the description of this unit to `out`.
    pub fn push_description(&self, out: &mut String)
        ensures
            final(out)@ == old(out)@ + unit_description(self@),
    {
        out.append("{ id: ");
        push_decimal(out, self.id);
        out.append(", file_name: ");
        out.append(self.file_name.as_str());
        out.append(", unit_name: ");
        out.append(self.unit_name.as_str());
        out.append(", faction: ");
        out.append(self.faction.as_str());
        out.append(", cost: ");
        push_decimal(out, self.cost);
        out.append(", enabled: ");
        push_bool(out, self.enabled);
        out.append(" } :: TabUnit");
        assert(final(out)@ =~= old(out)@ + unit_description(self@));
    }

    /// The description of this unit.
    pub fn describe(&self) -> (s: String)
        ensures
            s@ == unit_description(self@),
    {
        let mut s = String::new();
        self.push_description(&mut s);
        assert(s@ =~= unit_description(self@));
        s
    }
}

} // verus!
