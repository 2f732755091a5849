//! Army builder for a unit roster: the roster and its selection rules, the
//! price control, the random army draft and the table layouts.

pub mod text;
pub mod unit;
pub mod roster;
pub mod army;
pub mod catalogue;
pub mod layout;
pub mod price;
pub mod random;
pub mod sort;
