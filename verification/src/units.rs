//! The unit table: the units a number literal can carry, their names, and
//! for each kind of quantity the ordered list of units it accepts.

use vstd::prelude::*;

verus! {

/// The unit of a number literal.
#[derive(Clone, Copy, Debug, PartialEq, Eq, Structural)]
pub enum Unit {
    /// No unit: a plain number.
    Unitless,
    Percent,
    /// Physical pixels.
    Phx,
    /// Logical pixels.
    Px,
    Cm,
    Mm,
    In,
    Pt,
    Rem,
    S,
    Ms,
    Deg,
    Grad,
    Turn,
    Rad,
}

/// The name of a unit as it is written behind a number.
pub open spec fn unit_name(u: Unit) -> Seq<char> {
    match u {
        Unit::Unitless => ""@,
        Unit::Percent => "%"@,
        Unit::Phx => "phx"@,
        Unit::Px => "px"@,
        Unit::Cm => "cm"@,
        Unit::Mm => "mm"@,
        Unit::In => "in"@,
        Unit::Pt => "pt"@,
        Unit::Rem => "rem"@,
        Unit::S => "s"@,
        Unit::Ms => "ms"@,
        Unit::Deg => "deg"@,
        Unit::Grad => "grad"@,
        Unit::Turn => "turn"@,
        Unit::Rad => "rad"@,
    }
}

/// The units of a duration, the default first.
pub open spec fn duration_unit_table() -> Seq<Unit> {
    seq![Unit::S, Unit::Ms]
}

/// The units of a length, the default first.
pub open spec fn length_unit_table() -> Seq<Unit> {
    seq![Unit::Px, Unit::Cm, Unit::Mm, Unit::In, Unit::Pt, Unit::Phx, Unit::Rem]
}

/// The units of an angle, the default first.
pub open spec fn angle_unit_table() -> Seq<Unit> {
    seq![Unit::Deg, Unit::Grad, Unit::Turn, Unit::Rad]
}

/// The one unit of a percentage.
pub open spec fn percent_unit_table() -> Seq<Unit> {
    seq![Unit::Percent]
}

/// The names of a list of units, in the same order.
pub open spec fn unit_names(units: Seq<Unit>) -> Seq<Seq<char>> {
    Seq::new(units.len(), |i: int| unit_name(units[i]))
}

/// The first place at which a unit stands in a list, if it stands in it.
pub open spec fn unit_position(units: Seq<Unit>, unit: Unit) -> Option<int> {
    units.index_of_first(unit)
}

impl Unit {
    /// The name of the unit as it is written behind a number.
    pub fn name(self) -> (s: &'static str)
        ensures
            s@ == unit_name(self),
    {
        match self {
            Unit::Unitless => "",
            Unit::Percent => "%",
            Unit::Phx => "phx",
            Unit::Px => "px",
            Unit::Cm => "cm",
            Unit::Mm => "mm",
            Unit::In => "in",
            Unit::Pt => "pt",
            Unit::Rem => "rem",
            Unit::S => "s",
            Unit::Ms => "ms",
            Unit::Deg => "deg",
            Unit::Grad => "grad",
            Unit::Turn => "turn",
            Unit::Rad => "rad",
        }
    }
}

/// The units of a duration, the default first.
pub fn duration_units() -> (units: Vec<Unit>)
    ensures
        units@ == duration_unit_table(),
{
    let units = vec![Unit::S, Unit::Ms];
    assert(units@ =~= duration_unit_table());
    units
}

/// The units of a length, the default first.
pub fn length_units() -> (units: Vec<Unit>)
    ensures
        units@ == length_unit_table(),
{
    let units = vec![Unit::Px, Unit::Cm, Unit::Mm, Unit::In, Unit::Pt, Unit::Phx, Unit::Rem];
    assert(units@ =~= length_unit_table());
    units
}

/// The units of an angle, the default first.
pub fn angle_units() -> (units: Vec<Unit>)
    ensures
        units@ == angle_unit_table(),
{
    let units = vec![Unit::Deg, Unit::Grad, Unit::Turn, Unit::Rad];
    assert(units@ =~= angle_unit_table());
    units
}

/// The one unit of a percentage.
pub fn percent_units() -> (units: Vec<Unit>)
    ensures
        units@ == percent_unit_table(),
{
    let units = vec![Unit::Percent];
    assert(units@ =~= percent_unit_table());
    units
}

/// The names of a list of units, in the same order: what a unit selector
/// shows.
pub fn unit_model(units: &Vec<Unit>) -> (names: Vec<String>)
    ensures
        names.deep_view() == unit_names(units@),
{
    let mut names: Vec<String> = Vec::new();
    let mut i: usize = 0;
    while i < units.len()
        invariant
            i <= units.len(),
            names.len() == i,
            forall|j: int| 0 <= j < i ==> names@[j]@ == unit_name(units@[j]),
        decreases units.len() - i,
    {
        names.push(String::from_str(units[i].name()));
        i += 1;
    }
    assert(names.deep_view() =~= unit_names(units@));
    names
}

/// Finds the first place at which a unit stands in a list.
pub fn position_of(units: &Vec<Unit>, unit: Unit) -> (r: Option<usize>)
    ensures
        r matches Some(i) ==> unit_position(units@, unit) == Some(i as int),
        r is None ==> unit_position(units@, unit) is None,
        r matches Some(i) ==> i < units.len() && units@[i as int] == unit,
{
    let mut i: usize = 0;
    while i < units.len()
        invariant
            i <= units.len(),
            forall|j: int| 0 <= j < i ==> units@[j] != unit,
        decreases units.len() - i,
    {
        if units[i] == unit {
            proof {
                assert(units@.contains(unit));
                units@.index_of_first_ensures(unit);
            }
            return Some(i);
        }
        i += 1;
    }
    proof {
        units@.index_of_first_ensures(unit);
    }
    None
}

} // verus!
