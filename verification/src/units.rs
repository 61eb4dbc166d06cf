//! Units of energy and power, and quantities scaled to a base unit.
//!
//! The base units are the kilowatt-hour, the watt and the degree Celsius. A
//! conversion never guesses: a unit that is not in the table is an error.

use vstd::prelude::*;
use vstd::string::*;
use crate::text::{chars_of, same_text};

verus! {

/// A factor that brings a quantity to its base unit: a power of ten.
#[derive(Clone, Copy, Debug, PartialEq, Eq, Structural)]
pub enum Scale {
    /// One thousandth.
    Milli,
    /// One: the quantity is in its base unit already.
    One,
    /// One thousand.
    Kilo,
    /// One million.
    Mega,
    /// One thousand million.
    Giga,
}

impl Scale {
    /// The power of ten that the scale multiplies by.
    pub open spec fn exponent(self) -> int {
        match self {
            Scale::Milli => -3,
            Scale::One => 0,
            Scale::Kilo => 3,
            Scale::Mega => 6,
            Scale::Giga => 9,
        }
    }

    /// The power of ten that the scale multiplies by.
    pub fn power_of_ten(self) -> (e: i32)
        ensures
            e == self.exponent(),
    {
        match self {
            Scale::Milli => -3,
            Scale::One => 0,
            Scale::Kilo => 3,
            Scale::Mega => 6,
            Scale::Giga => 9,
        }
    }
}

/// A number in a base unit: the number that `literal` denotes, times the
/// power of ten of `scale`.
#[derive(Debug, PartialEq, Eq)]
pub struct Quantity {
    pub literal: String,
    pub scale: Scale,
}

/// What a [`Quantity`] holds.
pub struct QuantityView {
    pub literal: Seq<char>,
    pub scale: Scale,
}

impl View for Quantity {
    type V = QuantityView;

    open spec fn view(&self) -> QuantityView {
        QuantityView { literal: self.literal@, scale: self.scale }
    }
}

impl Clone for Quantity {
    fn clone(&self) -> (r: Self)
        ensures
            r@ == self@,
    {
        Quantity { literal: self.literal.clone(), scale: self.scale }
    }
}

/// A unit that the table of its kind does not hold, with the number it came
/// with.
#[derive(Debug, PartialEq, Eq)]
pub struct UnitError {
    pub unit: String,
    pub value: String,
}

/// The scale that brings an energy in `unit` to kilowatt-hours.
pub open spec fn energy_scale(unit: Seq<char>) -> Option<Scale> {
    if unit == "Wh"@ {
        Some(Scale::Milli)
    } else if unit == "kWh"@ {
        Some(Scale::One)
    } else if unit == "MWh"@ {
        Some(Scale::Kilo)
    } else if unit == "GWh"@ {
        Some(Scale::Mega)
    } else {
        None
    }
}

/// The scale that brings a power in `unit` to watts.
pub open spec fn power_scale(unit: Seq<char>) -> Option<Scale> {
    if unit == "W"@ {
        Some(Scale::One)
    } else if unit == "kW"@ {
        Some(Scale::Kilo)
    } else if unit == "MW"@ {
        Some(Scale::Mega)
    } else if unit == "GW"@ {
        Some(Scale::Giga)
    } else {
        None
    }
}

/// The two tables, row by row.
pub proof fn lemma_unit_tables()
    ensures
        energy_scale("Wh"@) == Some(Scale::Milli),
        energy_scale("kWh"@) == Some(Scale::One),
        energy_scale("MWh"@) == Some(Scale::Kilo),
        energy_scale("GWh"@) == Some(Scale::Mega),
        power_scale("W"@) == Some(Scale::One),
        power_scale("kW"@) == Some(Scale::Kilo),
        power_scale("MW"@) == Some(Scale::Mega),
        power_scale("GW"@) == Some(Scale::Giga),
{
    reveal_strlit("Wh");
    reveal_strlit("kWh");
    reveal_strlit("MWh");
    reveal_strlit("GWh");
    reveal_strlit("W");
    reveal_strlit("kW");
    reveal_strlit("MW");
    reveal_strlit("GW");
    assert("kWh"@[0] == 'k' && "MWh"@[0] == 'M' && "GWh"@[0] == 'G');
    assert("kW"@[0] == 'k' && "MW"@[0] == 'M' && "GW"@[0] == 'G');
}

/// The degree-Celsius sign as one character.
pub const DEGREE_CELSIUS: char = '\u{2103}';

/// `unit` denotes degrees Celsius: it holds a capital C or the one-character
/// degree-Celsius sign, whatever stands around it.
pub open spec fn denotes_celsius(unit: Seq<char>) -> bool {
    unit.contains('C') || unit.contains(DEGREE_CELSIUS)
}

/// The scale of an energy unit, if the table holds it.
pub fn energy_scale_of(unit: &str) -> (r: Option<Scale>)
    ensures
        r == energy_scale(unit@),
{
    if same_text(unit, "Wh") {
        Some(Scale::Milli)
    } else if same_text(unit, "kWh") {
        Some(Scale::One)
    } else if same_text(unit, "MWh") {
        Some(Scale::Kilo)
    } else if same_text(unit, "GWh") {
        Some(Scale::Mega)
    } else {
        None
    }
}

/// The scale of a power unit, if the table holds it.
pub fn power_scale_of(unit: &str) -> (r: Option<Scale>)
    ensures
        r == power_scale(unit@),
{
    if same_text(unit, "W") {
        Some(Scale::One)
    } else if same_text(unit, "kW") {
        Some(Scale::Kilo)
    } else if same_text(unit, "MW") {
        Some(Scale::Mega)
    } else if same_text(unit, "GW") {
        Some(Scale::Giga)
    } else {
        None
    }
}

/// An energy in kilowatt-hours: `value` in `unit`, with the scale of the
/// unit. A unit other than `Wh`, `kWh`, `MWh` and `GWh` is an error.
pub fn to_kwh(value: &str, unit: &str) -> (r: Result<Quantity, UnitError>)
    ensures
        r is Ok <==> energy_scale(unit@) is Some,
        r matches Ok(q) ==> q.literal@ == value@ && Some(q.scale) == energy_scale(unit@),
        r matches Err(e) ==> e.unit@ == unit@ && e.value@ == value@,
{
    match energy_scale_of(unit) {
        Some(scale) => Ok(Quantity { literal: String::from_str(value), scale }),
        None => Err(UnitError { unit: String::from_str(unit), value: String::from_str(value) }),
    }
}

/// A power in watts: `value` in `unit`, with the scale of the unit. A unit
/// other than `W`, `kW`, `MW` and `GW` is an error.
pub fn to_watt(value: &str, unit: &str) -> (r: Result<Quantity, UnitError>)
    ensures
        r is Ok <==> power_scale(unit@) is Some,
        r matches Ok(q) ==> q.literal@ == value@ && Some(q.scale) == power_scale(unit@),
        r matches Err(e) ==> e.unit@ == unit@ && e.value@ == value@,
{
    match power_scale_of(unit) {
        Some(scale) => Ok(Quantity { literal: String::from_str(value), scale }),
        None => Err(UnitError { unit: String::from_str(unit), value: String::from_str(value) }),
    }
}

/// Does `unit` denote degrees Celsius?
pub fn is_celsius(unit: &str) -> (r: bool)
    ensures
        r == denotes_celsius(unit@),
{
    let v = chars_of(unit);
    let mut i: usize = 0;
    while i < v.len()
        invariant
            i <= v.len(),
            v@ == unit@,
            forall|k: int| 0 <= k < i ==> v@[k] != 'C' && v@[k] != DEGREE_CELSIUS,
        decreases v.len() - i,
    {
        if v[i] == 'C' || v[i] == DEGREE_CELSIUS {
            return true;
        }
        i = i + 1;
    }
    false
}

} // verus!
