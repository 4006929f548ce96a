use vstd::prelude::*;

use crate::core_model::build::Build;
use crate::core_model::metadata::Metadata;
use crate::core_model::resources::Resources;
use crate::text::{lowercases_to, lowercases_to_str};

verus! {

/// A 3MF model: the content of one model part of a package.
#[derive(Debug, Clone, PartialEq, Eq)]
pub struct Model {
    pub unit: Option<Unit>,
    /// The prefixes of the extensions that a consumer must support, each followed by a space.
    pub requiredextensions: Option<String>,
    /// The prefixes of the extensions that a consumer should support, each followed by a space.
    pub recommendedextensions: Option<String>,
    pub metadata: Vec<Metadata>,
    pub resources: Resources,
    pub build: Build,
}

/// The unit of measurement of a model; millimeter when none is given.
#[derive(Debug, Clone, Copy, PartialEq, Eq, Structural)]
pub enum Unit {
    Micron,
    Millimeter,
    Centimeter,
    Inch,
    Foot,
    Meter,
}

/// The unit that a unit name stands for: the names are compared in lower
/// case, and a name that is none of them stands for millimeter.
pub open spec fn unit_from_name(name: Seq<char>) -> Unit {
    if lowercases_to(name, "micron"@) {
        Unit::Micron
    } else if lowercases_to(name, "millimeter"@) {
        Unit::Millimeter
    } else if lowercases_to(name, "centimeter"@) {
        Unit::Centimeter
    } else if lowercases_to(name, "inch"@) {
        Unit::Inch
    } else if lowercases_to(name, "foot"@) {
        Unit::Foot
    } else if lowercases_to(name, "meter"@) {
        Unit::Meter
    } else {
        Unit::Millimeter
    }
}

impl Unit {
    /// The unit named by `name`, compared in lower case; millimeter for any other name.
    pub fn from_name(name: &str) -> (u: Unit)
        ensures
            u == unit_from_name(name@),
    {
        if lowercases_to_str(name, "micron") {
            Unit::Micron
        } else if lowercases_to_str(name, "millimeter") {
            Unit::Millimeter
        } else if lowercases_to_str(name, "centimeter") {
            Unit::Centimeter
        } else if lowercases_to_str(name, "inch") {
            Unit::Inch
        } else if lowercases_to_str(name, "foot") {
            Unit::Foot
        } else if lowercases_to_str(name, "meter") {
            Unit::Meter
        } else {
            Unit::Millimeter
        }
    }
}

/// The name of a unit, as 3MF writes it.
pub open spec fn unit_name(u: Unit) -> Seq<char> {
    match u {
        Unit::Micron => "micron"@,
        Unit::Millimeter => "millimeter"@,
        Unit::Centimeter => "centimeter"@,
        Unit::Inch => "inch"@,
        Unit::Foot => "foot"@,
        Unit::Meter => "meter"@,
    }
}

impl Unit {
    /// The name of this unit, as 3MF writes it: in lower case.
    pub fn name(&self) -> (r: &'static str)
        ensures
            r@ == unit_name(*self),
    {
        match self {
            Unit::Micron => "micron",
            Unit::Millimeter => "millimeter",
            Unit::Centimeter => "centimeter",
            Unit::Inch => "inch",
            Unit::Foot => "foot",
            Unit::Meter => "meter",
        }
    }
}

/// Reading the name of a unit gives the unit back.
pub proof fn lemma_unit_name_round_trip(u: Unit)
    ensures
        unit_from_name(unit_name(u)) == u,
{
    reveal_strlit("micron");
    reveal_strlit("millimeter");
    reveal_strlit("centimeter");
    reveal_strlit("inch");
    reveal_strlit("foot");
    reveal_strlit("meter");
    let n = unit_name(u);
    assert(n.map_values(|c: char| crate::text::ascii_lower(c)) =~= n);
    match u {
        Unit::Micron => {},
        Unit::Millimeter => {
            assert(n.len() != "micron"@.len());
        },
        Unit::Centimeter => {
            assert(n.len() != "micron"@.len());
            assert(n[0] != "millimeter"@[0]);
        },
        Unit::Inch => {
            assert(n.len() != "micron"@.len());
            assert(n.len() != "millimeter"@.len());
        },
        Unit::Foot => {
            assert(n.len() != "micron"@.len());
            assert(n.len() != "millimeter"@.len());
            assert(n[0] != "inch"@[0]);
        },
        Unit::Meter => {
            assert(n.len() != "micron"@.len());
            assert(n.len() != "millimeter"@.len());
            assert(n.len() != "inch"@.len());
        },
    }
}

impl Default for Unit {
    fn default() -> (u: Unit)
        ensures
            u == Unit::Millimeter,
    {
        Unit::Millimeter
    }
}

impl From<String> for Unit {
    fn from(value: String) -> (u: Unit) {
        Unit::from_name(value.as_str())
    }
}

impl vstd::std_specs::convert::FromSpecImpl<String> for Unit {
    open spec fn obeys_from_spec() -> bool {
        true
    }

    open spec fn from_spec(v: String) -> Unit {
        unit_from_name(v@)
    }
}

/// Reading the name of a value in any ASCII case gives that value back.
pub proof fn lemma_unit_name_round_trip_any_case(u: Unit, name: Seq<char>)
    requires
        lowercases_to(name, unit_name(u)),
    ensures
        unit_from_name(name) == u,
{
    lemma_unit_name_round_trip(u);
    let n = unit_name(u);
    assert(n.map_values(|c: char| crate::text::ascii_lower(c)) =~= n) by {
        reveal_strlit("micron");
        reveal_strlit("millimeter");
        reveal_strlit("centimeter");
        reveal_strlit("inch");
        reveal_strlit("foot");
        reveal_strlit("meter");
    }
    assert(name.map_values(|c: char| crate::text::ascii_lower(c)) == n);
}

} // verus!
