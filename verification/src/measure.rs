//! Units of measurement in recipes, and quantities that remember the unit they
//! were entered in.

use crate::recipe::IngredientAmount;
use crate::scalar::Scalar;
use vstd::prelude::*;
use vstd::string::StringExecFns;

verus! {

/// Units of time a user can pick.
#[derive(Clone, Copy, Debug, PartialEq, Eq, Structural)]
pub enum TimeUnit {
    Second,
    Minute,
    Hour,
    Day,
}

impl TimeUnit {
    /// The name of the unit, in the plural.
    pub open spec fn spec_name(&self) -> Seq<char> {
        match self {
            TimeUnit::Second => "seconds"@,
            TimeUnit::Minute => "minutes"@,
            TimeUnit::Hour => "hours"@,
            TimeUnit::Day => "days"@,
        }
    }

    /// The name of the unit, in the plural.
    pub fn to_string(&self) -> (text: String)
        ensures
            text@ == self.spec_name(),
    {
        match self {
            TimeUnit::Second => "seconds".to_owned(),
            TimeUnit::Minute => "minutes".to_owned(),
            TimeUnit::Hour => "hours".to_owned(),
            TimeUnit::Day => "days".to_owned(),
        }
    }
}

/// A unit of mass. Grams are the base unit.
#[derive(Clone, Copy, Debug, PartialEq, Eq, Structural)]
pub enum MassUnit {
    Gram,
    Kilogram,
    Milligram,
    Ounce,
    Pound,
}

impl MassUnit {
    /// The name of the unit, in the singular.
    pub open spec fn spec_name(&self) -> Seq<char> {
        match self {
            MassUnit::Gram => "gram"@,
            MassUnit::Kilogram => "kilogram"@,
            MassUnit::Milligram => "milligram"@,
            MassUnit::Ounce => "ounce"@,
            MassUnit::Pound => "pound"@,
        }
    }

    /// The name of the unit, in the singular.
    pub fn to_string(&self) -> (text: String)
        ensures
            text@ == self.spec_name(),
    {
        match self {
            MassUnit::Gram => "gram".to_owned(),
            MassUnit::Kilogram => "kilogram".to_owned(),
            MassUnit::Milligram => "milligram".to_owned(),
            MassUnit::Ounce => "ounce".to_owned(),
            MassUnit::Pound => "pound".to_owned(),
        }
    }

    /// The bit pattern of the single-precision number of grams in one unit:
    /// 1, 1000, 0.001, 28.34952 and 453.59237.
    pub open spec fn spec_conversion_factor(&self) -> u32 {
        match self {
            MassUnit::Gram => 0x3f80_0000,
            MassUnit::Kilogram => 0x447a_0000,
            MassUnit::Milligram => 0x3a83_126f,
            MassUnit::Ounce => 0x41e2_cbd1,
            MassUnit::Pound => 0x43e2_cbd3,
        }
    }

    /// The number of grams in one unit.
    pub fn conversion_factor(&self) -> (factor: Scalar)
        ensures
            factor.bits == self.spec_conversion_factor(),
    {
        match self {
            MassUnit::Gram => Scalar { bits: 0x3f80_0000 },
            MassUnit::Kilogram => Scalar { bits: 0x447a_0000 },
            MassUnit::Milligram => Scalar { bits: 0x3a83_126f },
            MassUnit::Ounce => Scalar { bits: 0x41e2_cbd1 },
            MassUnit::Pound => Scalar { bits: 0x43e2_cbd3 },
        }
    }
}

/// A unit of volume. Liters are the base unit.
#[derive(Clone, Copy, Debug, PartialEq, Eq, Structural)]
pub enum VolumeUnit {
    Cup,
    Liter,
    Milliliter,
    Teaspoon,
    Tablespoon,
    Pint,
    Quart,
    Gallon,
    FluidOz,
}

impl VolumeUnit {
    /// The name of the unit, in the singular.
    pub open spec fn spec_name(&self) -> Seq<char> {
        match self {
            VolumeUnit::Cup => "cup"@,
            VolumeUnit::Liter => "liter"@,
            VolumeUnit::Milliliter => "milliliter"@,
            VolumeUnit::Teaspoon => "teaspoon"@,
            VolumeUnit::Tablespoon => "tablespoon"@,
            VolumeUnit::Pint => "pint"@,
            VolumeUnit::Quart => "quart"@,
            VolumeUnit::Gallon => "gallon"@,
            VolumeUnit::FluidOz => "fluid ounce"@,
        }
    }

    /// The name of the unit, in the singular.
    pub fn to_string(&self) -> (text: String)
        ensures
            text@ == self.spec_name(),
    {
        match self {
            VolumeUnit::Cup => "cup".to_owned(),
            VolumeUnit::Liter => "liter".to_owned(),
            VolumeUnit::Milliliter => "milliliter".to_owned(),
            VolumeUnit::Teaspoon => "teaspoon".to_owned(),
            VolumeUnit::Tablespoon => "tablespoon".to_owned(),
            VolumeUnit::Pint => "pint".to_owned(),
            VolumeUnit::Quart => "quart".to_owned(),
            VolumeUnit::Gallon => "gallon".to_owned(),
            VolumeUnit::FluidOz => "fluid ounce".to_owned(),
        }
    }

    /// The bit pattern of the single-precision number of liters in one unit:
    /// 0.24, 1, 0.001, 0.00492892, 0.014787, 0.473176, 0.946353, 3.78541 and
    /// 0.0295735.
    pub open spec fn spec_conversion_factor(&self) -> u32 {
        match self {
            VolumeUnit::Cup => 0x3e75_c28f,
            VolumeUnit::Liter => 0x3f80_0000,
            VolumeUnit::Milliliter => 0x3a83_126f,
            VolumeUnit::Teaspoon => 0x3ba1_82c7,
            VolumeUnit::Tablespoon => 0x3c72_452c,
            VolumeUnit::Pint => 0x3ef2_4420,
            VolumeUnit::Quart => 0x3f72_4431,
            VolumeUnit::Gallon => 0x4072_4428,
            VolumeUnit::FluidOz => 0x3cf2_4420,
        }
    }

    /// The number of liters in one unit.
    pub fn conversion_factor(&self) -> (factor: Scalar)
        ensures
            factor.bits == self.spec_conversion_factor(),
    {
        match self {
            VolumeUnit::Cup => Scalar { bits: 0x3e75_c28f },
            VolumeUnit::Liter => Scalar { bits: 0x3f80_0000 },
            VolumeUnit::Milliliter => Scalar { bits: 0x3a83_126f },
            VolumeUnit::Teaspoon => Scalar { bits: 0x3ba1_82c7 },
            VolumeUnit::Tablespoon => Scalar { bits: 0x3c72_452c },
            VolumeUnit::Pint => Scalar { bits: 0x3ef2_4420 },
            VolumeUnit::Quart => Scalar { bits: 0x3f72_4431 },
            VolumeUnit::Gallon => Scalar { bits: 0x4072_4428 },
            VolumeUnit::FluidOz => Scalar { bits: 0x3cf2_4420 },
        }
    }
}

/// The name of a unit as it is written after a quantity: in the plural, unless
/// the quantity is exactly one.
pub open spec fn spec_counted_name(name: Seq<char>, val: Scalar) -> Seq<char> {
    if val.spec_is_one() {
        name
    } else {
        name + "s"@
    }
}

/// A quantity as it is written: its number, a space, and the name of its unit,
/// in the plural unless the quantity is exactly one.
pub open spec fn spec_written(number: Seq<char>, name: Seq<char>, val: Scalar) -> Seq<char> {
    number + " "@ + spec_counted_name(name, val)
}

/// A measurement of mass with its unit of measurement.
#[derive(Clone, Copy, Debug)]
pub struct Mass {
    pub unit: MassUnit,
    pub val: Scalar,
}

impl Mass {
    /// Creates a mass of `val` units.
    pub fn new(unit: MassUnit, val: Scalar) -> (mass: Mass)
        ensures
            mass.unit == unit,
            mass.val == val,
    {
        Mass { unit, val }
    }

    /// The unit's name as written after the quantity.
    pub fn unit_label(&self) -> (text: String)
        ensures
            text@ == spec_counted_name(self.unit.spec_name(), self.val),
    {
        let mut text = self.unit.to_string();
        if !self.val.is_one() {
            text.append("s");
        }
        text
    }

    /// Writes the mass out. `number` is the text of its number, which the
    /// caller formats.
    pub fn display(&self, number: &str) -> (text: String)
        ensures
            text@ == spec_written(number@, self.unit.spec_name(), self.val),
    {
        let mut text = number.to_owned();
        text.append(" ");
        text.append(self.unit_label().as_str());
        assert(text@ =~= spec_written(number@, self.unit.spec_name(), self.val));
        text
    }
}

/// An amount of a substance with its unit of measurement.
#[derive(Clone, Copy, Debug)]
pub struct Volume {
    /// The unit that this volume is measured in.
    pub unit: VolumeUnit,
    /// The amount of the given unit.
    pub val: Scalar,
}

impl Volume {
    /// Creates a volume of `val` units.
    pub fn new(unit: VolumeUnit, val: Scalar) -> (volume: Volume)
        ensures
            volume.unit == unit,
            volume.val == val,
    {
        Volume { unit, val }
    }

    /// The unit's name as written after the quantity.
    pub fn unit_label(&self) -> (text: String)
        ensures
            text@ == spec_counted_name(self.unit.spec_name(), self.val),
    {
        let mut text = self.unit.to_string();
        if !self.val.is_one() {
            text.append("s");
        }
        text
    }

    /// Writes the volume out. `number` is the text of its number, which the
    /// caller formats.
    pub fn display(&self, number: &str) -> (text: String)
        ensures
            text@ == spec_written(number@, self.unit.spec_name(), self.val),
    {
        let mut text = number.to_owned();
        text.append(" ");
        text.append(self.unit_label().as_str());
        assert(text@ =~= spec_written(number@, self.unit.spec_name(), self.val));
        text
    }
}

/// The unit of an ingredient's amount, without the amount.
#[derive(Clone, Copy, Debug, PartialEq, Eq, Structural)]
pub enum AmountUnit {
    /// A raw number.
    Count,
    /// A measurement of volume in cups, liters, etc.
    Volume(VolumeUnit),
    /// A measurement in mass.
    Mass(MassUnit),
    /// No amount given.
    Absent,
}

impl AmountUnit {
    /// The unit that an amount is given in.
    pub open spec fn of(amount: IngredientAmount) -> AmountUnit {
        match amount {
            IngredientAmount::Count(_) => AmountUnit::Count,
            IngredientAmount::Volume(volume) => AmountUnit::Volume(volume.unit),
            IngredientAmount::Mass(mass) => AmountUnit::Mass(mass.unit),
            IngredientAmount::Absent => AmountUnit::Absent,
        }
    }

    /// The name of the unit.
    pub open spec fn spec_name(&self) -> Seq<char> {
        match self {
            AmountUnit::Count => "count"@,
            AmountUnit::Volume(unit) => unit.spec_name(),
            AmountUnit::Mass(unit) => unit.spec_name(),
            AmountUnit::Absent => "no measure"@,
        }
    }

    /// The name of the unit.
    pub fn to_string(&self) -> (text: String)
        ensures
            text@ == self.spec_name(),
    {
        match self {
            AmountUnit::Count => "count".to_owned(),
            AmountUnit::Volume(unit) => unit.to_string(),
            AmountUnit::Mass(unit) => unit.to_string(),
            AmountUnit::Absent => "no measure".to_owned(),
        }
    }
}

impl From<IngredientAmount> for AmountUnit {
    fn from(amt: IngredientAmount) -> (unit: AmountUnit) {
        match amt {
            IngredientAmount::Count(_) => AmountUnit::Count,
            IngredientAmount::Volume(volume) => AmountUnit::Volume(volume.unit),
            IngredientAmount::Mass(mass) => AmountUnit::Mass(mass.unit),
            IngredientAmount::Absent => AmountUnit::Absent,
        }
    }
}

impl vstd::std_specs::convert::FromSpecImpl<IngredientAmount> for AmountUnit {
    open spec fn obeys_from_spec() -> bool {
        true
    }

    open spec fn from_spec(amt: IngredientAmount) -> AmountUnit {
        AmountUnit::of(amt)
    }
}

} // verus!
