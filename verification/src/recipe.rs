//! Recipe records.

use crate::id::RecipeId;
use crate::measure::{spec_written, Mass, Volume, VolumeUnit};
use crate::scalar::Scalar;
use crate::text::{decimal, spec_decimal};
use vstd::prelude::*;
use vstd::std_specs::cmp::PartialEqSpecImpl;
use vstd::string::StringExecFns;

verus! {

/// How much of an ingredient a recipe asks for.
#[derive(Clone, Copy, Debug)]
pub enum IngredientAmount {
    /// A raw number.
    Count(usize),
    /// A measurement of volume in cups, liters, etc.
    Volume(Volume),
    /// A measurement in mass.
    Mass(Mass),
    /// No amount given.
    Absent,
}

impl IngredientAmount {
    /// The name of the unit the amount is given in.
    pub open spec fn spec_unit_string(&self) -> Seq<char> {
        match self {
            IngredientAmount::Count(_) => "count"@,
            IngredientAmount::Mass(mass) => mass.unit.spec_name(),
            IngredientAmount::Volume(volume) => volume.unit.spec_name(),
            IngredientAmount::Absent => "no unit"@,
        }
    }

    /// The name of the unit the amount is given in.
    pub fn unit_string(&self) -> (text: String)
        ensures
            text@ == self.spec_unit_string(),
    {
        match self {
            IngredientAmount::Count(_) => "count".to_owned(),
            IngredientAmount::Mass(mass) => mass.unit.to_string(),
            IngredientAmount::Volume(volume) => volume.unit.to_string(),
            IngredientAmount::Absent => "no unit".to_owned(),
        }
    }

    /// The amount as it is written: a count as `x` and the number, a measure
    /// as its number and unit, and nothing where no amount is given.
    pub open spec fn spec_display(&self, number: Seq<char>) -> Seq<char> {
        match self {
            IngredientAmount::Count(n) => "x"@ + spec_decimal(*n as nat),
            IngredientAmount::Volume(volume) => spec_written(
                number,
                volume.unit.spec_name(),
                volume.val,
            ),
            IngredientAmount::Mass(mass) => spec_written(number, mass.unit.spec_name(), mass.val),
            IngredientAmount::Absent => Seq::empty(),
        }
    }

    /// Writes the amount out. `number` is the text of a measure's number,
    /// which the caller formats; a count is written by the library.
    pub fn display(&self, number: &str) -> (text: String)
        ensures
            text@ == self.spec_display(number@),
    {
        match self {
            IngredientAmount::Count(n) => {
                let mut text = "x".to_owned();
                text.append(decimal(*n).as_str());
                text
            },
            IngredientAmount::Volume(volume) => volume.display(number),
            IngredientAmount::Mass(mass) => mass.display(number),
            IngredientAmount::Absent => String::new(),
        }
    }

    /// Whether two amounts are written the same way: the same kind, the same unit
    /// and the same number, bit for bit. Two ways of writing one physical quantity
    /// are not the same amount.
    pub fn same(&self, other: &IngredientAmount) -> (b: bool)
        ensures
            b == (*self == *other),
    {
        match (self, other) {
            (IngredientAmount::Count(a), IngredientAmount::Count(b)) => *a == *b,
            (IngredientAmount::Volume(a), IngredientAmount::Volume(b)) => a.unit == b.unit && a.val
                == b.val,
            (IngredientAmount::Mass(a), IngredientAmount::Mass(b)) => a.unit == b.unit && a.val
                == b.val,
            (IngredientAmount::Absent, IngredientAmount::Absent) => true,
            _ => false,
        }
    }
}

/// One ingredient in a recipe: its name and how much of it is needed.
#[derive(Clone, Debug)]
pub struct Ingredient {
    pub name: String,
    pub amount: IngredientAmount,
}

/// An ingredient as a value: its name as a sequence of characters.
pub struct IngredientView {
    pub name: Seq<char>,
    pub amount: IngredientAmount,
}

impl View for Ingredient {
    type V = IngredientView;

    open spec fn view(&self) -> IngredientView {
        IngredientView { name: self.name@, amount: self.amount }
    }
}

impl Ingredient {
    /// Writes the ingredient out: its name, a space, and its amount. `number`
    /// is the text of a measure's number, which the caller formats.
    pub fn display(&self, number: &str) -> (text: String)
        ensures
            text@ == self.name@ + " "@ + self.amount.spec_display(number@),
    {
        let mut text = self.name.clone();
        text.append(" ");
        text.append(self.amount.display(number).as_str());
        text
    }
}

impl PartialEq for Ingredient {
    fn eq(&self, other: &Ingredient) -> (b: bool) {
        self.name == other.name && self.amount.same(&other.amount)
    }
}

impl PartialEqSpecImpl for Ingredient {
    open spec fn obeys_eq_spec() -> bool {
        true
    }

    open spec fn eq_spec(&self, other: &Ingredient) -> bool {
        self@ == other@
    }
}

/// A point in time: seconds and nanoseconds since the start of 1970, UTC.
#[derive(Clone, Copy, Debug, PartialEq, Eq, Structural)]
pub struct Timestamp {
    pub secs: i64,
    pub nanos: u32,
}

/// A length of time in seconds and nanoseconds.
#[derive(Clone, Copy, Debug, PartialEq, Eq, Structural)]
pub struct Span {
    pub secs: u64,
    pub nanos: u32,
}

/// All data a user can add to a recipe. A stored recipe is never edited in
/// place: a new value replaces it under the same identifier.
#[derive(Clone, Debug)]
pub struct Recipe {
    /// The identifier of this recipe.
    pub id: RecipeId,
    /// The name of the recipe.
    pub name: String,
    /// When this recipe was created.
    pub created_on: Timestamp,
    /// How many servings the recipe makes.
    pub servings: Option<Scalar>,
    /// The ingredients of the recipe, in order.
    pub ingredients: Vec<Ingredient>,
    /// The recipe's instructions.
    pub body: String,
    /// The time that the recipe takes to make.
    pub time: Option<Span>,
}

/// A recipe as a value: texts as sequences of characters, the ingredient list
/// as a sequence of ingredient values.
pub struct RecipeView {
    pub id: RecipeId,
    pub name: Seq<char>,
    pub created_on: Timestamp,
    pub servings: Option<Scalar>,
    pub ingredients: Seq<IngredientView>,
    pub body: Seq<char>,
    pub time: Option<Span>,
}

impl View for Recipe {
    type V = RecipeView;

    open spec fn view(&self) -> RecipeView {
        RecipeView {
            id: self.id,
            name: self.name@,
            created_on: self.created_on,
            servings: self.servings,
            ingredients: Seq::new(self.ingredients@.len(), |i: int| self.ingredients@[i]@),
            body: self.body@,
            time: self.time,
        }
    }
}

/// Whether two optional numbers are both absent or hold the same bits.
fn same_servings(a: &Option<Scalar>, b: &Option<Scalar>) -> (same: bool)
    ensures
        same == (*a == *b),
{
    match (a, b) {
        (Some(x), Some(y)) => *x == *y,
        (None, None) => true,
        _ => false,
    }
}

/// Whether two optional lengths of time are both absent or equal.
fn same_time(a: &Option<Span>, b: &Option<Span>) -> (same: bool)
    ensures
        same == (*a == *b),
{
    match (a, b) {
        (Some(x), Some(y)) => *x == *y,
        (None, None) => true,
        _ => false,
    }
}

/// Whether two ingredient lists have the same length and equal ingredients at
/// every position.
fn same_ingredients(a: &Vec<Ingredient>, b: &Vec<Ingredient>) -> (same: bool)
    ensures
        same == (Seq::new(a@.len(), |i: int| a@[i]@) == Seq::new(b@.len(), |i: int| b@[i]@)),
{
    let ghost va = Seq::new(a@.len(), |i: int| a@[i]@);
    let ghost vb = Seq::new(b@.len(), |i: int| b@[i]@);
    if a.len() != b.len() {
        assert(va.len() != vb.len());
        return false;
    }
    let mut i: usize = 0;
    while i < a.len()
        invariant
            i <= a.len(),
            a.len() == b.len(),
            va == Seq::new(a@.len(), |i: int| a@[i]@),
            vb == Seq::new(b@.len(), |i: int| b@[i]@),
            forall|j: int| 0 <= j < i ==> va[j] == vb[j],
        decreases a.len() - i,
    {
        if !(a[i] == b[i]) {
            assert(va[i as int] != vb[i as int]);
            return false;
        }
        i += 1;
    }
    assert(va =~= vb);
    true
}

impl PartialEq for Recipe {
    fn eq(&self, other: &Recipe) -> (b: bool) {
        self.id == other.id && self.name == other.name && self.created_on == other.created_on
            && same_servings(&self.servings, &other.servings) && same_ingredients(
            &self.ingredients,
            &other.ingredients,
        ) && self.body == other.body && same_time(&self.time, &other.time)
    }
}

impl PartialEqSpecImpl for Recipe {
    open spec fn obeys_eq_spec() -> bool {
        true
    }

    open spec fn eq_spec(&self, other: &Recipe) -> bool {
        self@ == other@
    }
}

/// The name of the sample recipe.
pub open spec fn top_ramen_name() -> Seq<char> {
    "Top Ramen"@
}

/// The instructions of the sample recipe.
pub open spec fn top_ramen_body() -> Seq<char> {
    "- Add water to small / medium pot and bring to boil\n- Remove noodle brick from packet and add to water\n- Allow noodles to cook for around 3 minutes, stirring occasionally\n- Remove heat and add flavor packet to noodles, ensuring that flavor spreads to noodles by stirring\n- Leave for 5-10 minutes to cool and enjoy"@
}

/// The ingredients of the sample recipe: one packet and two cups of water.
pub open spec fn top_ramen_ingredients() -> Seq<IngredientView> {
    seq![
        IngredientView { name: "Top Ramen Packet"@, amount: IngredientAmount::Count(1) },
        IngredientView {
            name: "Water"@,
            amount: IngredientAmount::Volume(
                Volume { unit: VolumeUnit::Cup, val: Scalar { bits: 0x4000_0000 } },
            ),
        },
    ]
}

impl Recipe {
    /// A sample recipe for top ramen: two servings, ten minutes. The identifier
    /// and the time of creation are the caller's to choose.
    pub fn top_ramen(id: RecipeId, created_on: Timestamp) -> (recipe: Recipe)
        ensures
            recipe@ == (RecipeView {
                id,
                name: top_ramen_name(),
                created_on,
                servings: Some(Scalar { bits: 0x4000_0000 }),
                ingredients: top_ramen_ingredients(),
                body: top_ramen_body(),
                time: Some(Span { secs: 600, nanos: 0 }),
            }),
    {
        let packet = Ingredient {
            name: "Top Ramen Packet".to_owned(),
            amount: IngredientAmount::Count(1),
        };
        let water = Ingredient {
            name: "Water".to_owned(),
            amount: IngredientAmount::Volume(Volume::new(VolumeUnit::Cup, Scalar::from_bits(0x4000_0000))),
        };
        let recipe = Recipe {
            id,
            name: "Top Ramen".to_owned(),
            created_on,
            servings: Some(Scalar::from_bits(0x4000_0000)),
            ingredients: vec![packet, water],
            body: "- Add water to small / medium pot and bring to boil\n- Remove noodle brick from packet and add to water\n- Allow noodles to cook for around 3 minutes, stirring occasionally\n- Remove heat and add flavor packet to noodles, ensuring that flavor spreads to noodles by stirring\n- Leave for 5-10 minutes to cool and enjoy".to_owned(),
            time: Some(Span { secs: 600, nanos: 0 }),
        };
        assert(recipe@.ingredients =~= top_ramen_ingredients());
        recipe
    }
}

} // verus!
