//! Instructions to craft items: named recipes with inputs, outputs, craft
//! time and an optional energy yield, and an exact textual rendering of
//! them.

use vstd::prelude::*;
use vstd::string::StringExecFns;

verus! {

/// The identity of an item or recipe, keyed by name.
#[derive(Debug, Clone)]
pub struct Id {
    name: String,
}

impl View for Id {
    type V = Seq<char>;

    closed spec fn view(&self) -> Seq<char> {
        self.name@
    }
}

impl Id {
    /// An identity with the given name.
    pub fn new(name: &str) -> (r: Self)
        ensures
            r@ == name@,
    {
        Id { name: name.to_owned() }
    }

    /// The ID of the acacia leaf item.
    pub fn acacia_leaf() -> (r: Self)
        ensures
            r@ == "acacia_leaf"@,
    {
        Self::new("acacia_leaf")
    }

    /// The ID of the leuco mushroom chunk item.
    pub fn leuco_chunk() -> (r: Self)
        ensures
            r@ == "leuco_chunk"@,
    {
        Self::new("leuco_chunk")
    }

    /// The ID of the ant egg item.
    pub fn ant_egg() -> (r: Self)
        ensures
            r@ == "ant_egg"@,
    {
        Self::new("ant_egg")
    }

    /// The ID of the recipe for the leaf production of acacia plants.
    pub fn acacia_leaf_production() -> (r: Self)
        ensures
            r@ == "acacia_leaf_production"@,
    {
        Self::new("acacia_leaf_production")
    }

    /// The ID of the recipe for mushroom production of leuco mushrooms.
    pub fn leuco_chunk_production() -> (r: Self)
        ensures
            r@ == "leuco_chunk_production"@,
    {
        Self::new("leuco_chunk_production")
    }

    /// The ID of the recipe to make more ant eggs from leuco mushrooms.
    pub fn ant_egg_production() -> (r: Self)
        ensures
            r@ == "ant_egg_production"@,
    {
        Self::new("ant_egg_production")
    }

    /// The ID of the recipe to hatch ant eggs into adult ants.
    pub fn hatch_ants() -> (r: Self)
        ensures
            r@ == "hatch_ants"@,
    {
        Self::new("hatch_ants")
    }
}

/// A number of items of one kind.
#[derive(Debug, Clone)]
pub struct ItemCount {
    pub item_id: Id,
    pub count: usize,
}

impl ItemCount {
    /// A single item of the given kind.
    pub fn one(item_id: Id) -> (r: Self)
        ensures
            r.item_id@ == item_id@,
            r.count == 1,
    {
        ItemCount { item_id, count: 1 }
    }
}

/// An amount of metabolic energy, in whole units.
#[derive(Debug, Clone, Copy, PartialEq, Eq, Structural)]
pub struct Energy(pub u64);

/// A span of simulated time, kept in whole milliseconds so that all
/// arithmetic on it is exact.
#[derive(Debug, Clone, Copy, PartialEq, Eq, Structural)]
pub struct Duration {
    millis: u64,
}

impl View for Duration {
    type V = nat;

    closed spec fn view(&self) -> nat {
        self.millis as nat
    }
}

impl Duration {
    /// A duration of `secs` whole seconds.
    pub fn from_secs(secs: u64) -> (r: Self)
        requires
            secs <= 1000000000,
        ensures
            r@ == secs * 1000,
    {
        Duration { millis: secs * 1000 }
    }

    /// A duration of `millis` milliseconds.
    pub fn from_millis(millis: u64) -> (r: Self)
        ensures
            r@ == millis,
    {
        Duration { millis }
    }

    /// The duration in whole milliseconds.
    pub fn as_millis(&self) -> (r: u64)
        ensures
            r == self@,
    {
        self.millis
    }
}


/// The decimal digit character for a value below ten.
pub open spec fn digit_char(d: nat) -> char {
    if d == 0 {
        '0'
    } else if d == 1 {
        '1'
    } else if d == 2 {
        '2'
    } else if d == 3 {
        '3'
    } else if d == 4 {
        '4'
    } else if d == 5 {
        '5'
    } else if d == 6 {
        '6'
    } else if d == 7 {
        '7'
    } else if d == 8 {
        '8'
    } else {
        '9'
    }
}

/// The decimal rendering of a natural number, most significant digit
/// first, with no leading zeroes.
pub open spec fn dec_spec(n: nat) -> Seq<char>
    decreases n,
{
    if n < 10 {
        seq![digit_char(n)]
    } else {
        dec_spec(n / 10).push(digit_char(n % 10))
    }
}

/// The rendering of an item count: the item name followed by the count in
/// parentheses.
pub open spec fn item_count_display(ic: ItemCount) -> Seq<char> {
    ic.item_id@ + " ("@ + dec_spec(ic.count as nat) + ")"@
}

/// The rendering of a list of item counts, comma separated.
pub open spec fn list_display(items: Seq<ItemCount>) -> Seq<char>
    decreases items.len(),
{
    if items.len() == 0 {
        Seq::empty()
    } else if items.len() == 1 {
        item_count_display(items[0])
    } else {
        list_display(items.drop_last()) + ", "@ + item_count_display(items.last())
    }
}

/// The rendering of a duration in seconds with two decimal places, rounded
/// to the nearest centisecond with halves rounding up.
pub open spec fn duration_display(millis: nat) -> Seq<char> {
    let centis = (millis + 5) / 10;
    let whole = centis / 100;
    let frac = centis % 100;
    dec_spec(whole) + "."@ + (if frac < 10 {
        "0"@ + dec_spec(frac)
    } else {
        dec_spec(frac)
    })
}

/// What a recipe consists of.
pub ghost struct RecipeDataView {
    /// The inputs needed to craft the recipe.
    pub inputs: Seq<ItemCount>,
    /// The outputs generated by crafting.
    pub outputs: Seq<ItemCount>,
    /// The time needed to craft the recipe, in milliseconds.
    pub craft_time_millis: nat,
    /// The energy produced by crafting, if any.
    pub energy: Option<Energy>,
}

/// The rendering of a recipe: its inputs, its outputs, and its craft time
/// in seconds.
pub open spec fn recipe_display(v: RecipeDataView) -> Seq<char> {
    "["@ + list_display(v.inputs) + "] -> ["@ + list_display(v.outputs) + "] | "@
        + duration_display(v.craft_time_millis) + " s"@
}

/// A recipe to turn a set of items into different items.
#[derive(Debug, Clone)]
pub struct RecipeData {
    inputs: Vec<ItemCount>,
    outputs: Vec<ItemCount>,
    craft_time: Duration,
    energy: Option<Energy>,
}

impl View for RecipeData {
    type V = RecipeDataView;

    closed spec fn view(&self) -> RecipeDataView {
        RecipeDataView {
            inputs: self.inputs@,
            outputs: self.outputs@,
            craft_time_millis: self.craft_time@,
            energy: self.energy,
        }
    }
}

impl RecipeData {
    /// Create a new recipe with the given inputs, outputs and craft time.
    pub fn new(
        inputs: Vec<ItemCount>,
        outputs: Vec<ItemCount>,
        craft_time: Duration,
        energy: Option<Energy>,
    ) -> (r: Self)
        ensures
            r@.inputs == inputs@,
            r@.outputs == outputs@,
            r@.craft_time_millis == craft_time@,
            r@.energy == energy,
    {
        Self { inputs, outputs, craft_time, energy }
    }

    /// The inputs needed to craft the recipe.
    pub fn inputs(&self) -> (r: &Vec<ItemCount>)
        ensures
            r@ == self@.inputs,
    {
        &self.inputs
    }

    /// The outputs generated by crafting.
    pub fn outputs(&self) -> (r: &Vec<ItemCount>)
        ensures
            r@ == self@.outputs,
    {
        &self.outputs
    }

    /// The time needed to craft the recipe.
    pub fn craft_time(&self) -> (r: Duration)
        ensures
            r@ == self@.craft_time_millis,
    {
        self.craft_time
    }

    /// The amount of energy produced by crafting the recipe, if any.
    pub fn energy(&self) -> (r: &Option<Energy>)
        ensures
            *r == self@.energy,
    {
        &self.energy
    }

    /// An acacia plant producing leaves.
    pub fn acacia_leaf_production() -> (r: Self)
        ensures
            r@.inputs.len() == 0,
            r@.outputs.len() == 1,
            r@.outputs[0].item_id@ == "acacia_leaf"@,
            r@.outputs[0].count == 1,
            r@.craft_time_millis == 3000,
            r@.energy == Some(Energy(20)),
    {
        RecipeData::new(
            Vec::new(),
            vec![ItemCount::one(Id::acacia_leaf())],
            Duration::from_secs(3),
            Some(Energy(20)),
        )
    }

    /// A leuco mushroom processing acacia leaves.
    pub fn leuco_chunk_production() -> (r: Self)
        ensures
            r@.inputs.len() == 1,
            r@.inputs[0].item_id@ == "acacia_leaf"@,
            r@.inputs[0].count == 1,
            r@.outputs.len() == 1,
            r@.outputs[0].item_id@ == "leuco_chunk"@,
            r@.outputs[0].count == 1,
            r@.craft_time_millis == 2000,
            r@.energy == Some(Energy(40)),
    {
        RecipeData::new(
            vec![ItemCount::one(Id::acacia_leaf())],
            vec![ItemCount::one(Id::leuco_chunk())],
            Duration::from_secs(2),
            Some(Energy(40)),
        )
    }

    /// An ant hive producing eggs.
    pub fn ant_egg_production() -> (r: Self)
        ensures
            r@.inputs.len() == 1,
            r@.inputs[0].item_id@ == "leuco_chunk"@,
            r@.inputs[0].count == 1,
            r@.outputs.len() == 1,
            r@.outputs[0].item_id@ == "ant_egg"@,
            r@.outputs[0].count == 1,
            r@.craft_time_millis == 5000,
            r@.energy is None,
    {
        RecipeData::new(
            vec![ItemCount::one(Id::leuco_chunk())],
            vec![ItemCount::one(Id::ant_egg())],
            Duration::from_secs(5),
            None,
        )
    }

    /// An ant hive hatching eggs into adult ants.
    pub fn hatch_ants() -> (r: Self)
        ensures
            r@.inputs.len() == 1,
            r@.inputs[0].item_id@ == "ant_egg"@,
            r@.inputs[0].count == 1,
            r@.outputs.len() == 0,
            r@.craft_time_millis == 2000,
            r@.energy is None,
    {
        RecipeData::new(vec![ItemCount::one(Id::ant_egg())], vec![], Duration::from_secs(2), None)
    }

    /// The exact textual rendering of the recipe: its inputs, outputs and
    /// craft time in seconds.
    pub fn to_display_string(&self) -> (s: String)
        requires
            self@.craft_time_millis <= 1000000000000,
        ensures
            s@ == recipe_display(self@),
    {
        let mut s = String::from_str("[");
        let inputs = list_string(&self.inputs);
        s.append(inputs.as_str());
        s.append("] -> [");
        let outputs = list_string(&self.outputs);
        s.append(outputs.as_str());
        s.append("] | ");
        let dur = duration_string(self.craft_time);
        s.append(dur.as_str());
        s.append(" s");
        proof {
            assert(s@ =~= recipe_display(self@));
        }
        s
    }
}

/// The one-character string for a decimal digit.
fn digit_str(d: u64) -> (r: &'static str)
    requires
        d < 10,
    ensures
        r@ == seq![digit_char(d as nat)],
{
    if d == 0 {
        proof {
            reveal_strlit("0");
            assert("0"@ =~= seq!['0']);
        }
        "0"
    } else if d == 1 {
        proof {
            reveal_strlit("1");
            assert("1"@ =~= seq!['1']);
        }
        "1"
    } else if d == 2 {
        proof {
            reveal_strlit("2");
            assert("2"@ =~= seq!['2']);
        }
        "2"
    } else if d == 3 {
        proof {
            reveal_strlit("3");
            assert("3"@ =~= seq!['3']);
        }
        "3"
    } else if d == 4 {
        proof {
            reveal_strlit("4");
            assert("4"@ =~= seq!['4']);
        }
        "4"
    } else if d == 5 {
        proof {
            reveal_strlit("5");
            assert("5"@ =~= seq!['5']);
        }
        "5"
    } else if d == 6 {
        proof {
            reveal_strlit("6");
            assert("6"@ =~= seq!['6']);
        }
        "6"
    } else if d == 7 {
        proof {
            reveal_strlit("7");
            assert("7"@ =~= seq!['7']);
        }
        "7"
    } else if d == 8 {
        proof {
            reveal_strlit("8");
            assert("8"@ =~= seq!['8']);
        }
        "8"
    } else {
        proof {
            reveal_strlit("9");
            assert("9"@ =~= seq!['9']);
        }
        "9"
    }
}

/// The decimal rendering of `n`, most significant digit first.
fn u64_dec_string(n: u64) -> (s: String)
    ensures
        s@ == dec_spec(n as nat),
    decreases n,
{
    if n < 10 {
        String::from_str(digit_str(n))
    } else {
        let mut s = u64_dec_string(n / 10);
        s.append(digit_str(n % 10));
        proof {
            assert(s@ =~= dec_spec(n as nat));
        }
        s
    }
}

/// The rendering of one item count.
fn item_count_string(ic: &ItemCount) -> (s: String)
    ensures
        s@ == item_count_display(*ic),
{
    let mut s = String::from_str(ic.item_id.name.as_str());
    s.append(" (");
    let count = u64_dec_string(ic.count as u64);
    s.append(count.as_str());
    s.append(")");
    proof {
        assert(s@ =~= item_count_display(*ic));
    }
    s
}

/// The rendering of a list of item counts, comma separated.
fn list_string(items: &Vec<ItemCount>) -> (s: String)
    ensures
        s@ == list_display(items@),
{
    let mut s = String::new();
    let mut i: usize = 0;
    while i < items.len()
        invariant
            0 <= i <= items@.len(),
            s@ == list_display(items@.take(i as int)),
        decreases items@.len() - i,
    {
        if i > 0 {
            s.append(", ");
        }
        let ics = item_count_string(&items[i]);
        s.append(ics.as_str());
        proof {
            assert(items@.take(i as int + 1).drop_last() =~= items@.take(i as int));
            assert(items@.take(i as int + 1).last() == items@[i as int]);
            assert(s@ =~= list_display(items@.take(i as int + 1)));
        }
        i = i + 1;
    }
    proof {
        assert(items@.take(items@.len() as int) =~= items@);
    }
    s
}

/// The rendering of a duration in seconds with two decimal places.
fn duration_string(d: Duration) -> (s: String)
    requires
        d@ <= 1000000000000,
    ensures
        s@ == duration_display(d@),
{
    let millis = d.as_millis();
    let centis = (millis + 5) / 10;
    let whole = centis / 100;
    let frac = centis % 100;
    let mut s = u64_dec_string(whole);
    s.append(".");
    if frac < 10 {
        s.append("0");
        let fs = u64_dec_string(frac);
        s.append(fs.as_str());
    } else {
        let fs = u64_dec_string(frac);
        s.append(fs.as_str());
    }
    proof {
        assert(s@ =~= duration_display(d@));
    }
    s
}

} // verus!
