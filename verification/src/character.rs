//! The character sheet: who rolls the dice, and with which stats.

use crate::quirk::{Inspiration, Quirk, QuirkView};
use crate::stat::{Stat, StatView};
use vstd::prelude::*;

verus! {

/// Something a character carries.
#[derive(Clone, Debug, PartialEq)]
pub struct Item {
    pub name: String,
    pub quantity: usize,
    pub description: String,
}

/// What an [`Item`] holds, as mathematical values.
pub struct ItemView {
    pub name: Seq<char>,
    pub quantity: nat,
    pub description: Seq<char>,
}

impl View for Item {
    type V = ItemView;

    open spec fn view(&self) -> ItemView {
        ItemView {
            name: self.name@,
            quantity: self.quantity as nat,
            description: self.description@,
        }
    }
}

impl ItemView {
    /// The entry that a sheet starts `name` with: none in stock, nothing
    /// written about it.
    pub open spec fn fresh(name: Seq<char>) -> ItemView {
        ItemView { name, quantity: 0, description: Seq::empty() }
    }
}

impl Item {
    /// An item of the given name, with none in stock and no description.
    #[must_use]
    pub fn new(name: String) -> (item: Item)
        ensures
            item@ == ItemView::fresh(name@),
    {
        Item { name, quantity: 0, description: String::new() }
    }
}

impl Default for Item {
    /// The item that a sheet offers before it is given a name of its own.
    fn default() -> (item: Item)
        ensures
            item@ == ItemView::fresh("New Item!"@),
    {
        Item::new(String::from_str("New Item!"))
    }
}

/// Everything known about a character.
#[derive(Clone, Debug, PartialEq)]
pub struct Character {
    pub name: String,
    pub stock: String,
    pub stats: Vec<Stat>,
    pub skills: Vec<Stat>,
    pub finite_resources: Vec<Stat>,
    pub infinite_resources: Vec<Stat>,
    pub quirks: Vec<Quirk>,
    pub inspiration: Inspiration,
    pub argos: String,
    pub inventory: Vec<Item>,
}

/// What a [`Character`] holds, as mathematical values.
pub struct CharacterView {
    pub name: Seq<char>,
    pub stock: Seq<char>,
    pub stats: Seq<StatView>,
    pub skills: Seq<StatView>,
    pub finite_resources: Seq<StatView>,
    pub infinite_resources: Seq<StatView>,
    pub quirks: Seq<QuirkView>,
    pub inspiration: Inspiration,
    pub argos: Seq<char>,
    pub inventory: Seq<ItemView>,
}

impl View for Character {
    type V = CharacterView;

    open spec fn view(&self) -> CharacterView {
        CharacterView {
            name: self.name@,
            stock: self.stock@,
            stats: self.stats@.map_values(|stat: Stat| stat@),
            skills: self.skills@.map_values(|stat: Stat| stat@),
            finite_resources: self.finite_resources@.map_values(|stat: Stat| stat@),
            infinite_resources: self.infinite_resources@.map_values(|stat: Stat| stat@),
            quirks: self.quirks@.map_values(|quirk: Quirk| quirk@),
            inspiration: self.inspiration,
            argos: self.argos@,
            inventory: self.inventory@.map_values(|item: Item| item@),
        }
    }
}

/// The names of the six stats that every character has, in the order of the
/// sheet.
pub open spec fn core_stat_names() -> Seq<Seq<char>> {
    seq!["Will"@, "Perception"@, "Conscious"@, "Power"@, "Speed"@, "Forte"@]
}

impl CharacterView {
    /// The sheet of a character who has just been named: the six core
    /// stats, each fresh, a stock still to be chosen, and nothing else.
    pub open spec fn fresh(name: Seq<char>) -> CharacterView {
        CharacterView {
            name,
            stock: "Stock"@,
            stats: core_stat_names().map_values(|stat: Seq<char>| StatView::fresh(stat)),
            skills: Seq::empty(),
            finite_resources: Seq::empty(),
            infinite_resources: Seq::empty(),
            quirks: Seq::empty(),
            inspiration: Inspiration { ethos: 0, pathos: 0, logos: 0 },
            argos: Seq::empty(),
            inventory: Seq::empty(),
        }
    }
}

impl Character {
    /// The sheet of a new character of the given name: the six core stats
    /// at one basic die each, and nothing else yet.
    #[must_use]
    pub fn new(name: String) -> (character: Character)
        ensures
            character@ == CharacterView::fresh(name@),
    {
        let mut stats: Vec<Stat> = Vec::new();
        stats.push(Stat::new(String::from_str("Will")));
        stats.push(Stat::new(String::from_str("Perception")));
        stats.push(Stat::new(String::from_str("Conscious")));
        stats.push(Stat::new(String::from_str("Power")));
        stats.push(Stat::new(String::from_str("Speed")));
        stats.push(Stat::new(String::from_str("Forte")));
        let character = Character {
            name,
            stock: String::from_str("Stock"),
            stats,
            skills: Vec::new(),
            quirks: Vec::new(),
            finite_resources: Vec::new(),
            infinite_resources: Vec::new(),
            inspiration: Inspiration::new(),
            argos: String::new(),
            inventory: Vec::new(),
        };
        assert(character@.stats =~= CharacterView::fresh(name@).stats);
        assert(character@.skills =~= Seq::empty());
        assert(character@.finite_resources =~= Seq::empty());
        assert(character@.infinite_resources =~= Seq::empty());
        assert(character@.quirks =~= Seq::empty());
        assert(character@.inventory =~= Seq::empty());
        character
    }
}

impl Default for Character {
    /// The sheet of a character who has not been named yet.
    fn default() -> (character: Character)
        ensures
            character@ == CharacterView::fresh("Name"@),
    {
        Character::new(String::from_str("Name"))
    }
}

} // verus!
