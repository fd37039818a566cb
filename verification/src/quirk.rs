//! Quirks and inspiration: the traits of a character that are not dice.

use vstd::prelude::*;

verus! {

/// The side of a character that a quirk belongs to.
#[derive(Clone, Copy, Debug, PartialEq, Eq, Structural)]
pub enum QuirkCategory {
    Ethos,
    Pathos,
    Logos,
    Uncategorized,
}

/// A trait of a character. Boons and flaws may both be empty: some quirks
/// are neither help nor hindrance.
#[derive(Clone, Debug, PartialEq)]
pub struct Quirk {
    pub name: String,
    pub category: QuirkCategory,
    pub description: String,
    pub boons: Vec<String>,
    pub flaws: Vec<String>,
}

/// What a [`Quirk`] holds, as mathematical values.
pub struct QuirkView {
    pub name: Seq<char>,
    pub category: QuirkCategory,
    pub description: Seq<char>,
    pub boons: Seq<Seq<char>>,
    pub flaws: Seq<Seq<char>>,
}

impl View for Quirk {
    type V = QuirkView;

    open spec fn view(&self) -> QuirkView {
        QuirkView {
            name: self.name@,
            category: self.category,
            description: self.description@,
            boons: self.boons@.map_values(|boon: String| boon@),
            flaws: self.flaws@.map_values(|flaw: String| flaw@),
        }
    }
}

impl QuirkView {
    /// The quirk that a sheet starts `name` with: filed under ethos, with
    /// nothing written about it yet.
    pub open spec fn fresh(name: Seq<char>) -> QuirkView {
        QuirkView {
            name,
            category: QuirkCategory::Ethos,
            description: Seq::empty(),
            boons: Seq::empty(),
            flaws: Seq::empty(),
        }
    }
}

impl Quirk {
    /// A quirk of the given name, filed under ethos, without description,
    /// boons or flaws.
    #[must_use]
    pub fn new(name: String) -> (quirk: Quirk)
        ensures
            quirk@ == QuirkView::fresh(name@),
    {
        let quirk = Quirk {
            name,
            description: String::new(),
            category: QuirkCategory::Ethos,
            boons: Vec::new(),
            flaws: Vec::new(),
        };
        assert(quirk@.boons =~= Seq::empty());
        assert(quirk@.flaws =~= Seq::empty());
        quirk
    }
}

impl Default for Quirk {
    /// The quirk that a sheet offers before it is given a name of its own.
    fn default() -> (quirk: Quirk)
        ensures
            quirk@ == QuirkView::fresh("New Quirk!"@),
    {
        Quirk::new(String::from_str("New Quirk!"))
    }
}

/// The inspiration a character has gathered, counted for each of the three
/// sides.
#[derive(Clone, Copy, Debug, PartialEq, Eq, Structural)]
pub struct Inspiration {
    pub ethos: usize,
    pub pathos: usize,
    pub logos: usize,
}

impl Inspiration {
    /// No inspiration on any side.
    #[must_use]
    pub fn new() -> (inspiration: Inspiration)
        ensures
            inspiration == (Inspiration { ethos: 0, pathos: 0, logos: 0 }),
    {
        Inspiration { ethos: 0, pathos: 0, logos: 0 }
    }
}

impl Default for Inspiration {
    /// No inspiration on any side.
    fn default() -> (inspiration: Inspiration)
        ensures
            inspiration == (Inspiration { ethos: 0, pathos: 0, logos: 0 }),
    {
        Inspiration::new()
    }
}

} // verus!
