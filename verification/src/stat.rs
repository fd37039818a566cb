//! Stats: a named pool of dice of one quality.

use crate::notation::{
    chars_of, lemma_number_round_trip, number_text, parse_number, push_number, quantity_or_one,
};
use crate::quality::Quality;
use vstd::prelude::*;
use vstd::slice::slice_subrange;
use vstd::std_specs::convert::FromSpecImpl;

verus! {

/// A pool of dice: `quantity` dice that succeed at the threshold of
/// `quality`. `checks` counts how often the stat was used; stats that do not
/// track usage carry `None`.
#[derive(Clone, Debug, PartialEq)]
pub struct Stat {
    pub name: String,
    pub quality: Quality,
    pub quantity: usize,
    pub checks: Option<usize>,
}

/// What a [`Stat`] holds, as mathematical values.
pub struct StatView {
    pub name: Seq<char>,
    pub quality: Quality,
    pub quantity: nat,
    pub checks: Option<nat>,
}

impl View for Stat {
    type V = StatView;

    open spec fn view(&self) -> StatView {
        StatView {
            name: self.name@,
            quality: self.quality,
            quantity: self.quantity as nat,
            checks: match self.checks {
                Some(n) => Some(n as nat),
                None => None,
            },
        }
    }
}

impl StatView {
    /// The stat that a fresh sheet gives to `name`: one basic die, no checks
    /// made yet.
    pub open spec fn fresh(name: Seq<char>) -> StatView {
        StatView { name, quality: Quality::Basic, quantity: 1, checks: Some(0nat) }
    }

    /// The stat that `text` writes in the notation of stats: the letter of
    /// a quality, then a quantity.
    ///
    /// Text that is empty reads as a fresh stat. Otherwise the first
    /// character gives the quality, whatever it is, and the rest the
    /// quantity, which is `1` where the rest does not write a number. The
    /// notation has no place for a name or a check counter: a stat read from
    /// it is unnamed and has made no checks.
    pub open spec fn parse(text: Seq<char>) -> StatView {
        if text.len() == 0 {
            StatView::fresh(Seq::empty())
        } else {
            StatView {
                name: Seq::empty(),
                quality: Quality::of_letter(text[0]),
                quantity: quantity_or_one(text.drop_first()) as nat,
                checks: Some(0nat),
            }
        }
    }

    /// The stat in the notation of stats: the letter of its quality, then
    /// its quantity in decimal. Name and check counter are not written.
    pub open spec fn notation(self) -> Seq<char> {
        seq![self.quality.spec_letter()] + number_text(self.quantity)
    }
}

impl Stat {
    /// A stat of one basic die under the given name, with its check counter
    /// at zero.
    #[must_use]
    pub fn new(name: String) -> (stat: Stat)
        ensures
            stat@ == StatView::fresh(name@),
    {
        Stat { name, quality: Quality::Basic, quantity: 1, checks: Some(0) }
    }

    /// Reads a stat from its notation, such as `S10`. Never fails: a letter
    /// that names no quality reads as `Basic`, a quantity that is no number
    /// as `1`.
    pub fn parse(text: &str) -> (stat: Stat)
        ensures
            stat@ == StatView::parse(text@),
    {
        let chars = chars_of(text);
        if chars.len() == 0 {
            return Stat::new(String::new());
        }
        let quality = Quality::from_letter(chars[0]);
        let rest = slice_subrange(chars.as_slice(), 1, chars.len());
        assert(rest@ =~= text@.drop_first());
        let quantity: usize = match parse_number(rest) {
            Ok(n) => n,
            Err(_) => 1,
        };
        Stat { name: String::new(), quality, quantity, checks: Some(0) }
    }

    /// Writes the stat in its notation, such as `S10`. The name and the
    /// check counter are left out.
    pub fn to_string(&self) -> (text: String)
        ensures
            text@ == self@.notation(),
    {
        let mut text = String::new();
        match self.quality {
            Quality::Basic => text.append("B"),
            Quality::Adept => text.append("A"),
            Quality::Superb => text.append("S"),
        }
        proof {
            reveal_strlit("B");
            reveal_strlit("A");
            reveal_strlit("S");
            assert(text@ =~= seq![self.quality.spec_letter()]);
        }
        push_number(&mut text, self.quantity);
        text
    }
}

impl From<String> for Stat {
    /// Reads a stat from its notation, as [`Stat::parse`] does.
    fn from(value: String) -> (stat: Stat)
        ensures
            stat@ == StatView::parse(value@),
    {
        Stat::parse(value.as_str())
    }
}

/// What `from` returns is stated by its own `ensures`, over the view of the
/// stat. No stat is named for it here: the name of the result is a `String`,
/// of which ghost code knows the characters only.
impl FromSpecImpl<String> for Stat {
    open spec fn obeys_from_spec() -> bool {
        false
    }

    open spec fn from_spec(value: String) -> Stat {
        arbitrary()
    }
}

/// Writing a stat and reading it back keeps quality and quantity, and drops
/// the rest: whatever the name and the check counter were, the stat read
/// back is unnamed and has made no checks.
pub proof fn lemma_notation_keeps_the_pool(stat: StatView)
    requires
        stat.quantity <= usize::MAX,
    ensures
        StatView::parse(stat.notation()) == (StatView {
            name: Seq::empty(),
            quality: stat.quality,
            quantity: stat.quantity,
            checks: Some(0nat),
        }),
{
    let text = stat.notation();
    lemma_number_round_trip(stat.quantity as usize);
    assert(text.drop_first() =~= number_text(stat.quantity));
}

/// Reading, writing and reading again changes nothing: the notation of a
/// stat that was read from any text at all reads as that same stat.
pub proof fn lemma_parse_is_idempotent(text: Seq<char>)
    ensures
        StatView::parse(StatView::parse(text).notation()) == StatView::parse(text),
{
    lemma_notation_keeps_the_pool(StatView::parse(text));
}

} // verus!
