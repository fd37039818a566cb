//! Obstacles: how many successes a roll has to reach.

use crate::notation::{chars_of, parse_number, quantity_or_one, ParseError};
use vstd::prelude::*;
use vstd::slice::slice_subrange;
use vstd::std_specs::convert::TryFromSpecImpl;

verus! {

/// The least number of successes that passes a check.
#[derive(Clone, Copy, Debug, PartialEq, Eq, Structural)]
pub struct Obstacle(pub usize);

impl Obstacle {
    /// The obstacle that `text` writes in the notation of obstacles: a tag
    /// of two characters, `Ob` or `ob`, then the level.
    ///
    /// The first two characters are taken for the tag without being looked
    /// at, and text too short to hold them is refused. The level is `1`
    /// where the rest does not write a number.
    pub open spec fn spec_parse(text: Seq<char>) -> Result<Obstacle, ParseError> {
        if text.len() < 2 {
            Err(ParseError::InvalidFormat)
        } else {
            Ok(Obstacle(quantity_or_one(text.skip(2))))
        }
    }

    /// Reads an obstacle from its notation, such as `Ob3`.
    ///
    /// Fails with [`ParseError::InvalidFormat`] on text of fewer than two
    /// characters, and on no other.
    pub fn parse(text: &str) -> (obstacle: Result<Obstacle, ParseError>)
        ensures
            obstacle == Obstacle::spec_parse(text@),
    {
        let chars = chars_of(text);
        if chars.len() < 2 {
            return Err(ParseError::InvalidFormat);
        }
        let rest = slice_subrange(chars.as_slice(), 2, chars.len());
        assert(rest@ =~= text@.skip(2));
        let level: usize = match parse_number(rest) {
            Ok(n) => n,
            Err(_) => 1,
        };
        Ok(Obstacle(level))
    }
}

impl TryFrom<String> for Obstacle {
    type Error = ParseError;

    /// Reads an obstacle from its notation, as [`Obstacle::parse`] does.
    fn try_from(value: String) -> (obstacle: Result<Obstacle, ParseError>) {
        Obstacle::parse(value.as_str())
    }
}

impl TryFromSpecImpl<String> for Obstacle {
    open spec fn obeys_try_from_spec() -> bool {
        true
    }

    open spec fn try_from_spec(value: String) -> Result<Obstacle, ParseError> {
        Obstacle::spec_parse(value@)
    }
}

/// Text of fewer than two characters is never read as an obstacle.
pub proof fn lemma_short_text_is_refused(text: Seq<char>)
    requires
        text.len() < 2,
    ensures
        Obstacle::spec_parse(text) == Err::<Obstacle, ParseError>(ParseError::InvalidFormat),
{
}

} // verus!
