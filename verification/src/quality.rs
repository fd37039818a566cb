//! The quality tier of a dice pool.

use std::cmp::Ordering;
use vstd::prelude::*;
use vstd::std_specs::cmp::PartialOrdSpecImpl;

verus! {

/// The tier of a stat. A die succeeds when its face reaches the tier's
/// threshold, so a better tier has a lower threshold.
///
/// Tiers are ordered by capability: `Basic < Adept < Superb`.
#[derive(Clone, Copy, Debug, PartialEq, Eq, Structural, Ord, Hash)]
pub enum Quality {
    Basic,
    Adept,
    Superb,
}

impl Quality {
    /// The lowest face that counts as a success for this tier.
    pub open spec fn spec_threshold(self) -> u8 {
        match self {
            Quality::Basic => 4,
            Quality::Adept => 3,
            Quality::Superb => 2,
        }
    }

    /// Position of the tier in the order of capability, `Basic` lowest.
    pub open spec fn rank(self) -> int {
        match self {
            Quality::Basic => 0,
            Quality::Adept => 1,
            Quality::Superb => 2,
        }
    }

    /// The tier that a letter of the stat notation stands for: `A` or `a`
    /// for `Adept`, `S` or `s` for `Superb`, and `Basic` for every other
    /// character.
    pub open spec fn of_letter(c: char) -> Quality {
        if c == 'A' || c == 'a' {
            Quality::Adept
        } else if c == 'S' || c == 's' {
            Quality::Superb
        } else {
            Quality::Basic
        }
    }

    /// The capital letter that stands for this tier in the stat notation.
    pub open spec fn spec_letter(self) -> char {
        match self {
            Quality::Basic => 'B',
            Quality::Adept => 'A',
            Quality::Superb => 'S',
        }
    }

    /// The name of the tier in full.
    pub open spec fn name(self) -> Seq<char> {
        match self {
            Quality::Basic => "Basic"@,
            Quality::Adept => "Adept"@,
            Quality::Superb => "Superb"@,
        }
    }

    /// The tier that a letter of the stat notation stands for. No letter is
    /// refused: what is neither an `A` nor an `S`, in either case, is
    /// `Basic`.
    pub fn from_letter(c: char) -> (quality: Quality)
        ensures
            quality == Quality::of_letter(c),
    {
        match c {
            'A' | 'a' => Quality::Adept,
            'S' | 's' => Quality::Superb,
            _ => Quality::Basic,
        }
    }

    /// The capital letter that stands for this tier in the stat notation.
    #[verifier::when_used_as_spec(spec_letter)]
    pub fn letter(self) -> (c: char)
        ensures
            c == self.spec_letter(),
            Quality::of_letter(c) == self,
    {
        match self {
            Quality::Basic => 'B',
            Quality::Adept => 'A',
            Quality::Superb => 'S',
        }
    }

    /// The name of the tier in full: `Basic`, `Adept` or `Superb`.
    pub fn to_string(&self) -> (text: String)
        ensures
            text@ == self.name(),
    {
        match self {
            Quality::Basic => String::from_str("Basic"),
            Quality::Adept => String::from_str("Adept"),
            Quality::Superb => String::from_str("Superb"),
        }
    }

    /// The lowest face that counts as a success for this tier.
    #[verifier::when_used_as_spec(spec_threshold)]
    pub fn threshold(self) -> (t: u8)
        ensures
            t == self.spec_threshold(),
    {
        match self {
            Quality::Basic => 4,
            Quality::Adept => 3,
            Quality::Superb => 2,
        }
    }
}

impl PartialOrd for Quality {
    /// Compares two tiers by capability: the one with the lower threshold
    /// is the greater.
    fn partial_cmp(&self, other: &Quality) -> (r: Option<Ordering>) {
        let a: u8 = self.threshold();
        let b: u8 = other.threshold();
        if a > b {
            Some(Ordering::Less)
        } else if a < b {
            Some(Ordering::Greater)
        } else {
            Some(Ordering::Equal)
        }
    }
}

impl PartialOrdSpecImpl for Quality {
    open spec fn obeys_partial_cmp_spec() -> bool {
        true
    }

    open spec fn partial_cmp_spec(&self, other: &Quality) -> Option<Ordering> {
        if self.rank() < other.rank() {
            Some(Ordering::Less)
        } else if self.rank() > other.rank() {
            Some(Ordering::Greater)
        } else {
            Some(Ordering::Equal)
        }
    }
}

/// A better tier asks less of a die: tiers rank in the reverse order of
/// their thresholds.
pub proof fn lemma_rank_reverses_threshold(a: Quality, b: Quality)
    ensures
        a.rank() < b.rank() <==> a.spec_threshold() > b.spec_threshold(),
        a.rank() == b.rank() <==> a == b,
        Quality::Basic.rank() < Quality::Adept.rank() < Quality::Superb.rank(),
{
}

} // verus!
