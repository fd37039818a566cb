//! Rolling a stat.
//!
//! A stat of quality `Q` and quantity `n` rolls `n` six-sided dice; each die
//! that shows at least the threshold of `Q` is a success, every other die a
//! failure.
//!
//! *Advantage* makes sixes explode: a six still scores, and one more die is
//! rolled for it, for as long as sixes keep coming. Each level of advantage
//! beyond the first adds one die to the pool.
//!
//! *Disadvantage* punishes ones: a one takes a success away, on top of being
//! a failure. Each level of disadvantage beyond the first removes one die
//! from the pool; a pool that cannot pay for them rolls nothing.
//!
//! Exploding dice put no bound on the length of a roll. A roll here stops
//! after [`MAX_DICE`] dice at the latest, which is as many faces as a vector
//! can hold and as many successes as the tally can count.

use crate::stat::Stat;
use vstd::prelude::*;

verus! {

/// The most dice a single roll draws.
pub const MAX_DICE: usize = isize::MAX as usize;

/// The outcome of a roll.
#[derive(Clone, Debug)]
pub struct RollResult {
    /// Successes scored. Negative when disadvantage took away more than the
    /// dice earned.
    pub successes: isize,
    /// Dice that fell short of the threshold.
    pub failures: usize,
    /// The face of every die rolled, in the order rolled, each in `1..=6`.
    pub results: Vec<u8>,
}

/// Whether `face` is a face of a six-sided die.
pub open spec fn is_face(face: u8) -> bool {
    1 <= face <= 6
}

/// How many of `faces` show exactly `face`.
pub open spec fn count_face(faces: Seq<u8>, face: u8) -> nat
    decreases faces.len(),
{
    if faces.len() == 0 {
        0
    } else {
        count_face(faces.drop_last(), face) + if faces.last() == face {
            1nat
        } else {
            0nat
        }
    }
}

/// How many of `faces` show `threshold` or more.
pub open spec fn count_hits(faces: Seq<u8>, threshold: u8) -> nat
    decreases faces.len(),
{
    if faces.len() == 0 {
        0
    } else {
        count_hits(faces.drop_last(), threshold) + if faces.last() >= threshold {
            1nat
        } else {
            0nat
        }
    }
}

/// The dice that advantage adds to a pool: one for each level beyond the
/// first.
pub open spec fn bonus_dice(advantage: nat) -> nat {
    if advantage > 0 {
        (advantage - 1) as nat
    } else {
        0
    }
}

/// The smaller of two counts.
pub open spec fn shorter(a: nat, b: nat) -> nat {
    if a <= b {
        a
    } else {
        b
    }
}

/// The dice a roll starts with: the stat's quantity, one more for each level
/// of advantage beyond the first, one fewer for each level of disadvantage
/// beyond the first; none at all when that asks for more dice than there
/// are.
pub open spec fn pool_size(quantity: nat, advantage: nat, disadvantage: nat) -> nat {
    let dice = quantity + bonus_dice(advantage);
    let cut = if disadvantage > 0 {
        disadvantage - 1
    } else {
        0
    };
    if cut > dice {
        0
    } else {
        (dice - cut) as nat
    }
}

/// The dice still to roll once `drawn` have come out of a pool of `pool`
/// dice: each die rolled uses one up, each six gives one back when sixes
/// explode.
pub open spec fn dice_left(pool: nat, exploding: bool, drawn: Seq<u8>) -> int {
    pool - drawn.len() + if exploding {
        count_face(drawn, 6)
    } else {
        0
    }
}

/// The successes that `drawn` score: one for each die at or above
/// `threshold`, less one for each die showing a one when ones are penalised.
pub open spec fn successes_of(threshold: u8, penalised: bool, drawn: Seq<u8>) -> int {
    count_hits(drawn, threshold) - if penalised {
        count_face(drawn, 1)
    } else {
        0
    }
}

/// The failures among `drawn`: the dice below `threshold`.
pub open spec fn failures_of(threshold: u8, drawn: Seq<u8>) -> int {
    drawn.len() - count_hits(drawn, threshold)
}

/// `drawn` is what a roll of `pool` dice draws when `limit` dice are to be
/// had: no die was rolled after the pool ran dry, and the roll went on until
/// the pool ran dry or the dice ran out.
pub open spec fn is_drawn(pool: nat, exploding: bool, limit: nat, drawn: Seq<u8>) -> bool {
    &&& drawn.len() <= limit
    &&& forall|k: int| 0 <= k < drawn.len() ==> dice_left(pool, exploding, #[trigger] drawn.take(k)) > 0
    &&& (dice_left(pool, exploding, drawn) == 0 || drawn.len() == limit)
}

impl RollResult {
    /// The result describes a roll of `pool` dice scored at `threshold`,
    /// with `limit` dice to be had: the faces are those of dice, they are
    /// the dice that such a roll draws, and the tallies are their score.
    pub open spec fn is_roll(
        &self,
        threshold: u8,
        pool: nat,
        exploding: bool,
        penalised: bool,
        limit: nat,
    ) -> bool {
        &&& forall|i: int| 0 <= i < self.results@.len() ==> is_face(#[trigger] self.results@[i])
        &&& is_drawn(pool, exploding, limit, self.results@)
        &&& self.successes == successes_of(threshold, penalised, self.results@)
        &&& self.failures == failures_of(threshold, self.results@)
    }

    /// The result of a roll that drew no dice.
    pub open spec fn is_empty(&self) -> bool {
        &&& self.successes == 0
        &&& self.failures == 0
        &&& self.results@.len() == 0
    }

    /// The result holds the dice of a roll that has `left` dice still to
    /// draw: what [`RollResult::is_roll`] asks, but for the end of the roll.
    pub open spec fn is_underway(
        &self,
        left: int,
        threshold: u8,
        pool: nat,
        exploding: bool,
        penalised: bool,
    ) -> bool {
        &&& self.results@.len() <= MAX_DICE
        &&& forall|i: int| 0 <= i < self.results@.len() ==> is_face(#[trigger] self.results@[i])
        &&& forall|k: int|
            0 <= k < self.results@.len() ==> dice_left(
                pool,
                exploding,
                #[trigger] self.results@.take(k),
            ) > 0
        &&& left == dice_left(pool, exploding, self.results@)
        &&& self.successes == successes_of(threshold, penalised, self.results@)
        &&& self.failures == failures_of(threshold, self.results@)
    }

    /// Rolls one more die, showing `face`, in a roll with `left` dice still
    /// to draw, and returns how many are to draw after it.
    fn draw(
        &mut self,
        left: u128,
        face: u8,
        threshold: u8,
        exploding: bool,
        penalised: bool,
        Ghost(pool): Ghost<nat>,
    ) -> (rest: u128)
        requires
            old(self).is_underway(left as int, threshold, pool, exploding, penalised),
            old(self).results@.len() < MAX_DICE,
            left > 0,
            is_face(face),
        ensures
            final(self).results@ == old(self).results@.push(face),
            final(self).is_underway(rest as int, threshold, pool, exploding, penalised),
    {
        let ghost before = self.results@;
        proof {
            lemma_count_push(before, face, 6);
            lemma_count_push(before, face, 1);
            lemma_hits_push(before, face, threshold);
            lemma_counts_bounded(before, 1, threshold);
        }
        let rest: u128 = if exploding && face == 6 {
            left
        } else {
            left - 1
        };
        if penalised && face == 1 {
            self.successes = self.successes - 1;
        }
        if face >= threshold {
            self.successes = self.successes + 1;
        } else {
            self.failures = self.failures + 1;
        }
        self.results.push(face);
        proof {
            let after = self.results@;
            assert(after == before.push(face));
            assert forall|k: int| 0 <= k < after.len() implies dice_left(
                pool,
                exploding,
                #[trigger] after.take(k),
            ) > 0 by {
                if k < before.len() {
                    assert(after.take(k) =~= before.take(k));
                } else {
                    assert(after.take(k) =~= before);
                }
            }
        }
        rest
    }
}

/// The dice a roll of `quantity` dice starts with under the given levels of
/// advantage and disadvantage. The sum of two `usize` fits no `usize`, so
/// the pool is counted in `u128`.
pub fn starting_dice(quantity: usize, advantage: usize, disadvantage: usize) -> (dice: u128)
    ensures
        dice == pool_size(quantity as nat, advantage as nat, disadvantage as nat),
{
    let bonus: usize = if advantage > 0 {
        advantage - 1
    } else {
        0
    };
    let cut: usize = if disadvantage > 0 {
        disadvantage - 1
    } else {
        0
    };
    let dice: u128 = quantity as u128 + bonus as u128;
    if cut as u128 > dice {
        0
    } else {
        dice - cut as u128
    }
}

/// The face that a random byte stands for: the bytes are dealt to the six
/// faces in turn, `0` to face one, `5` to face six, `6` to face one again.
pub fn face_from_byte(byte: u8) -> (face: u8)
    ensures
        face == byte % 6 + 1,
        is_face(face),
{
    byte % 6 + 1
}

/// Whether every one of `faces` is a face of a die.
pub fn all_faces(faces: &[u8]) -> (all: bool)
    ensures
        all <==> forall|i: int| 0 <= i < faces@.len() ==> is_face(#[trigger] faces@[i]),
{
    let mut i: usize = 0;
    while i < faces.len()
        invariant
            i <= faces@.len(),
            forall|j: int| 0 <= j < i ==> is_face(#[trigger] faces@[j]),
        decreases faces@.len() - i,
    {
        if faces[i] < 1 || faces[i] > 6 {
            return false;
        }
        i += 1;
    }
    true
}

/// One byte from the random number generator of the calling thread, as
/// `rand::random::<u8>()` gives it. Every byte can come back, and two calls
/// need not agree, so nothing is claimed of the result.
#[verifier::external_body]
fn random_byte() -> (byte: u8) {
    rand::random::<u8>()
}

/// The dice that a roll can draw from `faces`: all of them, up to
/// [`MAX_DICE`].
pub open spec fn dice_to_be_had(faces: Seq<u8>) -> nat {
    if faces.len() <= MAX_DICE {
        faces.len()
    } else {
        MAX_DICE as nat
    }
}

/// Rolls `stat` with the given levels of advantage and disadvantage, taking
/// the dice from `faces` in order instead of rolling them.
///
/// Returns `None` when `faces` holds anything but faces of a die. Otherwise
/// the roll draws from the front of `faces` until its pool is empty, and ends
/// early, with the dice it has, when `faces` runs out first. Faces left over
/// are ignored.
pub fn roll_faces(stat: &Stat, advantage: usize, disadvantage: usize, faces: &[u8]) -> (outcome:
    Option<RollResult>)
    ensures
        outcome is Some <==> forall|i: int| 0 <= i < faces@.len() ==> is_face(#[trigger] faces@[i]),
        outcome matches Some(roll) ==> {
            &&& roll.results@ == faces@.take(roll.results@.len() as int)
            &&& roll.is_roll(
                stat.quality.threshold(),
                pool_size(stat.quantity as nat, advantage as nat, disadvantage as nat),
                advantage > 0,
                disadvantage > 0,
                dice_to_be_had(faces@),
            )
            &&& stat.quantity == 0 && advantage == 0 ==> roll.is_empty()
            &&& disadvantage >= 1 && disadvantage - 1 > stat.quantity + bonus_dice(advantage as nat)
                ==> roll.is_empty()
            &&& advantage == 0 ==> roll.results@.len() == shorter(
                pool_size(stat.quantity as nat, 0, disadvantage as nat),
                dice_to_be_had(faces@),
            )
        },
{
    if !all_faces(faces) {
        return None;
    }
    let threshold: u8 = stat.quality.threshold();
    let exploding: bool = advantage > 0;
    let penalised: bool = disadvantage > 0;
    let mut left: u128 = starting_dice(stat.quantity, advantage, disadvantage);
    let ghost pool: nat = left as nat;
    let mut roll = RollResult { successes: 0, failures: 0, results: Vec::new() };
    let mut next: usize = 0;
    while left > 0 && next < faces.len() && next < MAX_DICE
        invariant
            next == roll.results@.len(),
            next <= faces@.len(),
            roll.results@ == faces@.take(next as int),
            roll.is_underway(left as int, threshold, pool, exploding, penalised),
            forall|i: int| 0 <= i < faces@.len() ==> is_face(#[trigger] faces@[i]),
        decreases faces@.len() - next,
    {
        left = roll.draw(left, faces[next], threshold, exploding, penalised, Ghost(pool));
        next += 1;
        assert(roll.results@ =~= faces@.take(next as int));
    }
    proof {
        lemma_roll_length(pool, exploding, dice_to_be_had(faces@), roll.results@);
        if pool == 0 {
            lemma_empty_pool(roll, threshold, exploding, penalised, dice_to_be_had(faces@));
        }
    }
    Some(roll)
}

/// Rolls `stat` with the given levels of advantage and disadvantage. Each
/// die is a byte from the thread's random number generator, dealt to a face
/// by [`face_from_byte`].
///
/// Whatever the dice show, the result is a roll of the stat's pool: the dice
/// were rolled one by one until the pool was empty (or [`MAX_DICE`] were
/// out), and the tallies are the score of exactly those dice.
#[must_use]
pub fn roll_stat(stat: &Stat, advantage: usize, disadvantage: usize) -> (roll: RollResult)
    ensures
        roll.is_roll(
            stat.quality.threshold(),
            pool_size(stat.quantity as nat, advantage as nat, disadvantage as nat),
            advantage > 0,
            disadvantage > 0,
            MAX_DICE as nat,
        ),
        stat.quantity == 0 && advantage == 0 ==> roll.is_empty(),
        disadvantage >= 1 && disadvantage - 1 > stat.quantity + bonus_dice(advantage as nat)
            ==> roll.is_empty(),
        advantage == 0 && disadvantage <= 1 && stat.quantity <= MAX_DICE ==> roll.results@.len()
            == stat.quantity,
        roll.results@.len() >= shorter(
            pool_size(stat.quantity as nat, advantage as nat, disadvantage as nat),
            MAX_DICE as nat,
        ),
{
    let threshold: u8 = stat.quality.threshold();
    let exploding: bool = advantage > 0;
    let penalised: bool = disadvantage > 0;
    let mut left: u128 = starting_dice(stat.quantity, advantage, disadvantage);
    let ghost pool: nat = left as nat;
    let mut roll = RollResult { successes: 0, failures: 0, results: Vec::new() };
    while left > 0 && roll.results.len() < MAX_DICE
        invariant
            roll.is_underway(left as int, threshold, pool, exploding, penalised),
        decreases MAX_DICE - roll.results@.len(),
    {
        let face: u8 = face_from_byte(random_byte());
        left = roll.draw(left, face, threshold, exploding, penalised, Ghost(pool));
    }
    proof {
        lemma_roll_length(pool, exploding, MAX_DICE as nat, roll.results@);
        if pool == 0 {
            lemma_empty_pool(roll, threshold, exploding, penalised, MAX_DICE as nat);
        }
    }
    roll
}

/// A roll of an empty pool draws no dice and scores nothing, whatever the
/// quality, the modifiers and the dice to be had.
pub proof fn lemma_empty_pool(
    roll: RollResult,
    threshold: u8,
    exploding: bool,
    penalised: bool,
    limit: nat,
)
    requires
        roll.is_roll(threshold, 0, exploding, penalised, limit),
    ensures
        roll.is_empty(),
{
    if roll.results@.len() > 0 {
        assert(roll.results@.take(0) =~= Seq::<u8>::empty());
        assert(dice_left(0, exploding, roll.results@.take(0)) > 0);
    }
}

/// A stat without dice, rolled without advantage, draws no dice and scores
/// nothing, under any level of disadvantage.
pub proof fn lemma_no_dice_no_roll(
    roll: RollResult,
    threshold: u8,
    disadvantage: nat,
    limit: nat,
)
    requires
        roll.is_roll(threshold, pool_size(0, 0, disadvantage), false, disadvantage > 0, limit),
    ensures
        roll.is_empty(),
{
    lemma_empty_pool(roll, threshold, false, disadvantage > 0, limit);
}

/// When disadvantage removes more dice than the stat and its advantage
/// bring, the roll draws no dice and scores nothing.
pub proof fn lemma_overdrawn_pool_rolls_nothing(
    roll: RollResult,
    threshold: u8,
    quantity: nat,
    advantage: nat,
    disadvantage: nat,
    limit: nat,
)
    requires
        disadvantage >= 1,
        disadvantage - 1 > quantity + bonus_dice(advantage),
        roll.is_roll(
            threshold,
            pool_size(quantity, advantage, disadvantage),
            advantage > 0,
            disadvantage > 0,
            limit,
        ),
    ensures
        roll.is_empty(),
{
    lemma_empty_pool(roll, threshold, advantage > 0, disadvantage > 0, limit);
}

/// A roll never draws fewer dice than its pool holds, as far as dice are to
/// be had, and without exploding sixes it draws exactly that many.
pub proof fn lemma_roll_length(pool: nat, exploding: bool, limit: nat, drawn: Seq<u8>)
    requires
        is_drawn(pool, exploding, limit, drawn),
    ensures
        drawn.len() >= shorter(pool, limit),
        !exploding ==> drawn.len() == shorter(pool, limit),
{
    lemma_counts_bounded(drawn, 6, 6);
    if !exploding && drawn.len() > 0 {
        let k = drawn.len() - 1;
        assert(dice_left(pool, exploding, drawn.take(k)) > 0);
    }
}

/// Without advantage, and with at most one level of disadvantage, a roll
/// draws exactly as many dice as the stat has, as long as a roll can hold
/// that many.
pub proof fn lemma_plain_roll_draws_quantity(
    roll: RollResult,
    threshold: u8,
    quantity: nat,
    disadvantage: nat,
)
    requires
        disadvantage <= 1,
        quantity <= MAX_DICE,
        roll.is_roll(
            threshold,
            pool_size(quantity, 0, disadvantage),
            false,
            disadvantage > 0,
            MAX_DICE as nat,
        ),
    ensures
        roll.results@.len() == quantity,
{
    lemma_roll_length(pool_size(quantity, 0, disadvantage), false, MAX_DICE as nat, roll.results@);
}

/// The faces on offer decide the roll: two runs of dice that the same pool
/// draws from the front of the same faces are the same run.
pub proof fn lemma_drawn_is_determined(
    pool: nat,
    exploding: bool,
    limit: nat,
    faces: Seq<u8>,
    a: Seq<u8>,
    b: Seq<u8>,
)
    requires
        is_drawn(pool, exploding, limit, a),
        is_drawn(pool, exploding, limit, b),
        a.len() <= faces.len(),
        b.len() <= faces.len(),
        a == faces.take(a.len() as int),
        b == faces.take(b.len() as int),
    ensures
        a == b,
{
    if a.len() < b.len() {
        assert(b.take(a.len() as int) =~= a);
    } else if b.len() < a.len() {
        assert(a.take(b.len() as int) =~= b);
    }
}

/// Rolling one more die adds it to the count of `face` when it shows `face`.
pub proof fn lemma_count_push(faces: Seq<u8>, next: u8, face: u8)
    ensures
        count_face(faces.push(next), face) == count_face(faces, face) + if next == face {
            1nat
        } else {
            0nat
        },
{
    assert(faces.push(next).drop_last() =~= faces);
}

/// Rolling one more die adds it to the hits when it shows `threshold` or
/// more.
pub proof fn lemma_hits_push(faces: Seq<u8>, next: u8, threshold: u8)
    ensures
        count_hits(faces.push(next), threshold) == count_hits(faces, threshold) + if next
            >= threshold {
            1nat
        } else {
            0nat
        },
{
    assert(faces.push(next).drop_last() =~= faces);
}

/// No count exceeds the number of dice rolled.
pub proof fn lemma_counts_bounded(faces: Seq<u8>, face: u8, threshold: u8)
    ensures
        count_face(faces, face) <= faces.len(),
        count_hits(faces, threshold) <= faces.len(),
    decreases faces.len(),
{
    if faces.len() > 0 {
        lemma_counts_bounded(faces.drop_last(), face, threshold);
    }
}

} // verus!
