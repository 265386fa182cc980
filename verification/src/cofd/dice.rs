//! Dice pools for the Chronicles of Darkness system. A pool of ten-sided
//! dice is rolled; every die at or above the success threshold counts as a
//! success, and dice may "explode" (be rolled again) on high results.
use crate::dice::{calculate_dice_amount, dice_total, total_fits, VariableEntry};
use crate::error::{DiceRollingError, DiceRollingErrorModel};
use crate::parser::{amounts_view, Amount, AmountModel, Element, Operator};
use crate::text::{decimal_string, push_decimal, push_decimal_usize, push_str};
use vstd::prelude::*;

verus! {

/// The special qualities a dice pool can have.
#[derive(Debug, PartialEq, Eq, Clone, Copy, Structural)]
pub enum DicePoolQuality {
    TenAgain,
    NineAgain,
    EightAgain,
    Rote,
    ChanceDie,
    NoExplode,
}

/// The text shown for a pool quality.
pub open spec fn quality_text(q: DicePoolQuality) -> Seq<char> {
    match q {
        DicePoolQuality::TenAgain => "ten-again"@,
        DicePoolQuality::NineAgain => "nine-again"@,
        DicePoolQuality::EightAgain => "eight-again"@,
        DicePoolQuality::Rote => "rote quality"@,
        DicePoolQuality::ChanceDie => "chance die"@,
        DicePoolQuality::NoExplode => "no roll-agains"@,
    }
}

impl DicePoolQuality {
    /// The name of the quality, as shown to users.
    pub fn text(&self) -> (r: &'static str)
        ensures
            r@ == quality_text(*self),
    {
        match self {
            DicePoolQuality::TenAgain => "ten-again",
            DicePoolQuality::NineAgain => "nine-again",
            DicePoolQuality::EightAgain => "eight-again",
            DicePoolQuality::Rote => "rote quality",
            DicePoolQuality::ChanceDie => "chance die",
            DicePoolQuality::NoExplode => "no roll-agains",
        }
    }
}

/// The rules a pool is rolled with: the success threshold, the number of
/// successes that make the roll exceptional, and the quality.
#[derive(Debug, PartialEq, Eq, Clone, Copy, Structural)]
pub struct DicePoolModifiers {
    pub success_on: i32,
    pub exceptional_on: i32,
    pub quality: DicePoolQuality,
}

impl DicePoolModifiers {
    /// Success on 8, exceptional on 5 successes, ten-again.
    pub fn default() -> (r: DicePoolModifiers)
        ensures
            r == (DicePoolModifiers {
                success_on: 8,
                exceptional_on: 5,
                quality: DicePoolQuality::TenAgain,
            }),
    {
        DicePoolModifiers { success_on: 8, exceptional_on: 5, quality: DicePoolQuality::TenAgain }
    }

    /// Default modifiers with the given quality. A chance die succeeds only on 10.
    pub fn custom_quality(quality: DicePoolQuality) -> (r: DicePoolModifiers)
        ensures
            r == (DicePoolModifiers {
                success_on: if quality != DicePoolQuality::ChanceDie { 8 } else { 10 },
                exceptional_on: 5,
                quality,
            }),
    {
        let success_on = if quality != DicePoolQuality::ChanceDie {
            8
        } else {
            10
        };
        DicePoolModifiers { success_on: success_on, exceptional_on: 5, quality: quality }
    }

    /// Default modifiers with the given number of successes for an exceptional success.
    pub fn custom_exceptional_on(exceptional_on: i32) -> (r: DicePoolModifiers)
        ensures
            r == (DicePoolModifiers {
                success_on: 8,
                exceptional_on,
                quality: DicePoolQuality::TenAgain,
            }),
    {
        DicePoolModifiers {
            success_on: 8,
            exceptional_on: exceptional_on,
            quality: DicePoolQuality::TenAgain,
        }
    }

    /// Modifiers with the given quality and exceptional threshold; success on 8.
    pub fn custom(quality: DicePoolQuality, exceptional_on: i32) -> (r: DicePoolModifiers)
        ensures
            r == (DicePoolModifiers { success_on: 8, exceptional_on, quality }),
    {
        DicePoolModifiers { success_on: 8, exceptional_on: exceptional_on, quality: quality }
    }
}

/// A planned dice pool roll: the amounts that add up to the number of dice,
/// the sides of each die, and the rules.
#[derive(Debug, PartialEq)]
pub struct DicePool {
    pub amounts: Vec<Amount>,
    pub sides: i32,
    pub modifiers: DicePoolModifiers,
}

impl DicePool {
    /// A pool of a fixed number of dice with the given quality.
    pub fn easy_pool(dice_amount: i32, quality: DicePoolQuality) -> (r: DicePool)
        ensures
            r.amounts@.len() == 1,
            r.amounts@[0]@ == (AmountModel {
                operator: Operator::Plus,
                element: crate::parser::ElementModel::Number(dice_amount),
            }),
            r.sides == 10,
            r.modifiers == (DicePoolModifiers {
                success_on: if quality != DicePoolQuality::ChanceDie { 8 } else { 10 },
                exceptional_on: 5,
                quality,
            }),
    {
        DicePool {
            amounts: vec![Amount { operator: Operator::Plus, element: Element::Number(dice_amount) }],
            sides: 10,
            modifiers: DicePoolModifiers::custom_quality(quality),
        }
    }

    /// A pool of a fixed number of dice with the given modifiers.
    pub fn easy_with_modifiers(dice_amount: i32, modifiers: DicePoolModifiers) -> (r: DicePool)
        ensures
            r.amounts@.len() == 1,
            r.amounts@[0]@ == (AmountModel {
                operator: Operator::Plus,
                element: crate::parser::ElementModel::Number(dice_amount),
            }),
            r.sides == 10,
            r.modifiers == modifiers,
    {
        DicePool {
            amounts: vec![Amount { operator: Operator::Plus, element: Element::Number(dice_amount) }],
            sides: 10,
            modifiers: modifiers,
        }
    }

    /// A pool of ten-sided dice whose size is given by `amounts`.
    pub fn new(amounts: Vec<Amount>, modifiers: DicePoolModifiers) -> (r: DicePool)
        ensures
            r.amounts@ == amounts@,
            r.sides == 10,
            r.modifiers == modifiers,
    {
        DicePool { amounts: amounts, sides: 10, modifiers: modifiers }
    }

    /// A single chance die: succeeds only on a 10.
    pub fn chance_die() -> (r: DicePool)
        ensures
            r.amounts@.len() == 1,
            r.amounts@[0]@ == (AmountModel {
                operator: Operator::Plus,
                element: crate::parser::ElementModel::Number(1),
            }),
            r.sides == 10,
            r.modifiers == (DicePoolModifiers {
                success_on: 10,
                exceptional_on: 5,
                quality: DicePoolQuality::ChanceDie,
            }),
    {
        DicePool::easy_pool(1, DicePoolQuality::ChanceDie)
    }
}

/// All rolls of the dice of a pool, with the rules they were rolled under.
#[derive(Debug, PartialEq, Eq, Clone)]
pub struct DicePoolRoll {
    pub modifiers: DicePoolModifiers,
    pub rolls: Vec<i32>,
}

/// The number of rolls in `rolls` at or above `success_on`.
pub open spec fn count_successes(rolls: Seq<i32>, success_on: i32) -> nat
    decreases rolls.len(),
{
    if rolls.len() == 0 {
        0
    } else {
        count_successes(rolls.drop_last(), success_on) + (if rolls.last() >= success_on {
            1nat
        } else {
            0nat
        })
    }
}

/// The number of successes reported for `rolls`: the count, or 0 when the
/// count does not fit in an `i32`.
pub open spec fn reported_successes(rolls: Seq<i32>, success_on: i32) -> i32 {
    if count_successes(rolls, success_on) <= i32::MAX {
        count_successes(rolls, success_on) as i32
    } else {
        0
    }
}

pub proof fn lemma_count_successes_bound(rolls: Seq<i32>, success_on: i32)
    ensures
        count_successes(rolls, success_on) <= rolls.len(),
    decreases rolls.len(),
{
    if rolls.len() > 0 {
        lemma_count_successes_bound(rolls.drop_last(), success_on);
    }
}

impl DicePoolRoll {
    /// The dice rolled, in order.
    pub fn rolls(&self) -> (r: &[i32])
        ensures
            r@ == self.rolls@,
    {
        self.rolls.as_slice()
    }

    /// The number of dice at or above the success threshold.
    pub fn successes(&self) -> (r: i32)
        ensures
            r == reported_successes(self.rolls@, self.modifiers.success_on),
    {
        let mut count: usize = 0;
        let mut i: usize = 0;
        while i < self.rolls.len()
            invariant
                i <= self.rolls@.len(),
                count == count_successes(self.rolls@.take(i as int), self.modifiers.success_on),
            decreases self.rolls@.len() - i,
        {
            proof {
                assert(self.rolls@.take(i + 1).drop_last() =~= self.rolls@.take(i as int));
                lemma_count_successes_bound(self.rolls@.take(i as int), self.modifiers.success_on);
            }
            if self.rolls[i] >= self.modifiers.success_on {
                count = count + 1;
            }
            i = i + 1;
        }
        proof {
            assert(self.rolls@.take(i as int) =~= self.rolls@);
        }
        if count <= i32::MAX as usize {
            count as i32
        } else {
            0
        }
    }

    /// Whether the roll has at least the number of successes needed for an
    /// exceptional success.
    pub fn is_exceptional(&self) -> (r: bool)
        ensures
            r == (reported_successes(self.rolls@, self.modifiers.success_on)
                >= self.modifiers.exceptional_on),
    {
        self.successes() >= self.modifiers.exceptional_on
    }
}


/// The result of a successfully executed roll of a dice pool: how many dice
/// were rolled, the rolls, and the rules used.
pub struct RolledDicePool {
    pub num_dice: i32,
    pub roll: DicePoolRoll,
    pub modifiers: DicePoolModifiers,
}

impl RolledDicePool {
    /// The rolled pool for `num_dice` dice of `pool` that came up `rolls`.
    pub fn from(pool: &DicePool, num_dice: i32, rolls: Vec<i32>) -> (r: RolledDicePool)
        ensures
            r.modifiers == pool.modifiers,
            r.num_dice == num_dice,
            r.roll.rolls@ == rolls@,
            r.roll.modifiers == pool.modifiers,
    {
        RolledDicePool {
            modifiers: pool.modifiers,
            num_dice: num_dice,
            roll: DicePoolRoll { rolls: rolls, modifiers: pool.modifiers },
        }
    }
}

/// A source of die rolls.
pub trait DieRoller {
    /// Every number rolled so far, in order.
    spec fn history(&self) -> Seq<i32>;

    /// The number of sides asked for by each roll so far, in order.
    spec fn sides_asked(&self) -> Seq<i32>;

    /// Whether every number rolled lies between 1 and the number of sides.
    spec fn fair(&self) -> bool;

    /// The numbers the roller was set up to hand out, in order; none for a
    /// roller that draws at random.
    spec fn series(&self) -> Seq<i32>;

    /// Whether what the roller has handed out agrees with its series.
    spec fn consistent(&self) -> bool;

    /// Roll a die with the given number of sides.
    fn roll_number(&mut self, sides: i32) -> (r: i32)
        requires
            1 <= sides,
        ensures
            final(self).history() == old(self).history().push(r),
            final(self).sides_asked() == old(self).sides_asked().push(sides),
            final(self).fair() == old(self).fair(),
            final(self).series() == old(self).series(),
            old(self).consistent() ==> final(self).consistent(),
            old(self).fair() ==> 1 <= r <= sides,
    ;
}

/// A die roller that draws from a random number generator.
pub struct RngDieRoller {
    rng: rand::rngs::ThreadRng,
    rolled: Ghost<Seq<i32>>,
    asked: Ghost<Seq<i32>>,
}

impl RngDieRoller {
    /// A roller drawing from the thread-local random number generator.
    pub fn new() -> (r: RngDieRoller)
        ensures
            r.history() == Seq::<i32>::empty(),
            r.sides_asked() == Seq::<i32>::empty(),
            r.fair(),
    {
        RngDieRoller {
            rng: crate::rng::new_thread_rng(),
            rolled: Ghost(Seq::empty()),
            asked: Ghost(Seq::empty()),
        }
    }
}

impl DieRoller for RngDieRoller {
    closed spec fn history(&self) -> Seq<i32> {
        self.rolled@
    }

    closed spec fn sides_asked(&self) -> Seq<i32> {
        self.asked@
    }

    open spec fn fair(&self) -> bool {
        true
    }

    open spec fn series(&self) -> Seq<i32> {
        Seq::empty()
    }

    open spec fn consistent(&self) -> bool {
        true
    }

    fn roll_number(&mut self, sides: i32) -> (r: i32) {
        let r = crate::rng::gen_die_face(&mut self.rng, sides);
        self.rolled = Ghost(self.rolled@.push(r));
        self.asked = Ghost(self.asked@.push(sides));
        r
    }
}

/// A die roller that hands out a given series of numbers, for reproducible
/// rolls. Once the series is used up it keeps rolling 1.
pub struct SequentialDieRoller {
    results: Vec<i32>,
    position: usize,
    rolled: Ghost<Seq<i32>>,
    asked: Ghost<Seq<i32>>,
}

impl SequentialDieRoller {
    /// The numbers still to be handed out.
    pub closed spec fn pending(&self) -> Seq<i32> {
        self.results@.skip(self.position as int)
    }

    /// A roller that hands out `results` in order.
    pub fn new(results: Vec<i32>) -> (r: SequentialDieRoller)
        ensures
            r.history() == Seq::<i32>::empty(),
            r.sides_asked() == Seq::<i32>::empty(),
            r.pending() == results@,
            r.series() == results@,
            r.consistent(),
    {
        let r = SequentialDieRoller {
            results: results,
            position: 0,
            rolled: Ghost(Seq::empty()),
            asked: Ghost(Seq::empty()),
        };
        assert(r.results@.skip(0) =~= r.results@);
        assert(r.rolled@.take(0) =~= r.results@.take(0));
        r
    }

    /// What a consistent roller has handed out: while the series lasts, the
    /// numbers handed out followed by those still pending make up the
    /// series; after that, the whole series followed by a 1 for each
    /// further roll.
    pub proof fn lemma_handed_out(&self)
        requires
            self.consistent(),
        ensures
            self.history().len() <= self.series().len() ==> self.history() + self.pending()
                == self.series(),
            self.history().len() >= self.series().len() ==> {
                &&& self.history().take(self.series().len() as int) == self.series()
                &&& self.pending().len() == 0
                &&& forall|i: int|
                    self.series().len() <= i < self.history().len() ==> #[trigger] self.history()[i] == 1
            },
    {
        let h = self.rolled@;
        let s = self.results@;
        let p = self.position as int;
        if h.len() <= s.len() {
            if h.len() > p {
                assert(p == s.len());
            }
            assert(h.len() == p);
            assert(h =~= h.take(p));
            assert(s.take(p) + s.skip(p) =~= s);
        }
        if h.len() >= s.len() {
            if h.len() == p {
                assert(p == s.len());
            }
            assert(p == s.len());
            assert(s.take(p) =~= s);
            assert(s.skip(p) =~= Seq::<i32>::empty());
        }
    }
}

impl DieRoller for SequentialDieRoller {
    closed spec fn history(&self) -> Seq<i32> {
        self.rolled@
    }

    closed spec fn sides_asked(&self) -> Seq<i32> {
        self.asked@
    }

    open spec fn fair(&self) -> bool {
        false
    }

    closed spec fn series(&self) -> Seq<i32> {
        self.results@
    }

    /// The numbers handed out so far are the series up to the roller's
    /// position, followed by a 1 for each roll after the series was used up.
    closed spec fn consistent(&self) -> bool {
        &&& self.position <= self.results@.len()
        &&& self.rolled@.len() >= self.position
        &&& self.rolled@.take(self.position as int) == self.results@.take(self.position as int)
        &&& (self.rolled@.len() > self.position ==> self.position == self.results@.len())
        &&& forall|i: int| self.position <= i < self.rolled@.len() ==> #[trigger] self.rolled@[i] == 1
    }

    fn roll_number(&mut self, sides: i32) -> (r: i32)
        ensures
            old(self).consistent() ==> (if old(self).pending().len() > 0 {
                &&& r == old(self).pending()[0]
                &&& final(self).pending() == old(self).pending().drop_first()
            } else {
                r == 1 && final(self).pending() == old(self).pending()
            }),
    {
        let r = if self.position < self.results.len() {
            let x = self.results[self.position];
            self.position = self.position + 1;
            proof {
                assert(self.results@.skip(self.position as int) =~= old(self).pending().drop_first());
            }
            x
        } else {
            1
        };
        self.rolled = Ghost(self.rolled@.push(r));
        self.asked = Ghost(self.asked@.push(sides));
        proof {
            if old(self).consistent() {
                assert(self.rolled@.take(self.position as int) =~= self.results@.take(self.position as int));
            }
        }
        r
    }
}

/// Rolls of one die that "explodes" on `explode_on` or higher: every roll but
/// the last met the threshold, and the last fell below it, unless the rolls
/// filled the largest vector there can be.
pub open spec fn is_exploding_run(v: Seq<i32>, explode_on: i32) -> bool {
    &&& v.len() >= 1
    &&& forall|i: int| 0 <= i < v.len() - 1 ==> #[trigger] v[i] >= explode_on
    &&& (v.last() < explode_on || v.len() == usize::MAX)
}

/// Rolls of one die with the rote quality: an exploding run on 10 that is
/// re-rolled once (as a second run) when its only roll was a failure.
pub open spec fn is_rote_roll(v: Seq<i32>, success_on: i32) -> bool {
    ||| (is_exploding_run(v, 10) && !(v.len() == 1 && v[0] < success_on))
    ||| (v.len() >= 2 && v[0] < 10 && v[0] < success_on && is_exploding_run(v.drop_first(), 10))
}

/// Rolls of one die of a pool with the given quality and success threshold.
pub open spec fn is_die_roll(v: Seq<i32>, quality: DicePoolQuality, success_on: i32) -> bool {
    match quality {
        DicePoolQuality::TenAgain => is_exploding_run(v, 10),
        DicePoolQuality::NineAgain => is_exploding_run(v, 9),
        DicePoolQuality::EightAgain => is_exploding_run(v, 8),
        DicePoolQuality::Rote => is_rote_roll(v, success_on),
        DicePoolQuality::ChanceDie | DicePoolQuality::NoExplode => v.len() == 1,
    }
}

/// The rolls of several dice, one after the other.
pub open spec fn concat(parts: Seq<Seq<i32>>) -> Seq<i32>
    decreases parts.len(),
{
    if parts.len() == 0 {
        Seq::empty()
    } else {
        concat(parts.drop_last()) + parts.last()
    }
}

/// `v` is the rolls of `count` dice of a pool with the given rules.
pub open spec fn is_dice_rolls(v: Seq<i32>, count: int, quality: DicePoolQuality, success_on: i32) -> bool {
    exists|parts: Seq<Seq<i32>>|
        #![trigger concat(parts)]
        parts.len() == count && concat(parts) == v && forall|i: int|
            0 <= i < count ==> is_die_roll(#[trigger] parts[i], quality, success_on)
}

/// `n` copies of `sides`: the sides asked for by `n` rolls of the same die.
pub open spec fn same_sides(sides: i32, n: int) -> Seq<i32> {
    Seq::new(n as nat, |_i: int| sides)
}

/// Every roll lies between 1 and `sides`.
pub open spec fn all_faces(v: Seq<i32>, sides: i32) -> bool {
    forall|i: int| 0 <= i < v.len() ==> 1 <= #[trigger] v[i] <= sides
}

///Roll a die in the pool, that "explodes" on a given number or higher. Dice will keep
///being rolled until the result is lower than the explode number, which is normally 10.
///Statistically speaking, usually one result will be returned from this function.
pub fn roll_exploding_die<R: DieRoller>(roller: &mut R, sides: i32, explode_on_or_higher: i32) -> (results: Vec<i32>)
    requires
        1 <= sides,
    ensures
        is_exploding_run(results@, explode_on_or_higher),
        final(roller).history() == old(roller).history() + results@,
        final(roller).sides_asked() == old(roller).sides_asked() + same_sides(sides, results@.len() as int),
        final(roller).fair() == old(roller).fair(),
        final(roller).series() == old(roller).series(),
        old(roller).consistent() ==> final(roller).consistent(),
        old(roller).fair() ==> all_faces(results@, sides),
{
    let mut results: Vec<i32> = Vec::new();
    assert(old(roller).sides_asked() =~= old(roller).sides_asked() + same_sides(sides, 0));
    loop
        invariant_except_break
            forall|i: int| 0 <= i < results@.len() ==> #[trigger] results@[i] >= explode_on_or_higher,
        invariant
            1 <= sides,
            roller.history() == old(roller).history() + results@,
            roller.sides_asked() == old(roller).sides_asked() + same_sides(sides, results@.len() as int),
            roller.fair() == old(roller).fair(),
            roller.series() == old(roller).series(),
            old(roller).consistent() ==> roller.consistent(),
            old(roller).fair() ==> all_faces(results@, sides),
        ensures
            is_exploding_run(results@, explode_on_or_higher),
        decreases usize::MAX - results@.len(),
    {
        if results.len() == usize::MAX {
            break;
        }
        let roll = roller.roll_number(sides);
        results.push(roll);
        assert(roller.sides_asked() =~= old(roller).sides_asked() + same_sides(sides, results@.len() as int));
        if roll < explode_on_or_higher {
            break;
        }
    }
    results
}

/// The position of the first of the numbers `d` from `i` on that is below
/// `explode_on`; `d.len()` when there is none.
pub open spec fn first_below(d: Seq<i32>, explode_on: i32, i: int) -> int
    decreases d.len() - i,
{
    if i < 0 || i >= d.len() {
        d.len() as int
    } else if d[i] < explode_on {
        i
    } else {
        first_below(d, explode_on, i + 1)
    }
}

/// The rolls of one exploding die when the roller's numbers are `d`: every
/// number up to and including the first below `explode_on`.
pub open spec fn exploding_rolls(d: Seq<i32>, explode_on: i32) -> Seq<i32> {
    d.take(first_below(d, explode_on, 0) + 1)
}

/// The rolls of one rote die when the roller's numbers are `d`: a die
/// exploding on 10; when that die rolled once and failed, one more die
/// exploding on 10 follows it.
pub open spec fn rote_rolls(d: Seq<i32>, success_on: i32) -> Seq<i32> {
    if first_below(d, 10, 0) == 0 && d[0] < success_on {
        d.take(first_below(d, 10, 1) + 1)
    } else {
        exploding_rolls(d, 10)
    }
}

proof fn lemma_first_below(d: Seq<i32>, explode_on: i32, i: int, k: int)
    requires
        0 <= i <= k < d.len(),
        forall|j: int| i <= j < k ==> #[trigger] d[j] >= explode_on,
        d[k] < explode_on,
    ensures
        first_below(d, explode_on, i) == k,
    decreases k - i,
{
    if i < k {
        lemma_first_below(d, explode_on, i + 1, k);
    }
}

/// An exploding die is determined by the roller's numbers: rolls that form
/// an exploding run (not cut off at the largest vector) and that the
/// numbers `d` begin with are exactly `exploding_rolls(d, ..)`.
pub proof fn lemma_exploding_rolls_determined(v: Seq<i32>, d: Seq<i32>, explode_on: i32)
    requires
        is_exploding_run(v, explode_on),
        v.len() < usize::MAX,
        v.len() <= d.len(),
        d.take(v.len() as int) == v,
    ensures
        v == exploding_rolls(d, explode_on),
{
    assert forall|j: int| 0 <= j < v.len() - 1 implies #[trigger] d[j] >= explode_on by {
        assert(d[j] == d.take(v.len() as int)[j]);
    }
    assert(d[v.len() - 1] == d.take(v.len() as int)[v.len() - 1]);
    lemma_first_below(d, explode_on, 0, v.len() - 1);
}

/// A rote die is determined by the roller's numbers: a die exploding on
/// 10 that is re-rolled, as one more such die, exactly when it rolled once
/// and failed. Rolls that form a rote roll (not cut off at the largest
/// vector) and that the numbers `d` begin with are exactly
/// `rote_rolls(d, ..)`.
pub proof fn lemma_rote_rolls_determined(v: Seq<i32>, d: Seq<i32>, success_on: i32)
    requires
        is_rote_roll(v, success_on),
        v.len() < usize::MAX,
        v.len() <= d.len(),
        d.take(v.len() as int) == v,
    ensures
        v == rote_rolls(d, success_on),
{
    assert forall|j: int| 0 <= j < v.len() implies #[trigger] d[j] == v[j] by {
        assert(d[j] == d.take(v.len() as int)[j]);
    }
    if is_exploding_run(v, 10) && !(v.len() == 1 && v[0] < success_on) {
        lemma_exploding_rolls_determined(v, d, 10);
    } else {
        let w = v.drop_first();
        assert forall|j: int| 1 <= j < v.len() - 1 implies #[trigger] d[j] >= 10 by {
            assert(w[j - 1] >= 10);
        }
        assert(w.last() < 10);
        lemma_first_below(d, 10, 1, v.len() - 1);
        lemma_first_below(d, 10, 0, 0);
        assert(d.take(v.len() as int) =~= v);
    }
}

proof fn lemma_first_below_bounds(d: Seq<i32>, explode_on: i32, i: int)
    requires
        0 <= i <= d.len(),
    ensures
        i <= first_below(d, explode_on, i) <= d.len(),
    decreases d.len() - i,
{
    if i < d.len() {
        lemma_first_below_bounds(d, explode_on, i + 1);
    }
}

proof fn lemma_first_below_skip(d: Seq<i32>, explode_on: i32, k: int)
    requires
        1 <= k <= d.len(),
    ensures
        first_below(d, explode_on, k) == first_below(d.skip(1), explode_on, k - 1) + 1,
    decreases d.len() - k,
{
    if k < d.len() {
        assert(d.skip(1)[k - 1] == d[k]);
        lemma_first_below_skip(d, explode_on, k + 1);
    }
}

/// A rote die, in the words of its rule: roll a die exploding on 10; when
/// that die rolled once and failed, it is re-rolled once, as one more die
/// exploding on 10 on the numbers that follow; otherwise nothing more is
/// rolled. (The runs are taken to end within the numbers `d`.)
pub proof fn lemma_rote_rolls_as_two_runs(d: Seq<i32>, success_on: i32)
    requires
        first_below(d, 10, 0) < d.len(),
        (d[0] < 10 && d[0] < success_on) ==> first_below(d, 10, 1) < d.len(),
    ensures
        rote_rolls(d, success_on) == {
            let a = exploding_rolls(d, 10);
            if a.len() == 1 && a[0] < success_on {
                a + exploding_rolls(d.skip(1), 10)
            } else {
                a
            }
        },
{
    let a = exploding_rolls(d, 10);
    assert(d.len() >= 1);
    if d[0] < 10 {
        assert(first_below(d, 10, 0) == 0);
        assert(a =~= d.take(1));
        if d[0] < success_on {
            lemma_first_below_skip(d, 10, 1);
            lemma_first_below_bounds(d.skip(1), 10, 0);
            let f = first_below(d.skip(1), 10, 0);
            assert(f + 2 <= d.len());
            assert(d.take(1) + d.skip(1).take(f + 1) =~= d.take(f + 2));
        }
    } else {
        assert(first_below(d, 10, 0) == first_below(d, 10, 1));
        lemma_first_below_bounds(d, 10, 1);
        assert(a.len() >= 2);
    }
}

/// The rolls of one die of a pool when the roller's numbers are `d`: one
/// number for a chance die or a die that does not explode; a die exploding
/// on 10, 9 or 8 for ten-, nine- and eight-again; a rote die for rote.
pub open spec fn die_rolls(d: Seq<i32>, quality: DicePoolQuality, success_on: i32) -> Seq<i32> {
    match quality {
        DicePoolQuality::TenAgain => exploding_rolls(d, 10),
        DicePoolQuality::NineAgain => exploding_rolls(d, 9),
        DicePoolQuality::EightAgain => exploding_rolls(d, 8),
        DicePoolQuality::Rote => rote_rolls(d, success_on),
        DicePoolQuality::ChanceDie | DicePoolQuality::NoExplode => d.take(1),
    }
}

/// One die of a pool is determined by the roller's numbers, per quality:
/// rolls that form a die roll of the pool's rules (not cut off at the
/// largest vector) and that the numbers `d` begin with are exactly
/// `die_rolls(d, ..)`: one roll for a chance or no-explode die, an exploding
/// die on 10, 9 or 8 for ten-, nine- and eight-again, and a rote die for
/// rote.
pub proof fn lemma_die_rolls_determined(v: Seq<i32>, d: Seq<i32>, quality: DicePoolQuality, success_on: i32)
    requires
        is_die_roll(v, quality, success_on),
        v.len() < usize::MAX,
        v.len() <= d.len(),
        d.take(v.len() as int) == v,
    ensures
        v == die_rolls(d, quality, success_on),
        v.len() >= 1,
{
    match quality {
        DicePoolQuality::TenAgain => lemma_exploding_rolls_determined(v, d, 10),
        DicePoolQuality::NineAgain => lemma_exploding_rolls_determined(v, d, 9),
        DicePoolQuality::EightAgain => lemma_exploding_rolls_determined(v, d, 8),
        DicePoolQuality::Rote => lemma_rote_rolls_determined(v, d, success_on),
        DicePoolQuality::ChanceDie | DicePoolQuality::NoExplode => {},
    }
}

/// The rote rule for one die of a pool: a die whose first roll fails
/// (below the success threshold, and not a 10) is rolled once more, as a
/// die exploding on 10; a die whose first roll succeeds without exploding
/// is not rolled again; a first roll of 10 or more explodes as usual. With
/// the roller's numbers `d`, a failed first number is followed by the
/// rolls of one more exploding die on the numbers after it.
pub proof fn lemma_rote_die_rule(v: Seq<i32>, success_on: i32, d: Seq<i32>)
    requires
        is_die_roll(v, DicePoolQuality::Rote, success_on),
    ensures
        v.len() >= 1,
        (v[0] < 10 && v[0] < success_on) ==> v.len() >= 2 && is_exploding_run(v.drop_first(), 10),
        (v[0] < 10 && v[0] >= success_on && v.len() < usize::MAX) ==> v.len() == 1,
        v[0] >= 10 ==> is_exploding_run(v, 10),
        (d.len() >= 1 && d[0] < 10 && d[0] < success_on && first_below(d, 10, 1) < d.len())
            ==> die_rolls(d, DicePoolQuality::Rote, success_on) == seq![d[0]] + exploding_rolls(
            d.skip(1),
            10,
        ),
{
    if v[0] < 10 && v[0] < success_on {
        if is_exploding_run(v, 10) && !(v.len() == 1 && v[0] < success_on) {
            assert(v.len() > 1);
            assert(v[0] >= 10);
        }
    }
    if v[0] < 10 && v[0] >= success_on && v.len() < usize::MAX {
        if v.len() > 1 {
            assert(v[0] >= 10);
        }
    }
    if d.len() >= 1 && d[0] < 10 && d[0] < success_on && first_below(d, 10, 1) < d.len() {
        lemma_first_below(d, 10, 0, 0);
        lemma_rote_rolls_as_two_runs(d, success_on);
        assert(exploding_rolls(d, 10) =~= seq![d[0]]);
    }
}

///A die with the rote quality is re-rolled once if the roll fails. Otherwise, it obeys
///all normal rules (re-roll 10s). Re-rolled dice are appended to the result set, so we
///can keep track of the actual dice that were rolled.
pub fn roll_rote_die<R: DieRoller>(roller: &mut R, sides: i32, success_on: i32) -> (rolls: Vec<i32>)
    requires
        1 <= sides,
    ensures
        is_rote_roll(rolls@, success_on),
        final(roller).history() == old(roller).history() + rolls@,
        final(roller).sides_asked() == old(roller).sides_asked() + same_sides(sides, rolls@.len() as int),
        final(roller).fair() == old(roller).fair(),
        final(roller).series() == old(roller).series(),
        old(roller).consistent() ==> final(roller).consistent(),
        old(roller).fair() ==> all_faces(rolls@, sides),
{
    let mut rolls = roll_exploding_die(roller, sides, 10);
    if rolls.len() == 1 && rolls[0] < success_on {
        let ghost first = rolls@;
        let mut more = roll_exploding_die(roller, sides, 10);
        rolls.append(&mut more);
        proof {
            assert(rolls@.drop_first() =~= rolls@.subrange(1, rolls@.len() as int));
            assert(rolls@.drop_first() =~= rolls@ .skip(1));
            assert(rolls@ =~= first + rolls@.skip(1));
            assert(roller.sides_asked() =~= old(roller).sides_asked() + same_sides(sides, rolls@.len() as int));
        }
    }
    rolls
}

///Roll a single die in the pool, potentially rolling additional dice depending on  pool
///behavior. The default ten-again will "explode" the die if the result is 10 (repeatedly, if
///there are multiple 10s). Nine- and eight-again will explode similarly if the result is
///at least that number. Rote quality will re-roll a failure once, while also exploding
///on 10. The function returns a Vec of all rolled dice (usually 1).
pub fn roll_die<R: DieRoller>(roller: &mut R, pool: &DicePool) -> (results: Vec<i32>)
    requires
        1 <= pool.sides,
    ensures
        is_die_roll(results@, pool.modifiers.quality, pool.modifiers.success_on),
        final(roller).history() == old(roller).history() + results@,
        final(roller).sides_asked() == old(roller).sides_asked() + same_sides(pool.sides, results@.len() as int),
        final(roller).fair() == old(roller).fair(),
        final(roller).series() == old(roller).series(),
        old(roller).consistent() ==> final(roller).consistent(),
        old(roller).fair() ==> all_faces(results@, pool.sides),
{
    let sides = pool.sides;
    let success_on = pool.modifiers.success_on;
    match pool.modifiers.quality {
        DicePoolQuality::TenAgain => roll_exploding_die(roller, sides, 10),
        DicePoolQuality::NineAgain => roll_exploding_die(roller, sides, 9),
        DicePoolQuality::EightAgain => roll_exploding_die(roller, sides, 8),
        DicePoolQuality::Rote => roll_rote_die(roller, sides, success_on),
        DicePoolQuality::ChanceDie | DicePoolQuality::NoExplode => {
            let mut results: Vec<i32> = Vec::new();
            let r = roller.roll_number(sides);
            results.push(r);
            proof {
                assert(results@ =~= seq![r]);
                assert(roller.sides_asked() =~= old(roller).sides_asked() + same_sides(sides, 1));
            }
            results
        },
    }
}

/// Roll `num_dice` dice of the pool, one after the other.
pub fn roll_dice<R: DieRoller>(pool: &DicePool, num_dice: i32, roller: &mut R) -> (rolls: Vec<i32>)
    requires
        1 <= pool.sides,
    ensures
        is_dice_rolls(
            rolls@,
            if num_dice > 0 { num_dice as int } else { 0 },
            pool.modifiers.quality,
            pool.modifiers.success_on,
        ),
        final(roller).history() == old(roller).history() + rolls@,
        final(roller).sides_asked() == old(roller).sides_asked() + same_sides(pool.sides, rolls@.len() as int),
        final(roller).fair() == old(roller).fair(),
        final(roller).series() == old(roller).series(),
        old(roller).consistent() ==> final(roller).consistent(),
        old(roller).fair() ==> all_faces(rolls@, pool.sides),
{
    let mut rolls: Vec<i32> = Vec::new();
    assert(old(roller).sides_asked() =~= old(roller).sides_asked() + same_sides(pool.sides, 0));
    let ghost mut parts: Seq<Seq<i32>> = Seq::empty();
    let mut k: i32 = 0;
    while k < num_dice
        invariant
            1 <= pool.sides,
            0 <= k,
            num_dice > 0 ==> k <= num_dice,
            num_dice <= 0 ==> k == 0,
            parts.len() == k,
            concat(parts) == rolls@,
            forall|i: int|
                0 <= i < k ==> is_die_roll(
                    #[trigger] parts[i],
                    pool.modifiers.quality,
                    pool.modifiers.success_on,
                ),
            roller.history() == old(roller).history() + rolls@,
            roller.sides_asked() == old(roller).sides_asked() + same_sides(pool.sides, rolls@.len() as int),
            roller.fair() == old(roller).fair(),
            roller.series() == old(roller).series(),
            old(roller).consistent() ==> roller.consistent(),
            old(roller).fair() ==> all_faces(rolls@, pool.sides),
        decreases num_dice - k,
    {
        let mut die = roll_die(roller, pool);
        let ghost d = die@;
        let ghost before = rolls@;
        rolls.append(&mut die);
        proof {
            assert(parts.push(d).drop_last() =~= parts);
            parts = parts.push(d);
            assert(rolls@ =~= before + d);
            assert(roller.history() =~= old(roller).history() + rolls@);
            assert(roller.sides_asked() =~= old(roller).sides_asked() + same_sides(pool.sides, rolls@.len() as int));
        }
        k = k + 1;
    }
    proof {
        assert(parts.len() == (if num_dice > 0 { num_dice as int } else { 0 }));
    }
    rolls
}

/// The rules of a chance die.
pub open spec fn chance_die_modifiers() -> DicePoolModifiers {
    DicePoolModifiers { success_on: 10, exceptional_on: 5, quality: DicePoolQuality::ChanceDie }
}

/// What rolling `pool` with the variables `vars` gives: an error for an
/// expression of more than 100 amounts or a missing variable; otherwise the
/// rolled pool, whose dice follow the pool's rules (a pool of fewer than one
/// die is a single chance die), and lie on the die's faces when the roller
/// is fair.
pub open spec fn pool_outcome(
    pool: DicePool,
    vars: Seq<VariableEntry>,
    fair: bool,
    r: Result<RolledDicePool, DiceRollingError>,
) -> bool {
    if pool.amounts@.len() > 100 {
        r matches Err(e) && e@ == DiceRollingErrorModel::ExpressionTooLarge
    } else {
        match dice_total(amounts_view(pool.amounts@), vars) {
            Err(e) => (r matches Err(f) && f@ == e),
            Ok(n) => (r matches Ok(rolled) && (if n > 0 {
                &&& rolled.num_dice == n
                &&& rolled.modifiers == pool.modifiers
                &&& rolled.roll.modifiers == pool.modifiers
                &&& is_dice_rolls(
                    rolled.roll.rolls@,
                    n,
                    pool.modifiers.quality,
                    pool.modifiers.success_on,
                )
                &&& (fair ==> all_faces(rolled.roll.rolls@, pool.sides))
            } else {
                &&& rolled.num_dice == 1
                &&& rolled.modifiers == chance_die_modifiers()
                &&& rolled.roll.modifiers == chance_die_modifiers()
                &&& is_dice_rolls(rolled.roll.rolls@, 1, DicePoolQuality::ChanceDie, 10)
                &&& (fair ==> all_faces(rolled.roll.rolls@, 10))
            })),
        }
    }
}

///Roll the dice in a dice pool. The number of dice is the sum of the pool's
///amounts, with variables taken from `vars`; a pool of fewer than one die is
///rolled as a single chance die. Expressions of more than 100 amounts are
///refused.
pub fn roll_pool<R: DieRoller>(pool: &DicePool, vars: &[VariableEntry], roller: &mut R) -> (r: Result<RolledDicePool, DiceRollingError>)
    requires
        1 <= pool.sides,
        pool.amounts@.len() <= 100 ==> total_fits(amounts_view(pool.amounts@), vars@),
    ensures
        pool_outcome(*pool, vars@, old(roller).fair(), r),
        r matches Ok(rolled) ==> final(roller).history() == old(roller).history() + rolled.roll.rolls@,
        r matches Ok(rolled) ==> final(roller).sides_asked() == old(roller).sides_asked() + same_sides(
            if dice_total(amounts_view(pool.amounts@), vars@) matches Ok(n) && n > 0 {
                pool.sides
            } else {
                10
            },
            rolled.roll.rolls@.len() as int,
        ),
        r is Err ==> final(roller).history() == old(roller).history(),
        r is Err ==> final(roller).sides_asked() == old(roller).sides_asked(),
        final(roller).fair() == old(roller).fair(),
        final(roller).series() == old(roller).series(),
        old(roller).consistent() ==> final(roller).consistent(),
{
    if pool.amounts.len() > 100 {
        return Err(DiceRollingError::ExpressionTooLarge);
    }
    let num_dice = match calculate_dice_amount(pool.amounts.as_slice(), vars) {
        Ok(n) => n,
        Err(e) => {
            return Err(e);
        },
    };
    if num_dice > 0 {
        let rolls = roll_dice(pool, num_dice, roller);
        Ok(RolledDicePool::from(pool, num_dice, rolls))
    } else {
        let chance_die = DicePool::chance_die();
        let rolls = roll_dice(&chance_die, 1, roller);
        Ok(RolledDicePool::from(&chance_die, 1, rolls))
    }
}


/// The rolls written out in order, separated by commas.
pub open spec fn joined_rolls(s: Seq<i32>) -> Seq<char>
    decreases s.len(),
{
    if s.len() == 0 {
        Seq::empty()
    } else if s.len() == 1 {
        decimal_string(s[0] as int)
    } else {
        joined_rolls(s.drop_last()) + ", "@ + decimal_string(s.last() as int)
    }
}

/// Amount of dice to display before cutting off and showing "and X
/// more", so we don't spam the room with huge messages.
pub const MAX_DISPLAYED_ROLLS: usize = 15;

/// The rolls as shown to users: all of them, or the first fifteen and a count
/// of the rest.
pub open spec fn rolls_text(rolls: Seq<i32>) -> Seq<char> {
    if rolls.len() > 15 {
        joined_rolls(rolls.take(15)) + ", and "@ + decimal_string(rolls.len() - 15) + " more"@
    } else {
        joined_rolls(rolls)
    }
}

/// Appends the first `n` rolls, separated by commas, to `out`.
fn push_joined_rolls(out: &mut String, rolls: &[i32], n: usize)
    requires
        n <= rolls@.len(),
    ensures
        final(out)@ == old(out)@ + joined_rolls(rolls@.take(n as int)),
{
    let mut i: usize = 0;
    while i < n
        invariant
            i <= n <= rolls@.len(),
            out@ == old(out)@ + joined_rolls(rolls@.take(i as int)),
        decreases n - i,
    {
        let ghost before = out@;
        if i > 0 {
            push_str(out, ", ");
        }
        push_decimal(out, rolls[i] as i64);
        proof {
            let t = rolls@.take(i + 1);
            assert(t.drop_last() =~= rolls@.take(i as int));
            assert(t.last() == rolls@[i as int]);
            if i == 0 {
                assert(rolls@.take(0) =~= Seq::<i32>::empty());
                assert(out@ =~= old(out)@ + joined_rolls(t));
            } else {
                assert(out@ =~= old(out)@ + joined_rolls(t));
            }
        }
        i = i + 1;
    }
}

/// The rolls of a pool as shown to users.
pub fn fmt_rolls(pool: &DicePoolRoll) -> (r: String)
    ensures
        r@ == rolls_text(pool.rolls@),
{
    let rolls = pool.rolls();
    let mut out = String::new();
    if rolls.len() > MAX_DISPLAYED_ROLLS {
        push_joined_rolls(&mut out, rolls, MAX_DISPLAYED_ROLLS);
        push_str(&mut out, ", and ");
        push_decimal_usize(&mut out, rolls.len() - MAX_DISPLAYED_ROLLS);
        push_str(&mut out, " more");
        assert(out@ =~= rolls_text(pool.rolls@));
    } else {
        push_joined_rolls(&mut out, rolls, rolls.len());
        assert(rolls@.take(rolls@.len() as int) =~= rolls@);
        assert(out@ =~= rolls_text(pool.rolls@));
    }
    out
}

/// The word for a failed pool: a chance die that comes up 1 is a dramatic failure.
pub open spec fn failure_text(pool: DicePoolRoll) -> Seq<char> {
    if pool.modifiers.quality == DicePoolQuality::ChanceDie && pool.rolls@.len() > 0
        && pool.rolls@[0] == 1 {
        "dramatic failure!"@
    } else {
        "failure!"@
    }
}

/// The word shown for a failed pool roll.
pub fn fmt_for_failure(pool: &DicePoolRoll) -> (r: String)
    ensures
        r@ == failure_text(*pool),
{
    if pool.modifiers.quality == DicePoolQuality::ChanceDie && pool.rolls.len() > 0
        && pool.rolls[0] == 1 {
        String::from_str("dramatic failure!")
    } else {
        String::from_str("failure!")
    }
}

/// The result of a pool roll as shown to users.
pub open spec fn roll_text(pool: DicePoolRoll) -> Seq<char> {
    let successes = reported_successes(pool.rolls@, pool.modifiers.success_on);
    if successes > 0 {
        decimal_string(successes as int) + (if successes >= pool.modifiers.exceptional_on {
            " successes (exceptional!)"@
        } else {
            " successes"@
        }) + " ("@ + rolls_text(pool.rolls@) + ")"@
    } else {
        failure_text(pool) + " ("@ + rolls_text(pool.rolls@) + ")"@
    }
}

impl DicePoolRoll {
    /// The result of the roll as shown to users: the successes (or failure)
    /// and the dice rolled.
    pub fn describe(&self) -> (r: String)
        ensures
            r@ == roll_text(*self),
    {
        let successes = self.successes();
        let mut out = String::new();
        if successes > 0 {
            push_decimal(&mut out, successes as i64);
            if self.is_exceptional() {
                push_str(&mut out, " successes (exceptional!)");
            } else {
                push_str(&mut out, " successes");
            }
        } else {
            let f = fmt_for_failure(self);
            push_str(&mut out, f.as_str());
        }
        push_str(&mut out, " (");
        let rolls = fmt_rolls(self);
        push_str(&mut out, rolls.as_str());
        push_str(&mut out, ")");
        assert(out@ =~= roll_text(*self));
        out
    }
}

/// The rolled pool as shown to users: its size and rules.
pub open spec fn rolled_pool_text(p: RolledDicePool) -> Seq<char> {
    decimal_string(p.num_dice as int) + " dice ("@ + quality_text(p.modifiers.quality)
        + ", exceptional on "@ + decimal_string(p.modifiers.exceptional_on as int)
        + " successes)"@
}

impl RolledDicePool {
    /// The size and rules of the rolled pool as shown to users.
    pub fn describe(&self) -> (r: String)
        ensures
            r@ == rolled_pool_text(*self),
    {
        let mut out = String::new();
        push_decimal(&mut out, self.num_dice as i64);
        push_str(&mut out, " dice (");
        push_str(&mut out, self.modifiers.quality.text());
        push_str(&mut out, ", exceptional on ");
        push_decimal(&mut out, self.modifiers.exceptional_on as i64);
        push_str(&mut out, " successes)");
        assert(out@ =~= rolled_pool_text(*self));
        out
    }
}

}
