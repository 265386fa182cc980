//! Percentile dice for the Call of Cthulhu system. A roll is made of a unit
//! die and one or more tens dice (all d10 showing 0 to 9); bonus and penalty
//! dice add tens dice and keep the lowest or highest result.
use crate::dice::{calculate_dice_amount, dice_total, total_fits, VariableEntry};
use crate::error::{BotError, DiceRollingError, DiceRollingErrorModel};
use crate::parser::{amounts_view, Amount, AmountModel, DiceParsingError, Element, ElementModel};
use crate::text::{decimal_string, push_decimal, push_str};
use vstd::prelude::*;

verus! {

/// Potential modifier on the die roll to be made.
#[derive(Clone, Copy, Debug, PartialEq, Eq, Structural)]
pub enum DiceRollModifier {
    /// No bonuses or penalties.
    Normal,
    /// Roll one extra die and pick the lower of two results.
    OneBonus,
    /// Roll two extra dice and pick the lower of all results.
    TwoBonus,
    /// Roll one extra die and pick the higher of two results.
    OnePenalty,
    /// Roll two extra dice and pick the higher of all results.
    TwoPenalty,
}

/// The text shown for a roll modifier.
pub open spec fn modifier_text(m: DiceRollModifier) -> Seq<char> {
    match m {
        DiceRollModifier::Normal => "no modifiers"@,
        DiceRollModifier::OneBonus => "one bonus die"@,
        DiceRollModifier::TwoBonus => "two bonus dice"@,
        DiceRollModifier::OnePenalty => "one penalty die"@,
        DiceRollModifier::TwoPenalty => "two penalty dice"@,
    }
}

impl DiceRollModifier {
    /// The modifier as shown to users.
    pub fn text(&self) -> (r: &'static str)
        ensures
            r@ == modifier_text(*self),
    {
        match self {
            DiceRollModifier::Normal => "no modifiers",
            DiceRollModifier::OneBonus => "one bonus die",
            DiceRollModifier::TwoBonus => "two bonus dice",
            DiceRollModifier::OnePenalty => "one penalty die",
            DiceRollModifier::TwoPenalty => "two penalty dice",
        }
    }
}

/// A planned dice roll: the amounts that add up to the target number, and
/// the modifier.
#[derive(Clone, Debug, PartialEq)]
pub struct DiceRoll {
    pub amounts: Vec<Amount>,
    pub modifier: DiceRollModifier,
}

/// The outcome of a die roll, either some kind of success or failure.
#[derive(Clone, Copy, Debug, PartialEq, Eq, Structural)]
pub enum RollResult {
    /// Basic success. The rolled number was equal to or less than the target number.
    Success,
    /// Hard success means the rolled number was equal to or less than
    /// the target number divided by 2 (rounded down).
    HardSuccess,
    /// Extreme success means the rolled number was equal to or less
    /// than the target number divided by 5 (rounded down).
    ExtremeSuccess,
    /// A critical success occurs on a roll of 1.
    CriticalSuccess,
    /// A basic failure means that the roll was above the target number.
    Failure,
    /// A fumble occurs if the target number is below 50 and the roll
    /// was 96 - 100, OR if the roll result was 100. This means lower
    /// target numbers are more likely to produce a fumble.
    Fumble,
}

/// The text shown for a roll result.
pub open spec fn result_text(r: RollResult) -> Seq<char> {
    match r {
        RollResult::Success => "success!"@,
        RollResult::HardSuccess => "hard success!"@,
        RollResult::ExtremeSuccess => "extreme success!"@,
        RollResult::CriticalSuccess => "critical success!"@,
        RollResult::Failure => "failure!"@,
        RollResult::Fumble => "fumble!"@,
    }
}

impl RollResult {
    /// The result as shown to users.
    pub fn text(&self) -> (r: &'static str)
        ensures
            r@ == result_text(*self),
    {
        match self {
            RollResult::Success => "success!",
            RollResult::HardSuccess => "hard success!",
            RollResult::ExtremeSuccess => "extreme success!",
            RollResult::CriticalSuccess => "critical success!",
            RollResult::Failure => "failure!",
            RollResult::Fumble => "fumble!",
        }
    }
}

/// The kind of success or failure of rolling `num_rolled` against `target`.
pub open spec fn roll_result(num_rolled: u32, target: u32) -> RollResult {
    if (target < 50 && num_rolled > 95) || num_rolled == 100 {
        RollResult::Fumble
    } else if num_rolled == 1 {
        RollResult::CriticalSuccess
    } else if num_rolled <= target / 5 {
        RollResult::ExtremeSuccess
    } else if num_rolled <= target / 2 {
        RollResult::HardSuccess
    } else if num_rolled <= target {
        RollResult::Success
    } else {
        RollResult::Failure
    }
}

/// A roll as shown to users: the number rolled, the target and the result.
pub open spec fn rolled_dice_text(r: RolledDice) -> Seq<char> {
    decimal_string(r.num_rolled as int) + " against "@ + decimal_string(r.target as int) + ": "@
        + result_text(roll_result(r.num_rolled, r.target))
}

/// The outcome of a roll.
pub struct RolledDice {
    /// The d100 result actually rolled.
    pub num_rolled: u32,
    /// The number we must meet for the roll to be considered a success.
    pub target: u32,
}

impl RolledDice {
    /// Calculate what type of success or failure this roll is.
    /// Consult the RollResult enum for descriptions of what each
    /// result requires.
    pub fn result(&self) -> (r: RollResult)
        ensures
            r == roll_result(self.num_rolled, self.target),
    {
        let hard_target = self.target / 2u32;
        let extreme_target = self.target / 5u32;
        if (self.target < 50 && self.num_rolled > 95) || self.num_rolled == 100 {
            RollResult::Fumble
        } else if self.num_rolled == 1 {
            RollResult::CriticalSuccess
        } else if self.num_rolled <= extreme_target {
            RollResult::ExtremeSuccess
        } else if self.num_rolled <= hard_target {
            RollResult::HardSuccess
        } else if self.num_rolled <= self.target {
            RollResult::Success
        } else {
            RollResult::Failure
        }
    }

    /// The roll as shown to users: the number rolled, the target and the result.
    pub fn describe(&self) -> (r: String)
        ensures
            r@ == rolled_dice_text(*self),
    {
        let mut out = String::new();
        push_decimal(&mut out, self.num_rolled as i64);
        push_str(&mut out, " against ");
        push_decimal(&mut out, self.target as i64);
        push_str(&mut out, ": ");
        push_str(&mut out, self.result().text());
        out
    }
}

/// A struct wrapping the target and the actual dice roll result, so the
/// target number (calculated from resolving variables) can be displayed
/// separately from the result.
pub struct ExecutedDiceRoll {
    /// The number we must meet for the roll to be considered a success.
    pub target: u32,
    /// Stored for informational purposes in display.
    pub modifier: DiceRollModifier,
    /// The actual roll result.
    pub roll: RolledDice,
}

/// The target and modifier of a roll as shown to users.
pub open spec fn executed_roll_text(e: ExecutedDiceRoll) -> Seq<char> {
    "target: "@ + decimal_string(e.target as int) + ", with "@ + modifier_text(e.modifier)
}

impl ExecutedDiceRoll {
    /// The target and modifier as shown to users.
    pub fn describe(&self) -> (r: String)
        ensures
            r@ == executed_roll_text(*self),
    {
        let mut out = String::new();
        push_str(&mut out, "target: ");
        push_decimal(&mut out, self.target as i64);
        push_str(&mut out, ", with ");
        push_str(&mut out, self.modifier.text());
        out
    }
}

/// A planned advancement roll, where the target number is the
/// existing skill amount.
#[derive(Clone, Debug, PartialEq)]
pub struct AdvancementRoll {
    /// The amount (0 to 100) of the existing skill. We must beat this
    /// target number to advance the skill, or roll above a 95.
    pub existing_skill: Vec<Amount>,
}

/// A completed advancement roll.
pub struct RolledAdvancement {
    pub existing_skill: u32,
    pub num_rolled: u32,
    pub advancement: u32,
    pub successful: bool,
}

/// An advancement roll as shown to users: the number rolled, the skill,
/// and the new skill or the skill that remains.
pub open spec fn advancement_text(a: RolledAdvancement) -> Seq<char> {
    "rolled "@ + decimal_string(a.num_rolled as int) + " against "@ + decimal_string(
        a.existing_skill as int,
    ) + ": "@ + (if a.successful {
        "success! new skill is "@ + decimal_string(a.existing_skill + a.advancement)
            + " (advanced by "@ + decimal_string(a.advancement as int) + ")."@
    } else {
        "failure! skill remains at "@ + decimal_string(a.existing_skill as int)
    })
}

impl RolledAdvancement {
    /// The new skill amount, which will be the same if the roll was a
    /// failure.
    pub fn new_skill_amount(&self) -> (r: u32)
        requires
            self.existing_skill + self.advancement <= u32::MAX,
        ensures
            r == self.existing_skill + self.advancement,
    {
        self.existing_skill + self.advancement
    }

    /// How much the skill advanced (1 to 10). 0 if the advancement
    /// roll failed.
    pub fn advancement(&self) -> (r: u32)
        ensures
            r == self.advancement,
    {
        self.advancement
    }

    /// Whether or not the advancement roll was successful.
    pub fn successful(&self) -> (r: bool)
        ensures
            r == self.successful,
    {
        self.successful
    }

    /// The advancement roll as shown to users.
    pub fn describe(&self) -> (r: String)
        requires
            self.existing_skill + self.advancement <= u32::MAX,
        ensures
            r@ == advancement_text(*self),
    {
        let mut out = String::new();
        push_str(&mut out, "rolled ");
        push_decimal(&mut out, self.num_rolled as i64);
        push_str(&mut out, " against ");
        push_decimal(&mut out, self.existing_skill as i64);
        push_str(&mut out, ": ");
        if self.successful {
            push_str(&mut out, "success! new skill is ");
            push_decimal(&mut out, self.new_skill_amount() as i64);
            push_str(&mut out, " (advanced by ");
            push_decimal(&mut out, self.advancement as i64);
            push_str(&mut out, ").");
        } else {
            push_str(&mut out, "failure! skill remains at ");
            push_decimal(&mut out, self.existing_skill as i64);
        }
        out
    }
}

/// A struct wrapping the target and the actual advancement roll result.
pub struct ExecutedAdvancementRoll {
    /// The number we must exceed for the roll to be considered a success.
    pub target: u32,
    /// The actual roll result.
    pub roll: RolledAdvancement,
}

/// The target of an advancement roll as shown to users.
pub open spec fn executed_advancement_text(e: ExecutedAdvancementRoll) -> Seq<char> {
    "target: "@ + decimal_string(e.target as int)
}

impl ExecutedAdvancementRoll {
    /// The target as shown to users.
    pub fn describe(&self) -> (r: String)
        ensures
            r@ == executed_advancement_text(*self),
    {
        let mut out = String::new();
        push_str(&mut out, "target: ");
        push_decimal(&mut out, self.target as i64);
        out
    }
}

/// A source of d10 rolls showing 0 to 9.
pub trait DieRoller {
    /// Every number rolled so far, in order.
    spec fn history(&self) -> Seq<u32>;

    /// The numbers the roller was set up to hand out, in order; none for a
    /// roller that draws at random.
    spec fn series(&self) -> Seq<u32>;

    /// Whether what the roller has handed out agrees with its series.
    spec fn consistent(&self) -> bool;

    /// Roll a d10.
    fn roll(&mut self) -> (r: u32)
        ensures
            final(self).history() == old(self).history().push(r),
            final(self).series() == old(self).series(),
            old(self).consistent() ==> final(self).consistent(),
            r <= 9,
    ;
}

/// A die roller that draws from a random number generator.
pub struct RngDieRoller {
    rng: rand::rngs::StdRng,
    rolled: Ghost<Seq<u32>>,
}

impl RngDieRoller {
    /// A roller drawing from a generator seeded by the operating system.
    pub fn new() -> (r: RngDieRoller)
        ensures
            r.history() == Seq::<u32>::empty(),
    {
        RngDieRoller { rng: crate::rng::new_entropy_rng(), rolled: Ghost(Seq::empty()) }
    }
}

impl DieRoller for RngDieRoller {
    closed spec fn history(&self) -> Seq<u32> {
        self.rolled@
    }

    open spec fn series(&self) -> Seq<u32> {
        Seq::empty()
    }

    open spec fn consistent(&self) -> bool {
        true
    }

    fn roll(&mut self) -> (r: u32) {
        let r = crate::rng::gen_decimal_digit(&mut self.rng);
        self.rolled = Ghost(self.rolled@.push(r));
        r
    }
}

/// A die roller that hands out a given series of numbers (each 0 to 9), for
/// reproducible rolls. The first number is the unit roll of a percentile
/// roll and the following ones are tens rolls. Once the series is used up
/// it keeps rolling 0.
pub struct SequentialDieRoller {
    results: Vec<u32>,
    position: usize,
    rolled: Ghost<Seq<u32>>,
}

impl SequentialDieRoller {
    #[verifier::type_invariant]
    spec fn inv(self) -> bool {
        &&& self.position <= self.results@.len()
        &&& forall|i: int| 0 <= i < self.results@.len() ==> #[trigger] self.results@[i] <= 9
    }

    /// The numbers still to be handed out.
    pub closed spec fn pending(&self) -> Seq<u32> {
        self.results@.skip(self.position as int)
    }

    /// A roller that hands out `results` in order.
    pub fn new(results: Vec<u32>) -> (r: SequentialDieRoller)
        requires
            forall|i: int| 0 <= i < results@.len() ==> #[trigger] results@[i] <= 9,
        ensures
            r.history() == Seq::<u32>::empty(),
            r.pending() == results@,
            r.series() == results@,
            r.consistent(),
    {
        let r = SequentialDieRoller { results: results, position: 0, rolled: Ghost(Seq::empty()) };
        assert(r.results@.skip(0) =~= r.results@);
        assert(r.rolled@.take(0) =~= r.results@.take(0));
        r
    }

    /// What a consistent roller has handed out: while the series lasts, the
    /// numbers handed out followed by those still pending make up the
    /// series; after that, the whole series followed by a 0 for each
    /// further roll.
    pub proof fn lemma_handed_out(&self)
        requires
            self.consistent(),
        ensures
            self.history().len() <= self.series().len() ==> self.history() + self.pending()
                == self.series(),
            self.history().len() >= self.series().len() ==> {
                &&& self.history().take(self.series().len() as int) == self.series()
                &&& self.pending().len() == 0
                &&& forall|i: int|
                    self.series().len() <= i < self.history().len() ==> #[trigger] self.history()[i] == 0
            },
    {
        let h = self.rolled@;
        let s = self.results@;
        let p = self.position as int;
        if h.len() <= s.len() {
            if h.len() > p {
                assert(p == s.len());
            }
            assert(h.len() == p);
            assert(h =~= h.take(p));
            assert(s.take(p) + s.skip(p) =~= s);
        }
        if h.len() >= s.len() {
            if h.len() == p {
                assert(p == s.len());
            }
            assert(p == s.len());
            assert(s.take(p) =~= s);
            assert(s.skip(p) =~= Seq::<u32>::empty());
        }
    }
}

impl DieRoller for SequentialDieRoller {
    closed spec fn history(&self) -> Seq<u32> {
        self.rolled@
    }

    closed spec fn series(&self) -> Seq<u32> {
        self.results@
    }

    /// The numbers handed out so far are the series up to the roller's
    /// position, followed by a 0 for each roll after the series was used up.
    closed spec fn consistent(&self) -> bool {
        &&& self.position <= self.results@.len()
        &&& self.rolled@.len() >= self.position
        &&& self.rolled@.take(self.position as int) == self.results@.take(self.position as int)
        &&& (self.rolled@.len() > self.position ==> self.position == self.results@.len())
        &&& forall|i: int| self.position <= i < self.rolled@.len() ==> #[trigger] self.rolled@[i] == 0
    }

    fn roll(&mut self) -> (r: u32)
        ensures
            if old(self).pending().len() > 0 {
                &&& r == old(self).pending()[0]
                &&& final(self).pending() == old(self).pending().drop_first()
            } else {
                r == 0 && final(self).pending() == old(self).pending()
            },
    {
        proof {
            use_type_invariant(&*self);
        }
        let r = if self.position < self.results.len() {
            let x = self.results[self.position];
            self.position = self.position + 1;
            proof {
                assert(self.results@.skip(self.position as int) =~= old(self).pending().drop_first());
            }
            x
        } else {
            0
        };
        self.rolled = Ghost(self.rolled@.push(r));
        proof {
            if old(self).consistent() {
                assert(self.rolled@.take(self.position as int) =~= self.results@.take(self.position as int));
            }
        }
        r
    }
}

/// The percentile result of a tens die and a unit die: 100 when both show 0.
pub open spec fn percentile(tens: u32, unit: u32) -> u32 {
    if tens == 0 && unit == 0 {
        100
    } else {
        (tens * 10 + unit) as u32
    }
}

/// Roll a single percentile die according to the rules. We cannot
/// simply roll a d100 due to the way the game calculates roll results
/// with bonus/penalty dice. The unit roll (ones place) is added to
/// the tens roll, unless both results are 0, in which case the result
/// is 100.
pub fn roll_percentile_dice<R: DieRoller>(roller: &mut R, unit_roll: u32) -> (r: u32)
    requires
        unit_roll <= 9,
    ensures
        final(roller).history().len() == old(roller).history().len() + 1,
        final(roller).history().drop_last() == old(roller).history(),
        final(roller).series() == old(roller).series(),
        old(roller).consistent() ==> final(roller).consistent(),
        r == percentile(final(roller).history().last(), unit_roll),
        1 <= r <= 100,
{
    let tens = roller.roll();
    proof {
        assert(roller.history().drop_last() =~= old(roller).history());
    }
    let tens_roll = tens * 10;
    if tens_roll == 0 && unit_roll == 0 {
        100
    } else {
        tens_roll + unit_roll
    }
}

/// The number of tens dice rolled for a modifier.
pub open spec fn num_rolls(m: DiceRollModifier) -> int {
    match m {
        DiceRollModifier::Normal => 1,
        DiceRollModifier::OneBonus | DiceRollModifier::OnePenalty => 2,
        DiceRollModifier::TwoBonus | DiceRollModifier::TwoPenalty => 3,
    }
}

/// The smallest element of a non-empty sequence.
pub open spec fn seq_min(s: Seq<u32>) -> u32
    decreases s.len(),
{
    if s.len() <= 1 {
        s[0]
    } else if s.last() < seq_min(s.drop_last()) {
        s.last()
    } else {
        seq_min(s.drop_last())
    }
}

/// The largest element of a non-empty sequence.
pub open spec fn seq_max(s: Seq<u32>) -> u32
    decreases s.len(),
{
    if s.len() <= 1 {
        s[0]
    } else if s.last() > seq_max(s.drop_last()) {
        s.last()
    } else {
        seq_max(s.drop_last())
    }
}

/// The percentile results of a regular roll whose draws were `draws`: the
/// first draw is the unit die, each later draw a tens die.
pub open spec fn percentiles(draws: Seq<u32>) -> Seq<u32> {
    Seq::new((draws.len() - 1) as nat, |i: int| percentile(draws[i + 1], draws[0]))
}

/// The result kept for a modifier: the first for no modifier, the lowest with
/// bonus dice, the highest with penalty dice.
pub open spec fn kept_roll(m: DiceRollModifier, rolls: Seq<u32>) -> u32 {
    match m {
        DiceRollModifier::Normal => rolls[0],
        DiceRollModifier::OneBonus | DiceRollModifier::TwoBonus => seq_min(rolls),
        DiceRollModifier::OnePenalty | DiceRollModifier::TwoPenalty => seq_max(rolls),
    }
}

/// How many bonus dice a modifier adds to a roll.
pub open spec fn bonus_dice(m: DiceRollModifier) -> int {
    match m {
        DiceRollModifier::OneBonus => 1,
        DiceRollModifier::TwoBonus => 2,
        _ => 0,
    }
}

/// How many penalty dice a modifier adds to a roll.
pub open spec fn penalty_dice(m: DiceRollModifier) -> int {
    match m {
        DiceRollModifier::OnePenalty => 1,
        DiceRollModifier::TwoPenalty => 2,
        _ => 0,
    }
}

/// A regular roll rolls one tens die, and one more for each bonus or
/// penalty die: with two bonus (or two penalty) dice, three tens dice.
/// (Together with the unit die, `roll_regular_dice` draws
/// `1 + num_rolls(m)` numbers.)
pub proof fn lemma_tens_dice_count(m: DiceRollModifier)
    ensures
        num_rolls(m) == 1 + bonus_dice(m) + penalty_dice(m),
        bonus_dice(m) == 0 || penalty_dice(m) == 0,
{
}

/// Make a regular roll against `target` with the given modifier: one unit
/// die, then one tens die per percentile roll; the kept result is picked
/// according to the modifier.
pub fn roll_regular_dice<R: DieRoller>(modifier: &DiceRollModifier, target: u32, roller: &mut R) -> (r: RolledDice)
    ensures
        final(roller).history().len() == old(roller).history().len() + 1 + num_rolls(*modifier),
        final(roller).history().take(old(roller).history().len() as int) == old(roller).history(),
        final(roller).series() == old(roller).series(),
        old(roller).consistent() ==> final(roller).consistent(),
        r.target == target,
        r.num_rolled == kept_roll(
            *modifier,
            percentiles(final(roller).history().skip(old(roller).history().len() as int)),
        ),
{
    let num_rolls: usize = match modifier {
        DiceRollModifier::Normal => 1,
        DiceRollModifier::OneBonus | DiceRollModifier::OnePenalty => 2,
        DiceRollModifier::TwoBonus | DiceRollModifier::TwoPenalty => 3,
    };
    let ghost h0 = roller.history();
    let unit_roll = roller.roll();
    let mut rolls: Vec<u32> = Vec::new();
    let mut i: usize = 0;
    while i < num_rolls
        invariant
            i <= num_rolls <= 3,
            unit_roll <= 9,
            roller.history().len() == h0.len() + 1 + i,
            roller.history().take(h0.len() as int) == h0,
            roller.series() == old(roller).series(),
            old(roller).consistent() ==> roller.consistent(),
            roller.history()[h0.len() as int] == unit_roll,
            rolls@ == percentiles(roller.history().skip(h0.len() as int)),
        decreases num_rolls - i,
    {
        let ghost before = roller.history();
        let p = roll_percentile_dice(roller, unit_roll);
        rolls.push(p);
        proof {
            let h = roller.history();
            assert(h.take(h0.len() as int) =~= before.take(h0.len() as int));
            assert(h[h0.len() as int] == before[h0.len() as int]);
            assert(rolls@ =~= percentiles(h.skip(h0.len() as int)));
        }
        i = i + 1;
    }
    let ghost all = rolls@;
    let num_rolled = match modifier {
        DiceRollModifier::Normal => rolls[0],
        DiceRollModifier::OneBonus | DiceRollModifier::TwoBonus => min_of(&rolls),
        DiceRollModifier::OnePenalty | DiceRollModifier::TwoPenalty => max_of(&rolls),
    };
    RolledDice { num_rolled: num_rolled, target: target }
}

/// The smallest element of a non-empty vector.
fn min_of(v: &Vec<u32>) -> (r: u32)
    requires
        v@.len() >= 1,
    ensures
        r == seq_min(v@),
{
    let mut m = v[0];
    let mut i: usize = 1;
    while i < v.len()
        invariant
            1 <= i <= v@.len(),
            m == seq_min(v@.take(i as int)),
        decreases v@.len() - i,
    {
        proof {
            assert(v@.take(i + 1).drop_last() =~= v@.take(i as int));
        }
        if v[i] < m {
            m = v[i];
        }
        i = i + 1;
    }
    proof {
        assert(v@.take(i as int) =~= v@);
    }
    m
}

/// The largest element of a non-empty vector.
fn max_of(v: &Vec<u32>) -> (r: u32)
    requires
        v@.len() >= 1,
    ensures
        r == seq_max(v@),
{
    let mut m = v[0];
    let mut i: usize = 1;
    while i < v.len()
        invariant
            1 <= i <= v@.len(),
            m == seq_max(v@.take(i as int)),
        decreases v@.len() - i,
    {
        proof {
            assert(v@.take(i + 1).drop_last() =~= v@.take(i as int));
        }
        if v[i] > m {
            m = v[i];
        }
        i = i + 1;
    }
    proof {
        assert(v@.take(i as int) =~= v@);
    }
    m
}

/// What every advancement roll satisfies: a success advances the skill by
/// 1 to 10, a failure by nothing.
pub open spec fn advancement_consistent(r: RolledAdvancement) -> bool {
    &&& r.successful ==> 1 <= r.advancement <= 10
    &&& !r.successful ==> r.advancement == 0
}

/// The skill after an advancement roll: the new skill amount is the old
/// one when the roll failed, and 1 to 10 more when it succeeded.
pub proof fn lemma_new_skill_amount(r: RolledAdvancement)
    requires
        advancement_consistent(r),
    ensures
        !r.successful ==> r.existing_skill + r.advancement == r.existing_skill,
        r.successful ==> r.existing_skill + 1 <= r.existing_skill + r.advancement
            <= r.existing_skill + 10,
{
}

/// An advancement roll against `target` whose draws were `draws` (unit die,
/// tens die, and the advancement die when the roll succeeds).
pub open spec fn advancement_outcome(target: u32, draws: Seq<u32>, r: RolledAdvancement) -> bool {
    let p = percentile(draws[1], draws[0]);
    &&& r.num_rolled == p
    &&& r.existing_skill == target
    &&& if p > target || p > 95 {
        &&& draws.len() == 3
        &&& r.successful
        &&& r.advancement == draws[2] + 1
    } else {
        &&& draws.len() == 2
        &&& !r.successful
        &&& r.advancement == 0
    }
}

/// Make an advancement roll for a skill of `target`: a percentile roll above
/// the skill (or above 95) succeeds and advances the skill by 1 to 10.
pub fn roll_advancement_dice<R: DieRoller>(target: u32, roller: &mut R) -> (r: RolledAdvancement)
    ensures
        final(roller).history().take(old(roller).history().len() as int) == old(roller).history(),
        final(roller).series() == old(roller).series(),
        old(roller).consistent() ==> final(roller).consistent(),
        final(roller).history().len() >= old(roller).history().len(),
        advancement_outcome(target, final(roller).history().skip(old(roller).history().len() as int), r),
        advancement_consistent(r),
{
    let ghost h0 = roller.history();
    let unit_roll = roller.roll();
    let ghost h1 = roller.history();
    let percentile_roll = roll_percentile_dice(roller, unit_roll);
    let ghost h2 = roller.history();
    proof {
        assert(h2.take(h0.len() as int) =~= h0);
        assert(h2[h0.len() as int] == h2.drop_last()[h0.len() as int]);
        assert(h1[h0.len() as int] == unit_roll);
    }
    if percentile_roll > target || percentile_roll > 95 {
        let a = roller.roll();
        proof {
            let h = roller.history();
            assert(h.take(h0.len() as int) =~= h0);
            let d = h.skip(h0.len() as int);
            assert(d.len() == 3);
            assert(d[0] == unit_roll);
            assert(d[1] == h2.last());
            assert(d[2] == a);
        }
        RolledAdvancement {
            num_rolled: percentile_roll,
            existing_skill: target,
            advancement: a + 1,
            successful: true,
        }
    } else {
        proof {
            let d = h2.skip(h0.len() as int);
            assert(d.len() == 2);
            assert(d[0] == unit_roll);
            assert(d[1] == h2.last());
        }
        RolledAdvancement {
            num_rolled: percentile_roll,
            existing_skill: target,
            advancement: 0,
            successful: false,
        }
    }
}


/// Whether an amount is a variable.
pub fn is_variable(amount: &Amount) -> (r: bool)
    ensures
        r == (amount.element is Variable),
{
    match amount.element {
        Element::Variable(_) => true,
        Element::Number(_) => false,
    }
}

/// The name of the variable an amount refers to; an error for a number.
pub fn extract_variable(amount: &Amount) -> (r: Result<&String, DiceParsingError>)
    ensures
        match amount.element {
            Element::Variable(name) => r matches Ok(n) && n@ == name@,
            Element::Number(_) => r == Err::<&String, DiceParsingError>(DiceParsingError::WrongElementType),
        },
{
    match &amount.element {
        Element::Variable(varname) => Ok(varname),
        Element::Number(_) => Err(DiceParsingError::WrongElementType),
    }
}

/// Make a roll with a target number and potential modifier. The target is
/// the sum of the roll's amounts, with variables taken from `vars`; a
/// negative target is refused. In a normal roll, only one percentile die is
/// rolled (1d100). With bonuses or penalties, more dice are rolled, and
/// either the lowest (in case of bonus) or highest (in case of penalty)
/// result is picked. The unit roll (ones place) is rolled separately from
/// the tens place, and then added to each potential roll before picking the
/// lowest/highest result.
pub fn regular_roll<R: DieRoller>(roll: &DiceRoll, vars: &[VariableEntry], roller: &mut R) -> (r: Result<ExecutedDiceRoll, BotError>)
    requires
        total_fits(amounts_view(roll.amounts@), vars@),
    ensures
        match dice_total(amounts_view(roll.amounts@), vars@) {
            Err(e) => r matches Err(BotError::DiceRollingError(f)) && f@ == e,
            Ok(n) => if n < 0 {
                r matches Err(BotError::DiceRollingError(f)) && f@ == DiceRollingErrorModel::InvalidAmount
            } else {
                r matches Ok(ex) && {
                    &&& ex.target == n
                    &&& ex.modifier == roll.modifier
                    &&& ex.roll.target == n
                    &&& final(roller).history().len() == old(roller).history().len() + 1
                        + num_rolls(roll.modifier)
                    &&& ex.roll.num_rolled == kept_roll(
                        roll.modifier,
                        percentiles(final(roller).history().skip(old(roller).history().len() as int)),
                    )
                }
            },
        },
        final(roller).history().take(old(roller).history().len() as int) == old(roller).history(),
        final(roller).series() == old(roller).series(),
        old(roller).consistent() ==> final(roller).consistent(),
        r is Err ==> final(roller).history() == old(roller).history(),
{
    let target = match calculate_dice_amount(roll.amounts.as_slice(), vars) {
        Ok(t) => t,
        Err(e) => {
            proof {
                assert(roller.history().take(roller.history().len() as int) =~= roller.history());
            }
            return Err(BotError::DiceRollingError(e));
        },
    };
    if target < 0 {
        proof {
            assert(roller.history().take(roller.history().len() as int) =~= roller.history());
        }
        return Err(BotError::DiceRollingError(DiceRollingError::InvalidAmount));
    }
    let target = target as u32;
    let rolled_dice = roll_regular_dice(&roll.modifier, target, roller);
    Ok(ExecutedDiceRoll { target, modifier: roll.modifier, roll: rolled_dice })
}

/// Make an advancement roll for the skill given by the roll's amounts, with
/// variables taken from `vars`. A skill below 0 or above 100 is refused.
pub fn advancement_roll<R: DieRoller>(roll: &AdvancementRoll, vars: &[VariableEntry], roller: &mut R) -> (r: Result<ExecutedAdvancementRoll, BotError>)
    requires
        total_fits(amounts_view(roll.existing_skill@), vars@),
    ensures
        match dice_total(amounts_view(roll.existing_skill@), vars@) {
            Err(e) => r matches Err(BotError::DiceRollingError(f)) && f@ == e,
            Ok(n) => if n < 0 || n > 100 {
                r matches Err(BotError::DiceRollingError(f)) && f@ == DiceRollingErrorModel::InvalidAmount
            } else {
                r matches Ok(ex) && {
                    &&& ex.target == n
                    &&& advancement_outcome(
                        n as u32,
                        final(roller).history().skip(old(roller).history().len() as int),
                        ex.roll,
                    )
                    &&& advancement_consistent(ex.roll)
                }
            },
        },
        final(roller).history().take(old(roller).history().len() as int) == old(roller).history(),
        final(roller).series() == old(roller).series(),
        old(roller).consistent() ==> final(roller).consistent(),
        r is Err ==> final(roller).history() == old(roller).history(),
{
    let target = match calculate_dice_amount(roll.existing_skill.as_slice(), vars) {
        Ok(t) => t,
        Err(e) => {
            proof {
                assert(roller.history().take(roller.history().len() as int) =~= roller.history());
            }
            return Err(BotError::DiceRollingError(e));
        },
    };
    if target < 0 || target > 100 {
        proof {
            assert(roller.history().take(roller.history().len() as int) =~= roller.history());
        }
        return Err(BotError::DiceRollingError(DiceRollingError::InvalidAmount));
    }
    let target = target as u32;
    let rolled = roll_advancement_dice(target, roller);
    Ok(ExecutedAdvancementRoll { target, roll: rolled })
}

/// The skill variable an advancement roll writes back, with its new value:
/// present when the roll succeeded and the skill is given by a single
/// variable. A new value that does not fit an `i32` is refused.
pub open spec fn skill_update_spec(roll: AdvancementRoll, executed: ExecutedAdvancementRoll) -> Option<(Seq<char>, int)> {
    if executed.roll.successful && roll.existing_skill@.len() == 1
        && roll.existing_skill@[0].element is Variable {
        Some((
            roll.existing_skill@[0].element->Variable_0@,
            executed.roll.existing_skill + executed.roll.advancement,
        ))
    } else {
        None
    }
}

/// After an advancement roll, the variable to update and its new value, if
/// the roll succeeded and the skill was a variable.
pub fn skill_update(roll: &AdvancementRoll, executed: &ExecutedAdvancementRoll) -> (r: Result<Option<(String, i32)>, BotError>)
    ensures
        match skill_update_spec(*roll, *executed) {
            None => r matches Ok(None),
            Some((name, value)) => if value <= i32::MAX {
                r matches Ok(Some((n, v))) && n@ == name && v == value
            } else {
                r matches Err(BotError::TryFromIntError)
            },
        },
{
    if executed.roll.successful && roll.existing_skill.len() == 1 && is_variable(&roll.existing_skill[0]) {
        let variable_name = match extract_variable(&roll.existing_skill[0]) {
            Ok(n) => n,
            Err(e) => {
                return Err(BotError::DiceParsingError(e));
            },
        };
        let value: u64 = executed.roll.existing_skill as u64 + executed.roll.advancement as u64;
        if value > 0x7fff_ffffu64 {
            return Err(BotError::TryFromIntError);
        }
        Ok(Some((variable_name.clone(), value as i32)))
    } else {
        Ok(None)
    }
}


/// The smallest of some rolls is one of them, and no roll is smaller.
pub proof fn lemma_seq_min(s: Seq<u32>)
    requires
        s.len() >= 1,
    ensures
        s.contains(seq_min(s)),
        forall|i: int| 0 <= i < s.len() ==> seq_min(s) <= #[trigger] s[i],
    decreases s.len(),
{
    if s.len() > 1 {
        lemma_seq_min(s.drop_last());
        let m = seq_min(s.drop_last());
        let k = choose|k: int| 0 <= k < s.drop_last().len() && s.drop_last()[k] == m;
        assert(s[k] == m);
        assert forall|i: int| 0 <= i < s.len() implies seq_min(s) <= #[trigger] s[i] by {
            if i < s.len() - 1 {
                assert(s.drop_last()[i] == s[i]);
            }
        }
        if seq_min(s) == s.last() {
            assert(s[s.len() - 1] == seq_min(s));
        }
    } else {
        assert(s[0] == seq_min(s));
    }
}

/// The largest of some rolls is one of them, and no roll is larger.
pub proof fn lemma_seq_max(s: Seq<u32>)
    requires
        s.len() >= 1,
    ensures
        s.contains(seq_max(s)),
        forall|i: int| 0 <= i < s.len() ==> #[trigger] s[i] <= seq_max(s),
    decreases s.len(),
{
    if s.len() > 1 {
        lemma_seq_max(s.drop_last());
        let m = seq_max(s.drop_last());
        let k = choose|k: int| 0 <= k < s.drop_last().len() && s.drop_last()[k] == m;
        assert(s[k] == m);
        assert forall|i: int| 0 <= i < s.len() implies #[trigger] s[i] <= seq_max(s) by {
            if i < s.len() - 1 {
                assert(s.drop_last()[i] == s[i]);
            }
        }
        if seq_max(s) == s.last() {
            assert(s[s.len() - 1] == seq_max(s));
        }
    } else {
        assert(s[0] == seq_max(s));
    }
}

/// Bonus dice keep the lowest of the percentile rolls and penalty dice the
/// highest; with no modifier the single roll is kept. The kept roll is
/// always one of the rolls.
pub proof fn lemma_kept_roll(m: DiceRollModifier, rolls: Seq<u32>)
    requires
        rolls.len() >= 1,
    ensures
        rolls.contains(kept_roll(m, rolls)),
        (m == DiceRollModifier::OneBonus || m == DiceRollModifier::TwoBonus) ==> forall|i: int|
            0 <= i < rolls.len() ==> kept_roll(m, rolls) <= #[trigger] rolls[i],
        (m == DiceRollModifier::OnePenalty || m == DiceRollModifier::TwoPenalty) ==> forall|i: int|
            0 <= i < rolls.len() ==> #[trigger] rolls[i] <= kept_roll(m, rolls),
        m == DiceRollModifier::Normal ==> kept_roll(m, rolls) == rolls[0],
{
    lemma_seq_min(rolls);
    lemma_seq_max(rolls);
    if m == DiceRollModifier::Normal {
        assert(rolls[0] == kept_roll(m, rolls));
    }
}

/// How a roll is judged: a 100 is always a fumble, and so is a roll over 95
/// against a target under 50; otherwise a 1 is a critical success, and any
/// other roll succeeds exactly when it is at most the target, hard at most
/// half of it and extreme at most a fifth of it.
pub proof fn lemma_roll_result_kinds(n: u32, t: u32)
    ensures
        n == 100 ==> roll_result(n, t) == RollResult::Fumble,
        (t < 50 && n > 95) ==> roll_result(n, t) == RollResult::Fumble,
        n == 1 ==> roll_result(n, t) == RollResult::CriticalSuccess,
        (n != 1 && n != 100 && !(t < 50 && n > 95)) ==> {
            &&& (roll_result(n, t) == RollResult::Failure <==> n > t)
            &&& (roll_result(n, t) == RollResult::ExtremeSuccess <==> n <= t / 5)
            &&& (roll_result(n, t) == RollResult::HardSuccess <==> t / 5 < n <= t / 2)
            &&& (roll_result(n, t) == RollResult::Success <==> t / 2 < n <= t)
        },
{
}

}
