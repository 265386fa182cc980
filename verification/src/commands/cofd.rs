//! The commands that roll Chronicles of Darkness dice pools.
use crate::cofd::dice::{
    chance_die_modifiers, pool_outcome, same_sides, roll_pool, rolled_pool_text, roll_text, DicePool, DieRoller,
    RolledDicePool,
};
use crate::cofd::parser::{create_chance_die, parse_dice_pool, spec_parse_dice_pool};
use crate::commands::{Execution, ExecutionError};
use crate::dice::{dice_total, total_fits, VariableEntry};
use crate::error::BotError;
use crate::parser::{amounts_view, AmountModel, ElementModel, Operator};
use crate::text::push_str;
use vstd::prelude::*;

verus! {

/// Roll a dice pool.
pub struct PoolRollCommand(pub DicePool);

impl PoolRollCommand {
    /// The command that rolls a single chance die.
    pub fn chance_die() -> (r: Result<PoolRollCommand, BotError>)
        ensures
            r matches Ok(cmd) && cmd.0.sides == 10 && cmd.0.amounts@.len() == 1 && cmd.0.amounts@[0]@
                == (AmountModel { operator: Operator::Plus, element: ElementModel::Number(1) })
                && cmd.0.modifiers == chance_die_modifiers(),
    {
        let pool = match create_chance_die() {
            Ok(p) => p,
            Err(e) => {
                return Err(e);
            },
        };
        Ok(PoolRollCommand(pool))
    }

    /// The command for the text after `!pool`: a dice pool expression.
    pub fn from_input(input: &str) -> (r: Result<PoolRollCommand, BotError>)
        ensures
            match spec_parse_dice_pool(input@) {
                Ok((amounts, modifiers)) => r matches Ok(cmd) && amounts_view(cmd.0.amounts@)
                    == amounts && cmd.0.modifiers == modifiers && cmd.0.sides == 10,
                Err(e) => r matches Err(BotError::DiceParsingError(f)) && f == e,
            },
    {
        let pool = match parse_dice_pool(input) {
            Ok(p) => p,
            Err(e) => {
                return Err(e);
            },
        };
        Ok(PoolRollCommand(pool))
    }

    /// Roll the pool, with variables taken from `vars`, and report the pool
    /// and its result.
    pub fn execute<R: DieRoller>(&self, vars: &[VariableEntry], roller: &mut R) -> (r: Result<Execution, ExecutionError>)
        requires
            1 <= self.0.sides,
            self.0.amounts@.len() <= 100 ==> total_fits(amounts_view(self.0.amounts@), vars@),
        ensures
            match r {
                Ok(e) => exists|rolled: RolledDicePool|
                    {
                        &&& pool_outcome(self.0, vars@, old(roller).fair(), Ok(rolled))
                        &&& final(roller).history() == old(roller).history() + rolled.roll.rolls@
                        &&& final(roller).sides_asked() == old(roller).sides_asked() + same_sides(
                            if dice_total(amounts_view(self.0.amounts@), vars@) matches Ok(n) && n > 0 {
                                self.0.sides
                            } else {
                                10
                            },
                            rolled.roll.rolls@.len() as int,
                        )
                        &&& e.html_view() == "<strong>Pool:</strong> "@ + rolled_pool_text(rolled)
                            + "</p><p><strong>Result</strong>: "@ + roll_text(rolled.roll)
                    },
                Err(ExecutionError(BotError::DiceRollingError(f))) => pool_outcome(
                    self.0,
                    vars@,
                    old(roller).fair(),
                    Err(f),
                ),
                Err(_) => false,
            },
            r is Err ==> final(roller).history() == old(roller).history(),
            final(roller).fair() == old(roller).fair(),
            final(roller).series() == old(roller).series(),
            old(roller).consistent() ==> final(roller).consistent(),
    {
        match roll_pool(&self.0, vars, roller) {
            Ok(rolled) => {
                let mut html = String::new();
                push_str(&mut html, "<strong>Pool:</strong> ");
                let pool_text = rolled.describe();
                push_str(&mut html, pool_text.as_str());
                push_str(&mut html, "</p><p><strong>Result</strong>: ");
                let outcome = rolled.roll.describe();
                push_str(&mut html, outcome.as_str());
                Execution::success(html)
            },
            Err(e) => Err(ExecutionError(BotError::DiceRollingError(e))),
        }
    }
}

}
