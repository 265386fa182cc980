//! The commands that make Call of Cthulhu percentile rolls.
use crate::commands::{Execution, ExecutionError};
use crate::cthulhu::dice::{
    advancement_text, executed_advancement_text, executed_roll_text, rolled_dice_text, AdvancementRoll,
    DiceRoll, ExecutedAdvancementRoll, ExecutedDiceRoll,
};
use crate::cthulhu::parser::{parse_advancement_roll, parse_regular_roll, spec_parse_regular_roll};
use crate::error::BotError;
use crate::parser::{amounts_view, spec_parse_amounts};
use crate::text::{push_str, trim};
use vstd::prelude::*;

verus! {

/// Make a regular percentile roll.
pub struct CthRoll(pub DiceRoll);

impl CthRoll {
    /// The command for the text after `!cthroll`.
    pub fn from_input(input: &str) -> (r: Result<CthRoll, BotError>)
        ensures
            match spec_parse_regular_roll(input@) {
                Ok((amounts, modifier)) => r matches Ok(cmd) && amounts_view(cmd.0.amounts@) == amounts
                    && cmd.0.modifier == modifier,
                Err(e) => r matches Err(BotError::DiceParsingError(f)) && f == e,
            },
    {
        match parse_regular_roll(input) {
            Ok(roll) => Ok(CthRoll(roll)),
            Err(e) => Err(BotError::DiceParsingError(e)),
        }
    }

    /// The response for a roll that was made.
    pub fn response(executed: &ExecutedDiceRoll) -> (r: Result<Execution, ExecutionError>)
        ensures
            r matches Ok(e) && e.html_view() == "<strong>Roll:</strong> "@ + executed_roll_text(*executed)
                + "</p><p><strong>Result</strong>: "@ + rolled_dice_text(executed.roll),
    {
        let mut html = String::new();
        push_str(&mut html, "<strong>Roll:</strong> ");
        let head = executed.describe();
        push_str(&mut html, head.as_str());
        push_str(&mut html, "</p><p><strong>Result</strong>: ");
        let outcome = executed.roll.describe();
        push_str(&mut html, outcome.as_str());
        Execution::success(html)
    }
}

/// Make a skill advancement roll.
pub struct CthAdvanceRoll(pub AdvancementRoll);

impl CthAdvanceRoll {
    /// The command for the text after `!cthadv`.
    pub fn from_input(input: &str) -> (r: Result<CthAdvanceRoll, BotError>)
        ensures
            match spec_parse_amounts(trim(input@)) {
                Ok(amounts) => r matches Ok(cmd) && amounts_view(cmd.0.existing_skill@) == amounts,
                Err(e) => r matches Err(BotError::DiceParsingError(f)) && f == e,
            },
    {
        match parse_advancement_roll(input) {
            Ok(roll) => Ok(CthAdvanceRoll(roll)),
            Err(e) => Err(BotError::DiceParsingError(e)),
        }
    }

    /// The response for an advancement roll that was made.
    pub fn response(executed: &ExecutedAdvancementRoll) -> (r: Result<Execution, ExecutionError>)
        requires
            executed.roll.existing_skill + executed.roll.advancement <= u32::MAX,
        ensures
            r matches Ok(e) && e.html_view() == "<strong>Roll:</strong> "@
                + executed_advancement_text(*executed) + "</p><p><strong>Result</strong>: "@
                + advancement_text(executed.roll),
    {
        let mut html = String::new();
        push_str(&mut html, "<strong>Roll:</strong> ");
        let head = executed.describe();
        push_str(&mut html, head.as_str());
        push_str(&mut html, "</p><p><strong>Result</strong>: ");
        let outcome = executed.roll.describe();
        push_str(&mut html, outcome.as_str());
        Execution::success(html)
    }
}

}
