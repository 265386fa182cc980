//! Reading a bot command from a message: `!<command> <input>`, where the
//! command is a word of letters, matched without regard to case.
use crate::basic::parser::{spec_parse_expression, ExpressionError};
use crate::cofd::dice::chance_die_modifiers;
use crate::cofd::parser::spec_parse_dice_pool;
use crate::commands::basic_rolling::RollCommand;
use crate::commands::cofd::PoolRollCommand;
use crate::commands::cthulhu::{CthAdvanceRoll, CthRoll};
use crate::commands::management::{
    CheckCommand, LinkCommand, RegisterCommand, UnlinkCommand, UnregisterCommand,
};
use crate::commands::misc::HelpCommand;
use crate::commands::rooms::{ListRoomsCommand, SetRoomCommand};
use crate::commands::variables::{
    DeleteVariableCommand, GetAllVariablesCommand, GetVariableCommand, SetVariableCommand,
};
use crate::commands::Command;
use crate::cthulhu::parser::spec_parse_regular_roll;
use crate::error::BotError;
use crate::help::{help_topic_of, HelpTopic};
use crate::parser::{amounts_view, spec_parse_amounts, AmountModel, ElementModel, Operator, StreamError};
use crate::text::{
    alpha_end_exec, alpha_pred, lemma_run_end, lemma_trim_ends, run_end, string_of, text_eq, trim,
    trimmed_chars, ws_end_exec, ws_pred,
};
use crate::variables::spec_parse_set_variable;
use vstd::prelude::*;

verus! {

/// Errors of reading a command from a message.
#[derive(Debug, Clone, PartialEq, Eq)]
pub enum CommandParsingError {
    UnrecognizedCommand(String),
    InternalParseError(StreamError),
}

/// The result of `str::to_lowercase`: the text with every character
/// replaced by its lowercase mapping.
pub uninterp spec fn lowercase(s: Seq<char>) -> Seq<char>;

/// The ASCII lowercase of a character: `A` to `Z` become `a` to `z`, every
/// other character stays.
pub open spec fn ascii_lower(c: char) -> char {
    if 'A' <= c && c <= 'Z' {
        ((c as u32) + 32) as char
    } else {
        c
    }
}

/// Whether every character of the text is ASCII.
pub open spec fn all_ascii(s: Seq<char>) -> bool {
    forall|i: int| 0 <= i < s.len() ==> (#[trigger] s[i] as u32) < 0x80
}

/// Calls `str::to_lowercase`. The contract claims that the result is the
/// text's lowercase mapping, a function of the text alone, and, for text
/// that is all ASCII (where the Unicode lowercase mapping changes only the
/// letters `A` to `Z`), that it is the ASCII lowercase of each character.
#[verifier::external_body]
fn to_lowercase(s: &str) -> (r: String)
    ensures
        r@ == lowercase(s@),
        all_ascii(s@) ==> r@ == s@.map_values(|c: char| ascii_lower(c)),
{
    s.to_lowercase()
}

/// The command word and the rest of the message: after trimming, a `!`,
/// then a run of letters, then optionally whitespace and the input. Text
/// right after the letters that is not whitespace is ignored.
pub open spec fn split_command_spec(input: Seq<char>) -> Result<(Seq<char>, Seq<char>), StreamError> {
    let t = trim(input);
    if t.len() == 0 {
        Err(StreamError::Eoi)
    } else if t[0] != '!' {
        Err(StreamError::UnexpectedParse)
    } else {
        let e = run_end(t, 1, alpha_pred());
        if e == 1 {
            Err(StreamError::UnexpectedParse)
        } else {
            let w = run_end(t, e, ws_pred());
            if w == e {
                Ok((t.subrange(1, e), Seq::empty()))
            } else {
                Ok((t.subrange(1, e), t.subrange(w, t.len() as int)))
            }
        }
    }
}

/// Split an input string into its constituent command and "everything
/// else" parts. Extracts the command separately from its input (i.e.
/// rest of the line) and returns a tuple of (command, command_input).
/// Whitespace at the start and end of the command input is removed.
pub fn split_command(input: &str) -> (r: Result<(String, String), CommandParsingError>)
    ensures
        match split_command_spec(input@) {
            Ok((cmd, rest)) => r matches Ok((c, i)) && c@ == cmd && i@ == rest,
            Err(e) => r matches Err(CommandParsingError::InternalParseError(f)) && f == e,
        },
{
    let t = trimmed_chars(input);
    if t.len() == 0 {
        return Err(CommandParsingError::InternalParseError(StreamError::Eoi));
    }
    if t[0] != '!' {
        return Err(CommandParsingError::InternalParseError(StreamError::UnexpectedParse));
    }
    let e = alpha_end_exec(&t, 1);
    proof {
        lemma_run_end(t@, 1, alpha_pred());
    }
    if e == 1 {
        return Err(CommandParsingError::InternalParseError(StreamError::UnexpectedParse));
    }
    let w = ws_end_exec(&t, e);
    proof {
        lemma_run_end(t@, e as int, ws_pred());
    }
    let command = string_of(&t, 1, e);
    if w == e {
        Ok((command, String::new()))
    } else {
        proof {
            lemma_trim_ends(input@);
            if w == t@.len() {
                assert(ws_pred()(t@[w - 1]));
            }
        }
        Ok((command, string_of(&t, w, t.len())))
    }
}

/// What the command named `lower` (the command word in lowercase, `name`
/// as written) with the input `input` reads as.
pub open spec fn command_result(lower: Seq<char>, name: Seq<char>, input: Seq<char>, r: Result<Command, BotError>) -> bool {
    if lower == "variables"@ {
        r matches Ok(Command::GetAllVariables(_))
    } else if lower == "get"@ {
        r matches Ok(Command::GetVariable(c)) && c.0@ == input
    } else if lower == "set"@ {
        match spec_parse_set_variable(input) {
            Ok((n, v)) => r matches Ok(Command::SetVariable(c)) && c.0@ == n && c.1 == v,
            Err(e) => r matches Err(BotError::VariableParsingError(f)) && f == e,
        }
    } else if lower == "del"@ {
        r matches Ok(Command::DeleteVariable(c)) && c.0@ == input
    } else if lower == "r"@ || lower == "roll"@ {
        match spec_parse_expression(input) {
            Ok(elements) => r matches Ok(Command::Roll(c)) && c.0.0@ == elements,
            Err(ExpressionError::Invalid) => r matches Err(BotError::NomParserError),
            Err(ExpressionError::Incomplete) => r matches Err(BotError::NomParserIncomplete),
        }
    } else if lower == "rp"@ || lower == "pool"@ {
        match spec_parse_dice_pool(input) {
            Ok((amounts, modifiers)) => r matches Ok(Command::PoolRoll(c)) && amounts_view(
                c.0.amounts@,
            ) == amounts && c.0.modifiers == modifiers && c.0.sides == 10,
            Err(e) => r matches Err(BotError::DiceParsingError(f)) && f == e,
        }
    } else if lower == "chance"@ {
        r matches Ok(Command::PoolRoll(c)) && c.0.sides == 10 && c.0.amounts@.len() == 1
            && c.0.amounts@[0]@ == (AmountModel {
            operator: Operator::Plus,
            element: ElementModel::Number(1),
        }) && c.0.modifiers == chance_die_modifiers()
    } else if lower == "cthroll"@ {
        match spec_parse_regular_roll(input) {
            Ok((amounts, modifier)) => r matches Ok(Command::CthRoll(c)) && amounts_view(
                c.0.amounts@,
            ) == amounts && c.0.modifier == modifier,
            Err(e) => r matches Err(BotError::DiceParsingError(f)) && f == e,
        }
    } else if lower == "cthadv"@ || lower == "ctharoll"@ {
        match spec_parse_amounts(trim(input)) {
            Ok(amounts) => r matches Ok(Command::CthAdvanceRoll(c)) && amounts_view(
                c.0.existing_skill@,
            ) == amounts,
            Err(e) => r matches Err(BotError::DiceParsingError(f)) && f == e,
        }
    } else if lower == "help"@ {
        r matches Ok(Command::Help(c)) && c.0 == help_topic_of(input)
    } else if lower == "register"@ {
        r matches Ok(Command::Register(_))
    } else if lower == "link"@ {
        r matches Ok(Command::Link(c)) && c.0@ == input
    } else if lower == "unlink"@ {
        r matches Ok(Command::Unlink(c)) && c.0@ == input
    } else if lower == "check"@ {
        r matches Ok(Command::Check(_))
    } else if lower == "unregister"@ {
        r matches Ok(Command::Unregister(_))
    } else if lower == "rooms"@ {
        r matches Ok(Command::ListRooms(_))
    } else if lower == "room"@ {
        r matches Ok(Command::SetRoom(c)) && c.0@ == input
    } else {
        r matches Err(BotError::CommandParsingError(CommandParsingError::UnrecognizedCommand(n)))
            && n@ == name
    }
}

/// The help command asks for the topic its input names: help read from two
/// inputs is on the same topic exactly when the inputs name the same topic,
/// so `!help dice` gives help on rolling dice while `!help` gives general
/// help.
pub proof fn lemma_help_follows_input(
    name1: Seq<char>,
    input1: Seq<char>,
    r1: Result<Command, BotError>,
    name2: Seq<char>,
    input2: Seq<char>,
    r2: Result<Command, BotError>,
)
    requires
        command_result("help"@, name1, input1, r1),
        command_result("help"@, name2, input2, r2),
    ensures
        r1 matches Ok(Command::Help(c1)) && r2 matches Ok(Command::Help(c2)) && (c1.0 == c2.0
            <==> help_topic_of(input1) == help_topic_of(input2)),
        input1 == "dice"@ ==> (r1 matches Ok(Command::Help(c)) && c.0 == Some(HelpTopic::RollingDice)),
        input1 == ""@ ==> (r1 matches Ok(Command::Help(c)) && c.0 == Some(HelpTopic::General)),
{
    reveal_strlit("help");
    reveal_strlit("variables");
    reveal_strlit("get");
    reveal_strlit("set");
    reveal_strlit("del");
    reveal_strlit("r");
    reveal_strlit("roll");
    reveal_strlit("rp");
    reveal_strlit("pool");
    reveal_strlit("chance");
    reveal_strlit("cthroll");
    reveal_strlit("cthadv");
    reveal_strlit("ctharoll");
    assert("help"@.len() != "variables"@.len());
    assert("help"@ != "variables"@);
    assert("help"@.len() != "get"@.len());
    assert("help"@ != "get"@);
    assert("help"@.len() != "set"@.len());
    assert("help"@ != "set"@);
    assert("help"@.len() != "del"@.len());
    assert("help"@ != "del"@);
    assert("help"@.len() != "r"@.len());
    assert("help"@ != "r"@);
    assert("help"@[0] != "roll"@[0]);
    assert("help"@ != "roll"@);
    assert("help"@.len() != "rp"@.len());
    assert("help"@ != "rp"@);
    assert("help"@[0] != "pool"@[0]);
    assert("help"@ != "pool"@);
    assert("help"@.len() != "chance"@.len());
    assert("help"@ != "chance"@);
    assert("help"@.len() != "cthroll"@.len());
    assert("help"@ != "cthroll"@);
    assert("help"@.len() != "cthadv"@.len());
    assert("help"@ != "cthadv"@);
    assert("help"@.len() != "ctharoll"@.len());
    assert("help"@ != "ctharoll"@);
    reveal_strlit("dice");
    reveal_strlit("cofd");
    reveal_strlit("dicepool");
    reveal_strlit("");
}

/// The command named `lower` (the command word in lowercase; `name` is the
/// word as written) with the input `input`. An unknown name is refused with
/// the word as written.
pub fn command_from_name(lower: &str, name: String, input: &str) -> (r: Result<Command, BotError>)
    ensures
        command_result(lower@, name@, input@, r),
{
    if text_eq(lower, "variables") {
        match GetAllVariablesCommand::from_input(input) {
            Ok(c) => Ok(Command::GetAllVariables(c)),
            Err(e) => Err(e),
        }
    } else if text_eq(lower, "get") {
        match GetVariableCommand::from_input(input) {
            Ok(c) => Ok(Command::GetVariable(c)),
            Err(e) => Err(e),
        }
    } else if text_eq(lower, "set") {
        match SetVariableCommand::from_input(input) {
            Ok(c) => Ok(Command::SetVariable(c)),
            Err(e) => Err(e),
        }
    } else if text_eq(lower, "del") {
        match DeleteVariableCommand::from_input(input) {
            Ok(c) => Ok(Command::DeleteVariable(c)),
            Err(e) => Err(e),
        }
    } else if text_eq(lower, "r") || text_eq(lower, "roll") {
        match RollCommand::from_input(input) {
            Ok(c) => Ok(Command::Roll(c)),
            Err(e) => Err(e),
        }
    } else if text_eq(lower, "rp") || text_eq(lower, "pool") {
        match PoolRollCommand::from_input(input) {
            Ok(c) => Ok(Command::PoolRoll(c)),
            Err(e) => Err(e),
        }
    } else if text_eq(lower, "chance") {
        match PoolRollCommand::chance_die() {
            Ok(c) => Ok(Command::PoolRoll(c)),
            Err(e) => Err(e),
        }
    } else if text_eq(lower, "cthroll") {
        match CthRoll::from_input(input) {
            Ok(c) => Ok(Command::CthRoll(c)),
            Err(e) => Err(e),
        }
    } else if text_eq(lower, "cthadv") || text_eq(lower, "ctharoll") {
        match CthAdvanceRoll::from_input(input) {
            Ok(c) => Ok(Command::CthAdvanceRoll(c)),
            Err(e) => Err(e),
        }
    } else if text_eq(lower, "help") {
        match HelpCommand::from_input(input) {
            Ok(c) => Ok(Command::Help(c)),
            Err(e) => Err(e),
        }
    } else if text_eq(lower, "register") {
        match RegisterCommand::from_input(input) {
            Ok(c) => Ok(Command::Register(c)),
            Err(e) => Err(e),
        }
    } else if text_eq(lower, "link") {
        match LinkCommand::from_input(input) {
            Ok(c) => Ok(Command::Link(c)),
            Err(e) => Err(e),
        }
    } else if text_eq(lower, "unlink") {
        match UnlinkCommand::from_input(input) {
            Ok(c) => Ok(Command::Unlink(c)),
            Err(e) => Err(e),
        }
    } else if text_eq(lower, "check") {
        match CheckCommand::from_input(input) {
            Ok(c) => Ok(Command::Check(c)),
            Err(e) => Err(e),
        }
    } else if text_eq(lower, "unregister") {
        match UnregisterCommand::from_input(input) {
            Ok(c) => Ok(Command::Unregister(c)),
            Err(e) => Err(e),
        }
    } else if text_eq(lower, "rooms") {
        match ListRoomsCommand::from_input(input) {
            Ok(c) => Ok(Command::ListRooms(c)),
            Err(e) => Err(e),
        }
    } else if text_eq(lower, "room") {
        match SetRoomCommand::from_input(input) {
            Ok(c) => Ok(Command::SetRoom(c)),
            Err(e) => Err(e),
        }
    } else {
        Err(BotError::CommandParsingError(CommandParsingError::UnrecognizedCommand(name)))
    }
}

/// Potentially parse a command expression. If we recognize the
/// command, an error should be raised if the command is misparsed. If
/// we don't recognize the command, return an error.
pub fn parse_command(input: &str) -> (r: Result<Command, BotError>)
    ensures
        match split_command_spec(input@) {
            Ok((cmd, rest)) => {
                &&& command_result(lowercase(cmd), cmd, rest, r)
                &&& all_ascii(cmd) ==> command_result(
                    cmd.map_values(|c: char| ascii_lower(c)),
                    cmd,
                    rest,
                    r,
                )
            },
            Err(e) => r matches Err(BotError::CommandParsingError(CommandParsingError::InternalParseError(f)))
                && f == e,
        },
{
    match split_command(input) {
        Ok((cmd, cmd_input)) => {
            let lower = to_lowercase(cmd.as_str());
            command_from_name(lower.as_str(), cmd, cmd_input.as_str())
        },
        Err(e) => Err(BotError::CommandParsingError(e)),
    }
}


/// Whitespace around a command is ignored: a message and its trimmed text
/// split into the same command and input.
pub proof fn lemma_split_command_ignores_surrounding_whitespace(s: Seq<char>)
    ensures
        split_command_spec(trim(s)) == split_command_spec(s),
{
    crate::text::lemma_trim_idempotent(s);
}

}
