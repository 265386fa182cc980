//! Errors of the library's operations, and the messages shown for them.
use crate::commands::parser::CommandParsingError;
use crate::commands::CommandError;
use crate::parser::{DiceParsingError, StreamError};
use crate::text::push_str;
use crate::variables::VariableParsingError;
use vstd::prelude::*;

verus! {

/// Errors that can occur while rolling dice.
#[derive(Debug, PartialEq, Eq, Clone)]
pub enum DiceRollingError {
    VariableNotFound(String),
    InvalidAmount,
    ExpressionTooLarge,
}

/// The mathematical value of a [`DiceRollingError`].
pub enum DiceRollingErrorModel {
    VariableNotFound(Seq<char>),
    InvalidAmount,
    ExpressionTooLarge,
}

impl View for DiceRollingError {
    type V = DiceRollingErrorModel;

    open spec fn view(&self) -> DiceRollingErrorModel {
        match self {
            DiceRollingError::VariableNotFound(name) => DiceRollingErrorModel::VariableNotFound(name@),
            DiceRollingError::InvalidAmount => DiceRollingErrorModel::InvalidAmount,
            DiceRollingError::ExpressionTooLarge => DiceRollingErrorModel::ExpressionTooLarge,
        }
    }
}

/// The errors of the bot's commands.
#[derive(Debug, PartialEq, Eq, Clone)]
pub enum BotError {
    DiceParsingError(DiceParsingError),
    CommandParsingError(CommandParsingError),
    DiceRollingError(DiceRollingError),
    VariableParsingError(VariableParsingError),
    CommandError(CommandError),
    /// A basic dice expression could not be read.
    NomParserError,
    /// A basic dice expression was read, but text is left after it.
    NomParserIncomplete,
    /// Too many commands, or the message was too large.
    MessageTooLarge,
    /// The message should not be processed because it failed validation.
    ShouldNotProcessError,
    /// A number did not fit the integer type it was converted to.
    TryFromIntError,
    /// The data store failed; the message describes how.
    DataError(String),
    AccountDoesNotExist,
    AccountAlreadyExists,
    RoomDoesNotExist,
    /// A password could not be hashed; the message describes how.
    PasswordCreationError(String),
}

/// The message of a parser failure.
pub open spec fn stream_error_text(e: StreamError) -> Seq<char> {
    match e {
        StreamError::UnexpectedParse => "unexpected parse"@,
        StreamError::Eoi => "unexpected end of input"@,
        StreamError::CharacterBoundary => "unexpected slice on character boundary"@,
    }
}

/// The message of a dice parsing error.
pub open spec fn dice_parsing_error_text(e: DiceParsingError) -> Seq<char> {
    match e {
        DiceParsingError::InvalidAmount => "invalid amount"@,
        DiceParsingError::InvalidModifiers => "modifiers not specified properly"@,
        DiceParsingError::UnconsumedInput => "extraneous input detected"@,
        DiceParsingError::InternalParseError(s) => stream_error_text(s),
        DiceParsingError::ConversionError => "number parsing error (too large?)"@,
        DiceParsingError::WrongElementType => "unexpected element in expression"@,
    }
}

/// The message of a dice rolling error.
pub open spec fn dice_rolling_error_text(e: DiceRollingError) -> Seq<char> {
    match e {
        DiceRollingError::VariableNotFound(name) => "variable not found: "@ + name@,
        DiceRollingError::InvalidAmount => "invalid amount"@,
        DiceRollingError::ExpressionTooLarge => "dice pool expression too large"@,
    }
}

/// The message of a command parsing error.
pub open spec fn command_parsing_error_text(e: CommandParsingError) -> Seq<char> {
    match e {
        CommandParsingError::UnrecognizedCommand(cmd) => "unrecognized command: "@ + cmd@,
        CommandParsingError::InternalParseError(s) => "parser error: "@ + stream_error_text(s),
    }
}

/// The message of a command error.
pub open spec fn command_error_text(e: CommandError) -> Seq<char> {
    match e {
        CommandError::InvalidCommand(cmd) => "invalid command: "@ + cmd@,
        CommandError::InsecureExecution => "command can only be executed from encrypted direct message"@,
        CommandError::IgnoredCommand => "ignored command"@,
    }
}

/// The message of a variable parsing error.
pub open spec fn variable_parsing_error_text(e: VariableParsingError) -> Seq<char> {
    match e {
        VariableParsingError::InvalidValue => "invalid variable value, must be a number"@,
        VariableParsingError::UnconsumedInput => "unconsumed input"@,
        VariableParsingError::InternalParseError(s) => "parser error: "@ + stream_error_text(s),
    }
}

/// The message of an error of the bot.
pub open spec fn bot_error_text(e: BotError) -> Seq<char> {
    match e {
        BotError::DiceParsingError(d) => "dice parsing error: "@ + dice_parsing_error_text(d),
        BotError::CommandParsingError(c) => "command parsing error: "@ + command_parsing_error_text(c),
        BotError::DiceRollingError(d) => "dice rolling error: "@ + dice_rolling_error_text(d),
        BotError::VariableParsingError(v) => "variable parsing error: "@ + variable_parsing_error_text(v),
        BotError::CommandError(c) => "command error: "@ + command_error_text(c),
        BotError::NomParserError => "legacy parsing error"@,
        BotError::NomParserIncomplete => "legacy parsing error: not enough data"@,
        BotError::MessageTooLarge => "too many commands or message was too large"@,
        BotError::ShouldNotProcessError => "the message should not be processed because it failed validation"@,
        BotError::TryFromIntError => "could not convert to proper integer type"@,
        BotError::DataError(m) => "database error: "@ + m@,
        BotError::AccountDoesNotExist => "account does not exist, or password incorrect"@,
        BotError::AccountAlreadyExists => "user account already exists"@,
        BotError::RoomDoesNotExist => "room name or id does not exist"@,
        BotError::PasswordCreationError(m) => "error creating password: "@ + m@,
    }
}

fn push_stream_error(out: &mut String, e: &StreamError)
    ensures
        final(out)@ == old(out)@ + stream_error_text(*e),
{
    match e {
        StreamError::UnexpectedParse => push_str(out, "unexpected parse"),
        StreamError::Eoi => push_str(out, "unexpected end of input"),
        StreamError::CharacterBoundary => push_str(out, "unexpected slice on character boundary"),
    }
}

fn push_dice_parsing_error(out: &mut String, e: &DiceParsingError)
    ensures
        final(out)@ == old(out)@ + dice_parsing_error_text(*e),
{
    match e {
        DiceParsingError::InvalidAmount => push_str(out, "invalid amount"),
        DiceParsingError::InvalidModifiers => push_str(out, "modifiers not specified properly"),
        DiceParsingError::UnconsumedInput => push_str(out, "extraneous input detected"),
        DiceParsingError::InternalParseError(s) => push_stream_error(out, s),
        DiceParsingError::ConversionError => push_str(out, "number parsing error (too large?)"),
        DiceParsingError::WrongElementType => push_str(out, "unexpected element in expression"),
    }
}

fn push_dice_rolling_error(out: &mut String, e: &DiceRollingError)
    ensures
        final(out)@ == old(out)@ + dice_rolling_error_text(*e),
{
    match e {
        DiceRollingError::VariableNotFound(name) => {
            push_str(out, "variable not found: ");
            push_str(out, name.as_str());
            assert(final(out)@ =~= old(out)@ + dice_rolling_error_text(*e));
        },
        DiceRollingError::InvalidAmount => push_str(out, "invalid amount"),
        DiceRollingError::ExpressionTooLarge => push_str(out, "dice pool expression too large"),
    }
}

fn push_command_parsing_error(out: &mut String, e: &CommandParsingError)
    ensures
        final(out)@ == old(out)@ + command_parsing_error_text(*e),
{
    match e {
        CommandParsingError::UnrecognizedCommand(cmd) => {
            push_str(out, "unrecognized command: ");
            push_str(out, cmd.as_str());
            assert(final(out)@ =~= old(out)@ + command_parsing_error_text(*e));
        },
        CommandParsingError::InternalParseError(s) => {
            push_str(out, "parser error: ");
            push_stream_error(out, s);
            assert(final(out)@ =~= old(out)@ + command_parsing_error_text(*e));
        },
    }
}

fn push_command_error(out: &mut String, e: &CommandError)
    ensures
        final(out)@ == old(out)@ + command_error_text(*e),
{
    match e {
        CommandError::InvalidCommand(cmd) => {
            push_str(out, "invalid command: ");
            push_str(out, cmd.as_str());
            assert(final(out)@ =~= old(out)@ + command_error_text(*e));
        },
        CommandError::InsecureExecution => push_str(
            out,
            "command can only be executed from encrypted direct message",
        ),
        CommandError::IgnoredCommand => push_str(out, "ignored command"),
    }
}

fn push_variable_parsing_error(out: &mut String, e: &VariableParsingError)
    ensures
        final(out)@ == old(out)@ + variable_parsing_error_text(*e),
{
    match e {
        VariableParsingError::InvalidValue => push_str(out, "invalid variable value, must be a number"),
        VariableParsingError::UnconsumedInput => push_str(out, "unconsumed input"),
        VariableParsingError::InternalParseError(s) => {
            push_str(out, "parser error: ");
            push_stream_error(out, s);
            assert(final(out)@ =~= old(out)@ + variable_parsing_error_text(*e));
        },
    }
}

impl BotError {
    /// The message shown for the error.
    pub fn message(&self) -> (r: String)
        ensures
            r@ == bot_error_text(*self),
    {
        let mut out = String::new();
        match self {
            BotError::DiceParsingError(d) => {
                push_str(&mut out, "dice parsing error: ");
                push_dice_parsing_error(&mut out, d);
            },
            BotError::CommandParsingError(c) => {
                push_str(&mut out, "command parsing error: ");
                push_command_parsing_error(&mut out, c);
            },
            BotError::DiceRollingError(d) => {
                push_str(&mut out, "dice rolling error: ");
                push_dice_rolling_error(&mut out, d);
            },
            BotError::VariableParsingError(v) => {
                push_str(&mut out, "variable parsing error: ");
                push_variable_parsing_error(&mut out, v);
            },
            BotError::CommandError(c) => {
                push_str(&mut out, "command error: ");
                push_command_error(&mut out, c);
            },
            BotError::NomParserError => push_str(&mut out, "legacy parsing error"),
            BotError::NomParserIncomplete => push_str(&mut out, "legacy parsing error: not enough data"),
            BotError::MessageTooLarge => push_str(&mut out, "too many commands or message was too large"),
            BotError::ShouldNotProcessError => push_str(
                &mut out,
                "the message should not be processed because it failed validation",
            ),
            BotError::TryFromIntError => push_str(&mut out, "could not convert to proper integer type"),
            BotError::DataError(m) => {
                push_str(&mut out, "database error: ");
                push_str(&mut out, m.as_str());
            },
            BotError::AccountDoesNotExist => push_str(
                &mut out,
                "account does not exist, or password incorrect",
            ),
            BotError::AccountAlreadyExists => push_str(&mut out, "user account already exists"),
            BotError::RoomDoesNotExist => push_str(&mut out, "room name or id does not exist"),
            BotError::PasswordCreationError(m) => {
                push_str(&mut out, "error creating password: ");
                push_str(&mut out, m.as_str());
            },
        }
        assert(out@ =~= bot_error_text(*self));
        out
    }
}

}
