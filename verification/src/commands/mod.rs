//! The bot's commands: what each one holds once parsed, whether it may run
//! in the room it came from, and the messages sent back for results.
use crate::commands::basic_rolling::RollCommand;
use crate::commands::cofd::PoolRollCommand;
use crate::commands::cthulhu::{CthAdvanceRoll, CthRoll};
use crate::commands::management::{
    CheckCommand, LinkCommand, RegisterCommand, UnlinkCommand, UnregisterCommand,
};
use crate::commands::misc::HelpCommand;
use crate::commands::rooms::{ListRoomsCommand, SetRoomCommand};
use crate::commands::variables::{
    DeleteVariableCommand, GetAllVariablesCommand, GetVariableCommand, SetVariableCommand,
};
use crate::error::{bot_error_text, BotError};
use crate::text::{push_str, utf8_len, utf8_length};
use vstd::prelude::*;

pub mod basic_rolling;
pub mod cofd;
pub mod cthulhu;
pub mod management;
pub mod misc;
pub mod parser;
pub mod rooms;
pub mod variables;

verus! {

/// A custom error type specifically related to parsing command text.
/// Does not wrap an execution failure.
#[derive(Debug, PartialEq, Eq, Clone)]
pub enum CommandError {
    InvalidCommand(String),
    InsecureExecution,
    IgnoredCommand,
}

/// A successfully executed command returns a message to be sent back
/// to the user in HTML (plain text used as a fallback by message
/// formatter).
#[derive(Debug)]
pub struct Execution {
    html: String,
}

/// Wraps a command execution failure. Provides HTML formatting for
/// any error message from the BotError type, similar to how Execution
/// provides formatting for successfully executed commands.
#[derive(Debug)]
pub struct ExecutionError(pub BotError);

impl Execution {
    /// The response of a command that succeeded.
    pub fn success(html: String) -> (r: Result<Execution, ExecutionError>)
        ensures
            r matches Ok(e) && e.html_view() == html@,
    {
        Ok(Execution { html })
    }

    /// The HTML of the response.
    pub closed spec fn html_view(&self) -> Seq<char> {
        self.html@
    }

    /// Response message in HTML.
    pub fn html(&self) -> (r: String)
        ensures
            r@ == self.html_view(),
    {
        self.html.clone()
    }
}

impl ExecutionError {
    /// The failure of a command whose data could not be read or written.
    pub fn from_data_error(error: &crate::db::keys::DataError) -> (r: ExecutionError)
        ensures
            r.0 matches BotError::DataError(m) && m@ == crate::db::keys::data_error_text(*error),
    {
        ExecutionError(BotError::DataError(error.message()))
    }

    /// Error message in bolded HTML.
    pub fn html(&self) -> (r: String)
        ensures
            r@ == "<strong>"@ + bot_error_text(self.0) + "</strong>"@,
    {
        let mut out = String::new();
        push_str(&mut out, "<strong>");
        let m = self.0.message();
        push_str(&mut out, m.as_str());
        push_str(&mut out, "</strong>");
        out
    }
}

/// `s` with every line break replaced by `<br/>`.
pub open spec fn with_breaks(s: Seq<char>) -> Seq<char>
    decreases s.len(),
{
    if s.len() == 0 {
        Seq::empty()
    } else {
        with_breaks(s.drop_last()) + if s.last() == '\n' {
            "<br/>"@
        } else {
            seq![s.last()]
        }
    }
}

/// Appends `s` to `out`, with every line break replaced by `<br/>`.
pub fn push_with_breaks(out: &mut String, s: &str)
    ensures
        final(out)@ == old(out)@ + with_breaks(s@),
{
    let v = crate::text::chars_of(s);
    let ghost start = out@;
    let mut i: usize = 0;
    while i < v.len()
        invariant
            i <= v@.len(),
            v@ == s@,
            out@ == start + with_breaks(v@.take(i as int)),
        decreases v@.len() - i,
    {
        let ghost before = out@;
        if v[i] == '\n' {
            push_str(out, "<br/>");
        } else {
            crate::text::string_push(out, v[i]);
        }
        proof {
            assert(v@.take(i + 1).drop_last() =~= v@.take(i as int));
            assert(out@ =~= start + with_breaks(v@.take(i + 1)));
        }
        i = i + 1;
    }
    proof {
        assert(v@.take(i as int) =~= v@);
    }
}

/// The message for a command's result, directly mentioning the user:
/// a paragraph with a link to the user, then the response or the error,
/// with line breaks as `<br/>`.
pub open spec fn response_text(body: Seq<char>, username: Seq<char>) -> Seq<char> {
    with_breaks(
        "<p>"@ + "<a href=\"https://matrix.to/#/"@ + username + "\">"@ + username + "</a>"@
            + "</p><p>"@ + body + "</p>"@,
    )
}

/// The body of a command's result: the response of a success, or the
/// bolded error.
pub open spec fn result_body(result: Result<Execution, ExecutionError>) -> Seq<char> {
    match result {
        Ok(resp) => resp.html_view(),
        Err(e) => "<strong>"@ + bot_error_text(e.0) + "</strong>"@,
    }
}

/// Extract response messages out of a type, whether it is success or
/// failure.
pub trait ResponseExtractor {
    /// HTML representation of the message, directly mentioning the
    /// username.
    fn message_html(&self, username: &str) -> String;
}

/// The message for a command's result, directly mentioning the user.
pub fn message_html(result: &Result<Execution, ExecutionError>, username: &str) -> (r: String)
    ensures
        r@ == response_text(result_body(*result), username@),
{
    let mut text = String::new();
    push_str(&mut text, "<p>");
    push_str(&mut text, "<a href=\"https://matrix.to/#/");
    push_str(&mut text, username);
    push_str(&mut text, "\">");
    push_str(&mut text, username);
    push_str(&mut text, "</a>");
    push_str(&mut text, "</p><p>");
    let body = match result {
        Ok(resp) => resp.html(),
        Err(e) => e.html(),
    };
    push_str(&mut text, body.as_str());
    push_str(&mut text, "</p>");
    let mut out = String::new();
    push_with_breaks(&mut out, text.as_str());
    proof {
        assert(out@ =~= response_text(result_body(*result), username@));
    }
    out
}

impl ResponseExtractor for Result<Execution, ExecutionError> {
    fn message_html(&self, username: &str) -> (r: String)
        ensures
            r@ == response_text(result_body(*self), username@),
    {
        message_html(self, username)
    }
}


/// A command read from a message.
pub enum Command {
    GetAllVariables(GetAllVariablesCommand),
    GetVariable(GetVariableCommand),
    SetVariable(SetVariableCommand),
    DeleteVariable(DeleteVariableCommand),
    Roll(RollCommand),
    PoolRoll(PoolRollCommand),
    CthRoll(CthRoll),
    CthAdvanceRoll(CthAdvanceRoll),
    Help(HelpCommand),
    Register(RegisterCommand),
    Link(LinkCommand),
    Unlink(UnlinkCommand),
    Check(CheckCommand),
    Unregister(UnregisterCommand),
    ListRooms(ListRoomsCommand),
    SetRoom(SetRoomCommand),
}

/// Whether a command may only run in a secure room: the account commands
/// and the room commands.
pub open spec fn command_is_secure(cmd: Command) -> bool {
    match cmd {
        Command::Register(_) | Command::Link(_) | Command::Unlink(_) | Command::Check(_)
        | Command::Unregister(_) | Command::ListRooms(_) | Command::SetRoom(_) => true,
        _ => false,
    }
}

impl Command {
    /// The name of the command, as written in logs.
    pub fn name(&self) -> (r: &'static str)
        ensures
            r@ == command_name(*self),
    {
        match self {
            Command::GetAllVariables(_) => "get all variables",
            Command::GetVariable(_) => "retrieve variable value",
            Command::SetVariable(_) => "set variable value",
            Command::DeleteVariable(_) => "delete variable",
            Command::Roll(_) => "roll regular dice",
            Command::PoolRoll(_) => "roll dice pool",
            Command::CthRoll(_) => "roll percentile dice",
            Command::CthAdvanceRoll(_) => "roll skill advancement dice",
            Command::Help(_) => "help information",
            Command::Register(_) => "register user account",
            Command::Link(_) => "link user account to external applications",
            Command::Unlink(_) => "unlink user accountx from external applications",
            Command::Check(_) => "check user account status",
            Command::Unregister(_) => "unregister user account",
            Command::ListRooms(_) => "list rooms",
            Command::SetRoom(_) => "set active room",
        }
    }

    /// Whether the command may only run in a secure room.
    pub fn is_secure(&self) -> (r: bool)
        ensures
            r == command_is_secure(*self),
    {
        match self {
            Command::Register(_) | Command::Link(_) | Command::Unlink(_) | Command::Check(_)
            | Command::Unregister(_) | Command::ListRooms(_) | Command::SetRoom(_) => true,
            _ => false,
        }
    }
}

/// The name of a command, as written in logs.
pub open spec fn command_name(cmd: Command) -> Seq<char> {
    match cmd {
        Command::GetAllVariables(_) => "get all variables"@,
        Command::GetVariable(_) => "retrieve variable value"@,
        Command::SetVariable(_) => "set variable value"@,
        Command::DeleteVariable(_) => "delete variable"@,
        Command::Roll(_) => "roll regular dice"@,
        Command::PoolRoll(_) => "roll dice pool"@,
        Command::CthRoll(_) => "roll percentile dice"@,
        Command::CthAdvanceRoll(_) => "roll skill advancement dice"@,
        Command::Help(_) => "help information"@,
        Command::Register(_) => "register user account"@,
        Command::Link(_) => "link user account to external applications"@,
        Command::Unlink(_) => "unlink user accountx from external applications"@,
        Command::Check(_) => "check user account status"@,
        Command::Unregister(_) => "unregister user account"@,
        Command::ListRooms(_) => "list rooms"@,
        Command::SetRoom(_) => "set active room"@,
    }
}

/// Determine if we are allowed to execute this command. Currently the
/// rules are that secure commands must be executed in secure rooms
/// (encrypted + direct), and anything else can be executed where
/// ever.
pub fn execution_allowed(cmd: &Command, room_is_secure: bool) -> (r: Result<(), CommandError>)
    ensures
        (command_is_secure(*cmd) && !room_is_secure) ==> r matches Err(CommandError::InsecureExecution),
        !(command_is_secure(*cmd) && !room_is_secure) ==> r is Ok,
{
    if cmd.is_secure() {
        if room_is_secure {
            Ok(())
        } else {
            Err(CommandError::InsecureExecution)
        }
    } else {
        Ok(())
    }
}


/// Responses never hold a raw line break: every one becomes `<br/>`.
pub proof fn lemma_with_breaks_has_no_line_break(s: Seq<char>)
    ensures
        !with_breaks(s).contains('\n'),
    decreases s.len(),
{
    if s.len() > 0 {
        lemma_with_breaks_has_no_line_break(s.drop_last());
        let head = with_breaks(s.drop_last());
        let tail = if s.last() == '\n' {
            "<br/>"@
        } else {
            seq![s.last()]
        };
        reveal_strlit("<br/>");
        assert(with_breaks(s) =~= head + tail);
        if with_breaks(s).contains('\n') {
            let k = choose|k: int| 0 <= k < with_breaks(s).len() && with_breaks(s)[k] == '\n';
            if k < head.len() {
                assert(head[k] == '\n');
            } else {
                assert(tail[k - head.len()] == '\n');
            }
        }
    }
}


/// The command of a message that may run in the room it came from: the
/// parsing error, or the refusal of a secure command in an insecure room,
/// comes back as the command's failure.
pub fn command_to_execute(message_body: &str, room_is_secure: bool) -> (r: Result<Command, ExecutionError>)
    ensures
        match parser::split_command_spec(message_body@) {
            Err(e) => r matches Err(ExecutionError(BotError::CommandParsingError(
                parser::CommandParsingError::InternalParseError(f),
            ))) && f == e,
            Ok((cmd, rest)) => exists|parsed: Result<Command, BotError>|
                {
                    &&& parser::command_result(parser::lowercase(cmd), cmd, rest, parsed)
                    &&& match parsed {
                        Err(e) => r matches Err(ExecutionError(f)) && f == e,
                        Ok(c) => if command_is_secure(c) && !room_is_secure {
                            r matches Err(ExecutionError(BotError::CommandError(CommandError::InsecureExecution)))
                        } else {
                            r == Ok::<Command, ExecutionError>(c)
                        },
                    }
                },
        },
{
    let cmd = match parser::parse_command(message_body) {
        Ok(cmd) => cmd,
        Err(e) => {
            return Err(ExecutionError(e));
        },
    };
    match execution_allowed(&cmd, room_is_secure) {
        Ok(()) => Ok(cmd),
        Err(e) => Err(ExecutionError(BotError::CommandError(e))),
    }
}


/// How a command is written in logs: its name when it is secure, so that
/// what was typed (a password, say) is never logged; otherwise the first
/// 30 characters of the message. `[...]` follows when the message is longer
/// than 30 bytes.
pub open spec fn logged_command(cmd: Command, message_body: Seq<char>) -> Seq<char> {
    let shown = if command_is_secure(cmd) {
        command_name(cmd)
    } else if message_body.len() > 30 {
        message_body.take(30)
    } else {
        message_body
    };
    if utf8_len(message_body) > 30 {
        shown + "[...]"@
    } else {
        shown
    }
}

/// The log line for the result of a command: the room, the user, the
/// command as `logged_command` writes it, and `success` or the error.
pub open spec fn log_line(
    room_name: Seq<char>,
    username: Seq<char>,
    cmd: Command,
    message_body: Seq<char>,
    result: Result<Execution, ExecutionError>,
) -> Seq<char> {
    "["@ + room_name + "] "@ + username + " <"@ + logged_command(cmd, message_body) + "> - "@
        + match result {
        Ok(_) => "success"@,
        Err(e) => bot_error_text(e.0),
    }
}

/// The line logged for the result of a command run from `message_body` by
/// `username` in the room named `room_name`.
pub fn log_command(
    cmd: &Command,
    room_name: &str,
    username: &str,
    message_body: &str,
    result: &Result<Execution, ExecutionError>,
) -> (r: String)
    ensures
        r@ == log_line(room_name@, username@, *cmd, message_body@, *result),
{
    let mut out = String::new();
    push_str(&mut out, "[");
    push_str(&mut out, room_name);
    push_str(&mut out, "] ");
    push_str(&mut out, username);
    push_str(&mut out, " <");
    let ghost before = out@;
    if cmd.is_secure() {
        push_str(&mut out, cmd.name());
    } else {
        let v = crate::text::chars_of(message_body);
        let end: usize = if v.len() > 30 { 30 } else { v.len() };
        let shown = crate::text::string_of(&v, 0, end);
        push_str(&mut out, shown.as_str());
        proof {
            if v.len() <= 30 {
                assert(v@.subrange(0, end as int) =~= v@);
            } else {
                assert(v@.subrange(0, end as int) =~= v@.take(30));
            }
        }
    }
    if utf8_length(message_body) > 30 {
        push_str(&mut out, "[...]");
    }
    push_str(&mut out, "> - ");
    match result {
        Ok(_) => push_str(&mut out, "success"),
        Err(e) => {
            let m = e.0.message();
            push_str(&mut out, m.as_str());
        },
    }
    proof {
        assert(out@ =~= log_line(room_name@, username@, *cmd, message_body@, *result));
    }
    out
}

}
