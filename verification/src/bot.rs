//! The decisions the bot makes around commands: which lines of a message
//! are commands, what is sent back for their results, whether a message is
//! recent enough to answer, and what a room membership change records.
use crate::cofd::parser::{find_char, find_char_exec, lemma_find_char};
use crate::commands::variables::join_lines;
use crate::commands::{
    message_html, push_with_breaks, response_text, result_body, with_breaks, Execution, ExecutionError,
};
use crate::error::{bot_error_text, BotError};
use crate::state::DiceBotState;
use crate::text::{
    chars_of, decimal_string, lemma_utf8_len_nonneg, push_decimal_usize, push_str, string_of, texts,
    utf8_len, utf8_length,
};
use vstd::prelude::*;

verus! {

/// The most commands that one message may hold; a message with more is
/// refused.
pub const MAX_COMMANDS_PER_MESSAGE: usize = 50;

/// The lines of `s` from position `i`, as `str::lines` gives them: split at
/// `\n`, with a `\r` before the `\n` removed; no empty line after a final
/// `\n`.
pub open spec fn lines_from(s: Seq<char>, i: int) -> Seq<Seq<char>>
    decreases s.len() - i,
{
    if i < 0 || i >= s.len() {
        Seq::empty()
    } else {
        let j = find_char(s, '\n', i);
        let raw = s.subrange(i, j);
        let line = if j < s.len() && raw.len() > 0 && raw.last() == '\r' {
            raw.drop_last()
        } else {
            raw
        };
        if i <= j < s.len() {
            seq![line] + lines_from(s, j + 1)
        } else {
            seq![line]
        }
    }
}

/// Lines starting with `!`, as a predicate.
pub open spec fn command_pred() -> spec_fn(Seq<char>) -> bool {
    |line: Seq<char>| line.len() > 0 && line[0] == '!'
}

/// The lines of a message that are commands: those starting with `!`.
pub open spec fn command_lines(s: Seq<char>) -> Seq<Seq<char>> {
    lines_from(s, 0).filter(command_pred())
}

/// The commands of a message, in order; `None` when there are more than
/// `MAX_COMMANDS_PER_MESSAGE`, which is too many to run.
pub fn message_commands(msg_body: &str) -> (r: Option<Vec<String>>)
    ensures
        command_lines(msg_body@).len() <= MAX_COMMANDS_PER_MESSAGE ==> (r matches Some(v)
            && texts(v@) == command_lines(msg_body@)),
        command_lines(msg_body@).len() > MAX_COMMANDS_PER_MESSAGE ==> r is None,
{
    let v = chars_of(msg_body);
    let ghost s = v@;
    let ghost pred = command_pred();
    let mut commands: Vec<String> = Vec::new();
    let mut i: usize = 0;
    assert(lines_from(s, 0) =~= Seq::<Seq<char>>::empty() + lines_from(s, 0));
    let ghost mut seen: Seq<Seq<char>> = Seq::empty();
    while i < v.len()
        invariant
            i <= v@.len(),
            s == v@,
            s == msg_body@,
            pred == command_pred(),
            lines_from(s, 0) == seen + lines_from(s, i as int),
            texts(commands@) == seen.filter(pred),
        decreases v@.len() - i,
    {
        let j = find_char_exec(&v, '\n', i);
        proof {
            lemma_find_char(s, '\n', i as int);
        }
        let end = if j < v.len() && j > i && v[j - 1] == '\r' {
            j - 1
        } else {
            j
        };
        let ghost line = s.subrange(i as int, end as int);
        let ghost new_seen = seen.push(line);
        proof {
            let raw = s.subrange(i as int, j as int);
            if j < s.len() && raw.len() > 0 && raw.last() == '\r' {
                assert(raw.drop_last() =~= line);
            } else {
                assert(raw =~= line);
            }
            assert(seen.push(line).drop_last() =~= seen);
            reveal(Seq::filter);
        }
        let is_command = end > i && v[i] == '!';
        proof {
            assert(line.len() == end - i);
            if end > i {
                assert(line[0] == v@[i as int]);
            }
            assert(is_command == command_pred()(line));
            assert(new_seen.filter(pred) == (if pred(line) {
                seen.filter(pred).push(line)
            } else {
                seen.filter(pred)
            }));
        }
        if is_command {
            let ghost before = commands@;
            commands.push(string_of(&v, i, end));
            proof {
                assert(texts(commands@) =~= texts(before).push(line));
            }
        }
        assert(texts(commands@) == new_seen.filter(pred));
        proof {
            if j < s.len() {
                assert(lines_from(s, i as int) == seq![line] + lines_from(s, j + 1));
                assert(seen + lines_from(s, i as int) =~= seen.push(line) + lines_from(s, j + 1));
            } else {
                assert(lines_from(s, i as int) == seq![line]);
                assert(lines_from(s, j + 1) =~= Seq::<Seq<char>>::empty());
                assert(seen + lines_from(s, i as int) =~= seen.push(line) + lines_from(s, j + 1));
            }
            seen = new_seen;
        }
        if j < v.len() {
            i = j + 1;
        } else {
            i = v.len();
        }
    }
    proof {
        assert(lines_from(s, i as int) =~= Seq::<Seq<char>>::empty());
        assert(seen =~= lines_from(s, 0));
    }
    if commands.len() <= MAX_COMMANDS_PER_MESSAGE {
        Some(commands)
    } else {
        None
    }
}

/// The failures among the results of several commands: each command with
/// the message of its error, in order.
pub open spec fn failure_lines(results: Seq<(String, Result<Execution, ExecutionError>)>) -> Seq<Seq<char>>
    decreases results.len(),
{
    if results.len() == 0 {
        Seq::empty()
    } else {
        let rest = failure_lines(results.drop_last());
        match results.last().1 {
            Err(e) => rest.push("<strong>"@ + results.last().0@ + ":</strong> "@ + bot_error_text(e.0)),
            Ok(_) => rest,
        }
    }
}

/// A link to the user, as written in messages.
pub open spec fn user_pill(user: Seq<char>) -> Seq<char> {
    "<a href=\"https://matrix.to/#/"@ + user + "\">"@ + user + "</a>"@
}

/// The user as named in a message: a link, or the bare name in the
/// message's plain-text form.
pub open spec fn user_text(user: Seq<char>, plain: bool) -> Seq<char> {
    if plain {
        user
    } else {
        user_pill(user)
    }
}

/// The message for the results of several commands: how many ran, and the
/// failures if there were any, with line breaks as `<br/>`. In the
/// plain-text form the user is named without a link (the text is then
/// rendered from its HTML by the caller).
pub open spec fn multiple_results_text(
    results: Seq<(String, Result<Execution, ExecutionError>)>,
    respond_to: Seq<char>,
    plain: bool,
) -> Seq<char> {
    let failures = failure_lines(results);
    if failures.len() == 0 {
        user_text(respond_to, plain) + ": Executed "@ + decimal_string(results.len() as int)
            + " commands"@
    } else {
        with_breaks(
            user_text(respond_to, plain) + ": Executed "@ + decimal_string(results.len() as int)
                + " commands"@ + " ("@ + decimal_string(failures.len() as int) + " failed)\n\nFailures:\n"@
                + join_lines(failures),
        )
    }
}

/// What `html2text::from_read` renders the HTML text as, wrapped to `width`
/// columns.
pub uninterp spec fn rendered_text(html: Seq<char>, width: usize) -> Seq<char>;

/// Whether the text `t` occurs in `s` at position `i`.
pub open spec fn occurs_at(s: Seq<char>, i: int, t: Seq<char>) -> bool {
    0 <= i && i + t.len() <= s.len() && s.subrange(i, i + t.len()) == t
}

/// Whether the only markup in the text is line breaks and bold: every `<`
/// opens `<br/>`, `<strong>` or `</strong>`.
pub open spec fn plain_markup(s: Seq<char>) -> bool {
    forall|i: int|
        0 <= i < s.len() && #[trigger] s[i] == '<' ==> (occurs_at(s, i, "<br/>"@) || occurs_at(
            s,
            i,
            "<strong>"@,
        ) || occurs_at(s, i, "</strong>"@))
}

/// Renders HTML as plain text wrapped to `width` columns with
/// `html2text::from_read`, reading the text's UTF-8 bytes. The contract only
/// names the result: the rendering takes pages to state.
///
/// The renderer panics on some input: it asserts that a width is positive,
/// and block quotes, lists, headers and tables render into narrower
/// sub-renderers, so that at a small width it fails. The `requires` keeps to
/// input on which the source shows no panic: its only markup is line
/// breaks and bold, which never open a sub-renderer, and the width is at
/// least the text's length in bytes, so that no word (whose display width is
/// at most its length in bytes) has to be split across lines.
#[verifier::external_body]
fn html_to_text(html: &str, width: usize) -> (r: String)
    requires
        width >= 1,
        plain_markup(html@),
        utf8_len(html@) <= width,
    ensures
        r@ == rendered_text(html@, width),
{
    html2text::from_read(html.as_bytes(), width)
}

/// Whether `t` occurs in `v` at position `i`.
fn occurs_at_exec(v: &Vec<char>, i: usize, t: &str) -> (r: bool)
    ensures
        r == occurs_at(v@, i as int, t@),
{
    let w = chars_of(t);
    if i > v.len() || w.len() > v.len() - i {
        return false;
    }
    assert(i + w@.len() <= v@.len());
    let mut k: usize = 0;
    while k < w.len()
        invariant
            i + w@.len() <= v@.len(),
            i + w.len() <= v.len(),
            k <= w@.len(),
            w@ == t@,
            forall|j: int| 0 <= j < k ==> #[trigger] v@[i + j] == w@[j],
        decreases w@.len() - k,
    {
        if v[i + k] != w[k] {
            assert(v@.subrange(i as int, i + w@.len())[k as int] != t@[k as int]);
            return false;
        }
        k = k + 1;
    }
    assert forall|j: int| 0 <= j < w@.len() implies #[trigger] v@.subrange(i as int, i + w@.len())[j]
        == t@[j] by {
        assert(v@[i + j] == w@[j]);
    }
    assert(v@.subrange(i as int, i + w@.len()) =~= t@);
    true
}

/// Whether the only markup in the text is line breaks and bold.
fn has_plain_markup(s: &str) -> (r: bool)
    ensures
        r == plain_markup(s@),
{
    let v = chars_of(s);
    let mut i: usize = 0;
    while i < v.len()
        invariant
            i <= v@.len(),
            v@ == s@,
            forall|j: int|
                0 <= j < i && #[trigger] v@[j] == '<' ==> (occurs_at(v@, j, "<br/>"@) || occurs_at(
                    v@,
                    j,
                    "<strong>"@,
                ) || occurs_at(v@, j, "</strong>"@)),
        decreases v@.len() - i,
    {
        if v[i] == '<' && !occurs_at_exec(&v, i, "<br/>") && !occurs_at_exec(&v, i, "<strong>")
            && !occurs_at_exec(&v, i, "</strong>") {
            assert(v@[i as int] == '<');
            return false;
        }
        i = i + 1;
    }
    true
}

/// The length in bytes of a text's UTF-8 encoding, as a `usize` (at most
/// `usize::MAX`).
pub open spec fn byte_width(s: Seq<char>) -> usize {
    if utf8_len(s) <= usize::MAX {
        utf8_len(s) as usize
    } else {
        usize::MAX
    }
}

/// The message for the results of several commands as it is sent: the HTML
/// text, or in the plain-text form with failures, that text rendered to
/// plain text at a width of its length in bytes. Without failures the plain
/// form holds no markup and is sent as it is. The renderer is only used on
/// text whose markup is line breaks and bold: when a command or an error
/// brings other markup into the text, the text is sent as it is.
pub open spec fn multiple_results_sent(
    results: Seq<(String, Result<Execution, ExecutionError>)>,
    respond_to: Seq<char>,
    plain: bool,
) -> Seq<char> {
    let text = multiple_results_text(results, respond_to, plain);
    if plain && failure_lines(results).len() > 0 && text.len() > 0 && plain_markup(text)
        && utf8_len(text) < usize::MAX {
        rendered_text(text, byte_width(text))
    } else {
        text
    }
}

fn push_user_pill(out: &mut String, user: &str)
    ensures
        final(out)@ == old(out)@ + user_pill(user@),
{
    push_str(out, "<a href=\"https://matrix.to/#/");
    push_str(out, user);
    push_str(out, "\">");
    push_str(out, user);
    push_str(out, "</a>");
    assert(final(out)@ =~= old(out)@ + user_pill(user@));
}

/// The message for the results of several commands run from one message,
/// in its HTML form or its plain-text form.
pub fn multiple_results_message(
    results: &[(String, Result<Execution, ExecutionError>)],
    respond_to: &str,
    plain: bool,
) -> (r: String)
    ensures
        r@ == multiple_results_sent(results@, respond_to@, plain),
{
    let mut failures = String::new();
    let mut count: usize = 0;
    let mut i: usize = 0;
    while i < results.len()
        invariant
            i <= results@.len(),
            count == failure_lines(results@.take(i as int)).len(),
            count <= i,
            failures@ == join_lines(failure_lines(results@.take(i as int))),
        decreases results@.len() - i,
    {
        proof {
            assert(results@.take(i + 1).drop_last() =~= results@.take(i as int));
        }
        match &results[i].1 {
            Err(e) => {
                if count > 0 {
                    push_str(&mut failures, "\n");
                }
                push_str(&mut failures, "<strong>");
                push_str(&mut failures, results[i].0.as_str());
                push_str(&mut failures, ":</strong> ");
                let m = e.0.message();
                push_str(&mut failures, m.as_str());
                count = count + 1;
                proof {
                    let f = failure_lines(results@.take(i + 1));
                    assert(f.drop_last() =~= failure_lines(results@.take(i as int)));
                    assert(failures@ =~= join_lines(f));
                }
            },
            Ok(_) => {},
        }
        i = i + 1;
    }
    proof {
        assert(results@.take(i as int) =~= results@);
    }
    let mut head = String::new();
    if plain {
        push_str(&mut head, respond_to);
    } else {
        push_user_pill(&mut head, respond_to);
    }
    push_str(&mut head, ": Executed ");
    push_decimal_usize(&mut head, results.len());
    push_str(&mut head, " commands");
    if count == 0 {
        return head;
    }
    push_str(&mut head, " (");
    push_decimal_usize(&mut head, count);
    push_str(&mut head, " failed)\n\nFailures:\n");
    push_str(&mut head, failures.as_str());
    let mut out = String::new();
    push_with_breaks(&mut out, head.as_str());
    proof {
        let failures_spec = failure_lines(results@);
        assert(head@ =~= user_text(respond_to@, plain) + ": Executed "@ + decimal_string(results@.len() as int)
            + " commands"@ + " ("@ + decimal_string(failures_spec.len() as int) + " failed)\n\nFailures:\n"@
            + join_lines(failures_spec));
    }
    if plain {
        let width = utf8_length(out.as_str());
        proof {
            lemma_utf8_len_nonneg(out@);
        }
        if width >= 1 && width < usize::MAX && has_plain_markup(out.as_str()) {
            return html_to_text(out.as_str(), width);
        }
    }
    out
}

/// The message sent back for the results of the commands of one message:
/// none when no command ran, the single response when one did, and the
/// summary of several.
pub fn results_response(results: &[(String, Result<Execution, ExecutionError>)], respond_to: &str) -> (r: Option<String>)
    ensures
        results@.len() == 0 ==> r is None,
        results@.len() == 1 ==> (r matches Some(m) && m@ == response_text(
            result_body(results@[0].1),
            respond_to@,
        )),
        results@.len() > 1 ==> (r matches Some(m) && m@ == multiple_results_text(
            results@,
            respond_to@,
            false,
        )),
{
    if results.len() == 0 {
        None
    } else if results.len() == 1 {
        Some(message_html(&results[0].1, respond_to))
    } else {
        Some(multiple_results_message(results, respond_to, false))
    }
}

/// Whether a message sent at `sent_ms` (milliseconds since the UNIX epoch)
/// is more recent, at `now_ms`, than `oldest_message_age` seconds ago.
pub open spec fn is_recent(sent_ms: u64, now_ms: u64, oldest_message_age: u64) -> bool {
    sent_ms > now_ms - oldest_message_age * 1000
}

/// Check if a message is recent enough to actually process.
pub fn check_message_age(sent_ms: u64, now_ms: u64, oldest_message_age: u64) -> (r: bool)
    ensures
        r == is_recent(sent_ms, now_ms, oldest_message_age),
{
    (sent_ms as u128) + (oldest_message_age as u128) * 1000 > now_ms as u128
}

/// Determine whether or not to process a received message: messages older
/// than the configured age are not processed, and the first such skip is
/// recorded in the state, so that the caller logs it exactly when the
/// state had not recorded a skip before the call. Otherwise the result
/// holds the text of the message (empty when it is not a text message) and
/// the sender as `@<localpart>:<server>`.
pub fn should_process_message(
    state: &mut DiceBotState,
    recent: bool,
    body: Option<String>,
    sender_localpart: &str,
    sender_server: &str,
) -> (r: Result<(String, String), BotError>)
    ensures
        !recent ==> (r matches Err(BotError::ShouldNotProcessError) && final(state).logged()),
        !recent && old(state).logged() ==> *final(state) == *old(state),
        recent ==> *final(state) == *old(state),
        recent ==> (r matches Ok((b, s)) && match body {
            Some(text) => b@ == text@ && s@ == "@"@ + sender_localpart@ + ":"@ + sender_server@,
            None => b@ == Seq::<char>::empty() && s@ == Seq::<char>::empty(),
        }),
{
    if !recent {
        if !state.logged_skipped_old_messages() {
            state.skipped_old_messages();
        }
        return Err(BotError::ShouldNotProcessError);
    }
    match body {
        Some(text) => {
            let mut sender = String::new();
            push_str(&mut sender, "@");
            push_str(&mut sender, sender_localpart);
            push_str(&mut sender, ":");
            push_str(&mut sender, sender_server);
            Ok((text, sender))
        },
        None => Ok((String::new(), String::new())),
    }
}

/// The kinds of change to a room member that the bot tells apart.
#[derive(Debug, Clone, Copy, PartialEq, Eq, Structural)]
pub enum MembershipChange {
    Joined,
    Banned,
    Left,
    Kicked,
    KickedAndBanned,
    /// Any other change, which the bot ignores.
    Other,
}

/// What the bot records for a room membership change.
#[derive(Debug, Clone, Copy, PartialEq, Eq, Structural)]
pub enum MemberAction {
    /// The bot left the room: forget everything about it.
    ClearRoomInfo,
    /// The bot joined the room: record the room and its members.
    RecordRoomInformation,
    /// Another user joined: add them to the room.
    AddUserToRoom,
    /// Another user left: remove them from the room.
    RemoveUserFromRoom,
}

/// What to record for a membership change, depending on whether it is
/// the bot's own: nothing for changes that are neither joins nor leaves.
pub fn member_action(change: MembershipChange, event_affects_us: bool) -> (r: Option<MemberAction>)
    ensures
        r == match change {
            MembershipChange::Joined => Some(
                if event_affects_us {
                    MemberAction::RecordRoomInformation
                } else {
                    MemberAction::AddUserToRoom
                },
            ),
            MembershipChange::Other => None,
            _ => Some(
                if event_affects_us {
                    MemberAction::ClearRoomInfo
                } else {
                    MemberAction::RemoveUserFromRoom
                },
            ),
        },
{
    let adding_user = match change {
        MembershipChange::Joined => true,
        MembershipChange::Banned | MembershipChange::Left | MembershipChange::Kicked
        | MembershipChange::KickedAndBanned => false,
        MembershipChange::Other => {
            return None;
        },
    };
    if event_affects_us && !adding_user {
        Some(MemberAction::ClearRoomInfo)
    } else if event_affects_us && adding_user {
        Some(MemberAction::RecordRoomInformation)
    } else if !event_affects_us && adding_user {
        Some(MemberAction::AddUserToRoom)
    } else {
        Some(MemberAction::RemoveUserFromRoom)
    }
}

}
