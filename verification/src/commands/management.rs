//! The commands that manage a user's account with the bot.
use crate::commands::{Execution, ExecutionError};
use crate::error::BotError;
use crate::models::{AccountStatus, User};
use crate::text::push_str;
use vstd::prelude::*;

verus! {

/// Register a user account for bot commands.
pub struct RegisterCommand;

/// Make the account unavailable to external applications.
pub struct UnlinkCommand(pub String);

/// Make the account available to external applications with a password.
pub struct LinkCommand(pub String);

/// Report the status of the account.
pub struct CheckCommand;

/// Remove the account.
pub struct UnregisterCommand;

impl RegisterCommand {
    /// The command for the text after `!register`; the text is ignored.
    pub fn from_input(_input: &str) -> (r: Result<RegisterCommand, BotError>)
        ensures
            r is Ok,
    {
        Ok(RegisterCommand)
    }

    /// The account stored for a user who registers: registered, with no
    /// password and no active room.
    pub fn new_user(username: &str) -> (u: User)
        ensures
            u.username@ == username@,
            u.password is None,
            u.active_room is None,
            u.account_status == AccountStatus::Registered,
    {
        User {
            username: username.to_owned(),
            password: None,
            active_room: None,
            account_status: AccountStatus::Registered,
        }
    }

    /// The response to registering: refused when the account exists.
    pub fn response(username: &str, already_exists: bool) -> (r: Result<Execution, ExecutionError>)
        ensures
            already_exists ==> r matches Err(ExecutionError(BotError::AccountAlreadyExists)),
            !already_exists ==> (r matches Ok(e) && e.html_view() == "User account "@ + username@
                + " registered for bot commands."@),
    {
        if already_exists {
            return Err(ExecutionError(BotError::AccountAlreadyExists));
        }
        let mut html = String::new();
        push_str(&mut html, "User account ");
        push_str(&mut html, username);
        push_str(&mut html, " registered for bot commands.");
        Execution::success(html)
    }
}

impl UnlinkCommand {
    /// The command for the text after `!unlink`.
    pub fn from_input(input: &str) -> (r: Result<UnlinkCommand, BotError>)
        ensures
            r matches Ok(cmd) && cmd.0@ == input@,
    {
        Ok(UnlinkCommand(input.to_owned()))
    }

    /// The response to unlinking the account of `username`.
    pub fn response(username: &str) -> (r: Result<Execution, ExecutionError>)
        ensures
            r matches Ok(e) && e.html_view() == "Accounted "@ + username@
                + " is now inaccessible to external applications."@,
    {
        let mut html = String::new();
        push_str(&mut html, "Accounted ");
        push_str(&mut html, username);
        push_str(&mut html, " is now inaccessible to external applications.");
        Execution::success(html)
    }
}

impl LinkCommand {
    /// The command for the text after `!link`: the password to set.
    pub fn from_input(input: &str) -> (r: Result<LinkCommand, BotError>)
        ensures
            r matches Ok(cmd) && cmd.0@ == input@,
    {
        Ok(LinkCommand(input.to_owned()))
    }

    /// The response to linking the account of `username`.
    pub fn response(username: &str) -> (r: Result<Execution, ExecutionError>)
        ensures
            r matches Ok(e) && e.html_view()
                == "Accounted now available for external use. Please log in to external applications with username "@
                + username@ + " and the password you set."@,
    {
        let mut html = String::new();
        push_str(
            &mut html,
            "Accounted now available for external use. Please log in to external applications with username ",
        );
        push_str(&mut html, username);
        push_str(&mut html, " and the password you set.");
        Execution::success(html)
    }
}

/// The account status reported by `!check`, for the stored account of the
/// user if there is one.
pub open spec fn check_text(user: Option<User>) -> Seq<char> {
    match user {
        Some(u) => match u.password {
            Some(_) => "Account exists, and is available to external applications with a password. If you forgot your password, change it with !link."@,
            None => "Account exists, but is not available to external applications."@,
        },
        None => "No account registered. Only simple commands in public rooms are available."@,
    }
}

impl CheckCommand {
    /// The command for the text after `!check`; the text is ignored.
    pub fn from_input(_input: &str) -> (r: Result<CheckCommand, BotError>)
        ensures
            r is Ok,
    {
        Ok(CheckCommand)
    }

    /// The response to checking an account.
    pub fn response(user: &Option<User>) -> (r: Result<Execution, ExecutionError>)
        ensures
            r matches Ok(e) && e.html_view() == check_text(*user),
    {
        let text = match user {
            Some(u) => match u.password {
                Some(_) => "Account exists, and is available to external applications with a password. If you forgot your password, change it with !link.",
                None => "Account exists, but is not available to external applications.",
            },
            None => "No account registered. Only simple commands in public rooms are available.",
        };
        Execution::success(text.to_owned())
    }
}

impl UnregisterCommand {
    /// The command for the text after `!unregister`; the text is ignored.
    pub fn from_input(_input: &str) -> (r: Result<UnregisterCommand, BotError>)
        ensures
            r is Ok,
    {
        Ok(UnregisterCommand)
    }

    /// The response to removing an account: refused when there is none.
    pub fn response(exists: bool) -> (r: Result<Execution, ExecutionError>)
        ensures
            !exists ==> r matches Err(ExecutionError(BotError::AccountDoesNotExist)),
            exists ==> (r matches Ok(e) && e.html_view() == "Your user account has been removed."@),
    {
        if exists {
            Execution::success("Your user account has been removed.".to_owned())
        } else {
            Err(ExecutionError(BotError::AccountDoesNotExist))
        }
    }
}

}
