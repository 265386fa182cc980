//! The bot's user accounts and room information.
use vstd::prelude::*;

verus! {

/// RoomInfo has basic metadata about a room: its name, ID, etc.
#[derive(Clone, Debug, PartialEq, Eq)]
pub struct RoomInfo {
    pub room_id: String,
    pub room_name: String,
}

/// The registration status of an account.
#[derive(Eq, PartialEq, Clone, Copy, Debug, Structural)]
pub enum AccountStatus {
    /// Account is not registered, which means a transient "account"
    /// with limited information exists only for the duration of the
    /// command request.
    NotRegistered,
    /// User account is fully registered, either via Matrix directly,
    /// or a web UI sign-up.
    Registered,
    /// Account is awaiting activation with a registration
    /// code. Account cannot do privileged actions yet.
    AwaitingActivation,
}

impl Default for AccountStatus {
    fn default() -> (r: Self)
        ensures
            r == AccountStatus::NotRegistered,
    {
        AccountStatus::NotRegistered
    }
}

/// A user that has not registered with the bot.
#[derive(Clone, Debug, Eq, PartialEq)]
pub struct TransientUser {
    pub username: String,
}

/// A user account stored by the bot.
#[derive(Eq, PartialEq, Clone, Debug)]
pub struct User {
    pub username: String,
    pub password: Option<String>,
    pub active_room: Option<String>,
    pub account_status: AccountStatus,
}

impl Default for User {
    fn default() -> (r: Self)
        ensures
            r.username@ == Seq::<char>::empty(),
            r.password is None,
            r.active_room is None,
            r.account_status == AccountStatus::NotRegistered,
    {
        User {
            username: String::new(),
            password: None,
            active_room: None,
            account_status: AccountStatus::NotRegistered,
        }
    }
}

impl User {
    /// Create a new unregistered skeleton marker account for a
    /// username.
    pub fn unregistered(username: &str) -> (u: User)
        ensures
            u.username@ == username@,
            u.password is None,
            u.active_room is None,
            u.account_status == AccountStatus::NotRegistered,
    {
        User {
            username: username.to_owned(),
            password: None,
            active_room: None,
            account_status: AccountStatus::NotRegistered,
        }
    }

    /// Whether a password checks out, given what checking it against the
    /// user's stored password hash gave: whether it matched, or an error.
    /// Without a stored password, or when the check failed, it does not.
    pub fn password_verified(&self, check: Result<bool, String>) -> (r: bool)
        ensures
            r == (self.password is Some && check matches Ok(true)),
    {
        match &self.password {
            None => false,
            Some(_) => match check {
                Ok(matched) => matched,
                Err(_) => false,
            },
        }
    }
}

/// The account of a user of the bot.
#[derive(Clone, Debug, Eq, PartialEq)]
pub enum Account {
    /// A registered user account, stored in the database.
    Registered(User),
    /// A transient account. Not stored in the database. Represents a
    /// user in a public channel that has not registered directly with
    /// the bot yet.
    Transient(TransientUser),
}

impl Account {
    /// Whether or not this account is a registered user account.
    pub fn is_registered(&self) -> (r: bool)
        ensures
            r == (self is Registered),
    {
        match self {
            Account::Registered(_) => true,
            Account::Transient(_) => false,
        }
    }

    /// Gets the account status. For registered users, this is their
    /// actual account status (fully registered or awaiting
    /// activation). For transient users, this is
    /// AccountStatus::NotRegistered.
    pub fn account_status(&self) -> (r: AccountStatus)
        ensures
            r == (match self {
                Account::Registered(user) => user.account_status,
                Account::Transient(_) => AccountStatus::NotRegistered,
            }),
    {
        match self {
            Account::Registered(user) => user.account_status,
            Account::Transient(_) => AccountStatus::NotRegistered,
        }
    }

    /// The registered user of the account, if it has one.
    pub fn registered_user(&self) -> (r: Option<&User>)
        ensures
            match self {
                Account::Registered(user) => r == Some(user),
                Account::Transient(_) => r is None,
            },
    {
        match self {
            Account::Registered(user) => Some(user),
            Account::Transient(_) => None,
        }
    }

    /// Consume the account into its non-registered user, if it is one.
    pub fn transient_user(self) -> (r: Option<TransientUser>)
        ensures
            match self {
                Account::Transient(user) => r == Some(user),
                Account::Registered(_) => r is None,
            },
    {
        match self {
            Account::Transient(user) => Some(user),
            Account::Registered(_) => None,
        }
    }
}

impl Default for Account {
    fn default() -> (r: Self)
        ensures
            r matches Account::Transient(u) && u.username@ == Seq::<char>::empty(),
    {
        Account::Transient(TransientUser { username: String::new() })
    }
}


/// The account of `username`, given the user stored for that name if there
/// is one: the registered account, or else a transient one.
pub fn account_from_lookup(username: &str, stored: Option<User>) -> (r: Account)
    ensures
        match stored {
            Some(user) => r == Account::Registered(user),
            None => r matches Account::Transient(t) && t.username@ == username@,
        },
{
    match stored {
        Some(user) => Account::Registered(user),
        None => Account::Transient(TransientUser { username: username.to_owned() }),
    }
}

}
