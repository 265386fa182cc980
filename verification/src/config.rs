//! The bot's configuration: the Matrix login, the database and bot
//! settings, with their defaults.
use vstd::prelude::*;

verus! {

/// The database migration version the bot expects.
pub const MIGRATION_VERSION: u32 = 3;

/// How old, in seconds, a message may be and still be processed, when the
/// configuration does not say.
pub const DEFAULT_OLDEST_MESSAGE_AGE: u64 = 15 * 60;

/// The "matrix" section of the config, which gives home server, login
/// information, and etc.
#[derive(Clone, Debug)]
pub struct MatrixConfig {
    /// Your homeserver of choice, as an FQDN without scheme or path
    pub home_server: String,
    /// Username to login as. Only the localpart.
    pub username: String,
    /// Bot account password.
    pub password: String,
}

/// The "bot" section of the config file, for bot settings.
#[derive(Clone, Debug)]
pub struct BotConfig {
    /// How far back from current time should we process a message?
    pub oldest_message_age: Option<u64>,
}

/// The "database" section of the config file.
#[derive(Clone, Debug)]
pub struct DatabaseConfig {
    /// Path to the database storage directory.
    pub path: Option<String>,
}

impl BotConfig {
    /// Determine the oldest allowable message age, in seconds. If the
    /// setting is defined, use that value. If it is not defined, fall
    /// back to DEFAULT_OLDEST_MESSAGE_AGE (15 minutes).
    pub fn oldest_message_age(&self) -> (r: u64)
        ensures
            r == match self.oldest_message_age {
                Some(age) => age,
                None => DEFAULT_OLDEST_MESSAGE_AGE,
            },
    {
        match self.oldest_message_age {
            Some(age) => age,
            None => DEFAULT_OLDEST_MESSAGE_AGE,
        }
    }
}

/// Represents the toml config file for the dicebot. The config provides
/// friendly methods that handle default values, etc.
#[derive(Clone, Debug)]
pub struct Config {
    pub matrix: MatrixConfig,
    pub database: Option<DatabaseConfig>,
    pub bot: Option<BotConfig>,
}

/// The database path that the configuration gives, if it gives one.
pub open spec fn configured_path(c: Config) -> Option<Seq<char>> {
    match c.database {
        Some(db) => match db.path {
            Some(p) => Some(p@),
            None => None,
        },
        None => None,
    }
}

impl Config {
    /// The matrix homeserver URL.
    pub fn matrix_homeserver(&self) -> (r: &str)
        ensures
            r@ == self.matrix.home_server@,
    {
        self.matrix.home_server.as_str()
    }

    /// The username used to connect to the matrix server.
    pub fn matrix_username(&self) -> (r: &str)
        ensures
            r@ == self.matrix.username@,
    {
        self.matrix.username.as_str()
    }

    /// The password used to connect to the matrix server.
    pub fn matrix_password(&self) -> (r: &str)
        ensures
            r@ == self.matrix.password@,
    {
        self.matrix.password.as_str()
    }

    /// The path to the database storage directory: the configured one, or
    /// else `from_env`, the `DATABASE_PATH` environment variable, which
    /// must then be set.
    pub fn database_path(&self, from_env: Option<String>) -> (r: String)
        requires
            configured_path(*self) is Some || from_env is Some,
        ensures
            r@ == match configured_path(*self) {
                Some(p) => p,
                None => from_env.unwrap()@,
            },
    {
        match &self.database {
            Some(db) => match &db.path {
                Some(p) => {
                    return p.clone();
                },
                None => {},
            },
            None => {},
        }
        match from_env {
            Some(p) => p,
            None => String::new(),
        }
    }

    /// The current migration version we expect of the database. If
    /// this number is higher than the one in the database, we will
    /// execute migrations to update the data.
    pub fn migration_version(&self) -> (r: u32)
        ensures
            r == MIGRATION_VERSION,
    {
        MIGRATION_VERSION
    }

    /// Figure out the allowed oldest message age, in seconds. This will
    /// be the defined oldest message age in the bot config, if the bot
    /// configuration and associated "oldest_message_age" setting are
    /// defined. If the bot config or the message setting are not defined,
    /// it will default to 15 minutes.
    pub fn oldest_message_age(&self) -> (r: u64)
        ensures
            r == match self.bot {
                Some(bc) => match bc.oldest_message_age {
                    Some(age) => age,
                    None => DEFAULT_OLDEST_MESSAGE_AGE,
                },
                None => DEFAULT_OLDEST_MESSAGE_AGE,
            },
    {
        match &self.bot {
            Some(bc) => bc.oldest_message_age(),
            None => DEFAULT_OLDEST_MESSAGE_AGE,
        }
    }
}

}
