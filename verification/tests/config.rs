use std::sync::Arc;
use tenebrous_dicebot::config::{BotConfig, Config, DatabaseConfig, MatrixConfig};
use tenebrous_dicebot::state::DiceBotState;

fn matrix() -> MatrixConfig {
    MatrixConfig { home_server: "".to_owned(), username: "".to_owned(), password: "".to_owned() }
}

#[test]
fn oldest_message_default_no_setting_test() {
    let cfg = Config {
        matrix: matrix(),
        database: Some(DatabaseConfig { path: Some("".to_owned()) }),
        bot: Some(BotConfig { oldest_message_age: None }),
    };
    assert_eq!(15 * 60, cfg.oldest_message_age());
}

#[test]
fn oldest_message_default_no_bot_config_test() {
    let cfg = Config { matrix: matrix(), database: Some(DatabaseConfig { path: Some("".to_owned()) }), bot: None };
    assert_eq!(15 * 60, cfg.oldest_message_age());
}

#[test]
fn db_path_uses_setting_first_test() {
    let cfg = Config {
        matrix: matrix(),
        database: Some(DatabaseConfig { path: Some("the-db-path".to_owned()) }),
        bot: None,
    };
    assert_eq!("the-db-path".to_owned(), cfg.database_path(Some("from-env".to_owned())));
}

#[test]
fn db_path_uses_env_if_setting_not_defined_test() {
    let cfg = Config { matrix: matrix(), database: Some(DatabaseConfig { path: None }), bot: None };
    assert_eq!("the-db-path".to_owned(), cfg.database_path(Some("the-db-path".to_owned())));
}

#[test]
fn db_path_uses_env_if_section_not_defined_test() {
    let cfg = Config { matrix: matrix(), database: None, bot: None };
    assert_eq!("the-db-path".to_owned(), cfg.database_path(Some("the-db-path".to_owned())));
}

#[test]
fn configured_oldest_message_age_is_used() {
    let cfg = Config { matrix: matrix(), database: None, bot: Some(BotConfig { oldest_message_age: Some(60) }) };
    assert_eq!(60, cfg.oldest_message_age());
    assert_eq!(3, cfg.migration_version());
}

#[test]
fn matrix_settings_are_read_back() {
    let cfg = Config {
        matrix: MatrixConfig {
            home_server: "https://matrix.example.com".to_owned(),
            username: "bot".to_owned(),
            password: "secret".to_owned(),
        },
        database: None,
        bot: None,
    };
    assert_eq!("https://matrix.example.com", cfg.matrix_homeserver());
    assert_eq!("bot", cfg.matrix_username());
    assert_eq!("secret", cfg.matrix_password());
}

#[test]
fn skipped_old_messages_is_reported_once() {
    let cfg = Arc::new(Config { matrix: matrix(), database: None, bot: None });
    let mut state = DiceBotState::new(&cfg);
    assert!(!state.logged_skipped_old_messages());
    assert!(state.skipped_old_messages());
    assert!(state.logged_skipped_old_messages());
    assert!(!state.skipped_old_messages());
    assert!(state.logged_skipped_old_messages());
}
