use tenebrous_dicebot::bot::{
    check_message_age, member_action, message_commands, multiple_results_message, results_response,
    should_process_message, MemberAction, MembershipChange,
};
use tenebrous_dicebot::commands::management::{
    CheckCommand, LinkCommand, RegisterCommand, UnlinkCommand, UnregisterCommand,
};
use tenebrous_dicebot::commands::misc::HelpCommand;
use tenebrous_dicebot::commands::rooms::{search_for_room, ListRoomsCommand, RoomNameAndId, SetRoomCommand};
use tenebrous_dicebot::commands::variables::{
    DeleteVariableCommand, GetAllVariablesCommand, GetVariableCommand, SetVariableCommand,
};
use tenebrous_dicebot::commands::{Execution, ExecutionError};
use tenebrous_dicebot::config::Config;
use tenebrous_dicebot::error::BotError;
use tenebrous_dicebot::help::{parse_help_topic, HelpTopic};
use tenebrous_dicebot::context::RoomContext;
use tenebrous_dicebot::db::keys::DataError;
use tenebrous_dicebot::models::{account_from_lookup, Account, TransientUser, User};
use tenebrous_dicebot::parser::StreamError;
use tenebrous_dicebot::state::DiceBotState;
use tenebrous_dicebot::variables::{parse_set_variable, VariableParsingError};

fn chars(s: &str) -> Vec<char> {
    s.chars().collect()
}

#[test]
fn help_topics() {
    assert_eq!(Some(HelpTopic::ChroniclesOfDarkness), parse_help_topic("cofd"));
    assert_eq!(Some(HelpTopic::DicePool), parse_help_topic("dicepool"));
    assert_eq!(Some(HelpTopic::RollingDice), parse_help_topic("dice"));
    assert_eq!(Some(HelpTopic::General), parse_help_topic(""));
    assert_eq!(None, parse_help_topic("stuff"));
    assert!(HelpTopic::General.message().starts_with("General Help\n"));
}

#[test]
fn help_command_breaks_lines() {
    let cmd = HelpCommand::from_input("stuff").unwrap();
    assert_eq!("<strong>Help:</strong> There is no help for this topic", cmd.execute().unwrap().html());
    let cmd = HelpCommand::from_input("").unwrap();
    assert_eq!(
        "<strong>Help:</strong> General Help<br/><br/>Try these help commands:<br/>  !help cofd<br/>  !help dice<br/>",
        cmd.execute().unwrap().html()
    );
}

#[test]
fn set_variable_grammar() {
    assert_eq!(Ok(("myvar".to_string(), 5)), parse_set_variable(&chars("myvar = 5")));
    assert_eq!(Ok(("x".to_string(), -12)), parse_set_variable(&chars("x=-12")));
    assert_eq!(Err(VariableParsingError::UnconsumedInput), parse_set_variable(&chars("x = 5 6")));
    assert_eq!(Err(VariableParsingError::InvalidValue), parse_set_variable(&chars("x = 99999999999")));
    assert_eq!(
        Err(VariableParsingError::InternalParseError(StreamError::Eoi)),
        parse_set_variable(&chars("x ="))
    );
    assert_eq!(
        Err(VariableParsingError::InternalParseError(StreamError::UnexpectedParse)),
        parse_set_variable(&chars("1 = 2"))
    );
}

#[test]
fn variables_are_listed_in_order() {
    let vars = vec![("b".to_string(), 2), ("a".to_string(), -1), ("ab".to_string(), 10)];
    let html = GetAllVariablesCommand::response(&vars).unwrap().html();
    assert_eq!("<strong>Variables:</strong><br/> - a = -1<br/> - ab = 10<br/> - b = 2", html);
    let reversed: Vec<(String, i32)> = vars.iter().rev().cloned().collect();
    assert_eq!(html, GetAllVariablesCommand::response(&reversed).unwrap().html());
}

#[test]
fn variable_responses() {
    assert_eq!("<strong>Variable:</strong> x = 3", GetVariableCommand::response("x", Some(3)).unwrap().html());
    assert_eq!("<strong>Variable:</strong> x is not set", GetVariableCommand::response("x", None).unwrap().html());
    assert_eq!(
        "<strong>Set Variable:</strong> x = -4",
        SetVariableCommand("x".to_string(), -4).response().unwrap().html()
    );
    let del = DeleteVariableCommand("x".to_string());
    assert_eq!("<strong>Remove Variable:</strong> x now unset", del.response(true).unwrap().html());
    assert_eq!("<strong>Remove Variable:</strong> x is not currently set", del.response(false).unwrap().html());
}

#[test]
fn account_responses() {
    assert!(matches!(RegisterCommand::response("u", true), Err(ExecutionError(BotError::AccountAlreadyExists))));
    assert_eq!(
        "User account u registered for bot commands.",
        RegisterCommand::response("u", false).unwrap().html()
    );
    let user = RegisterCommand::new_user("u");
    assert_eq!("u", user.username);
    assert_eq!(
        "Account exists, but is not available to external applications.",
        CheckCommand::response(&Some(user)).unwrap().html()
    );
    assert_eq!(
        "No account registered. Only simple commands in public rooms are available.",
        CheckCommand::response(&None::<User>).unwrap().html()
    );
    assert!(matches!(UnregisterCommand::response(false), Err(ExecutionError(BotError::AccountDoesNotExist))));
    assert!(UnlinkCommand::response("u").unwrap().html().contains("inaccessible"));
    assert!(LinkCommand::response("u").unwrap().html().contains("username u and the password"));
}

#[test]
fn rooms_are_found_by_id_first() {
    let rooms = vec![
        RoomNameAndId { id: "!a:x".to_string(), name: "alpha".to_string() },
        RoomNameAndId { id: "!b:x".to_string(), name: "!a:x".to_string() },
    ];
    assert_eq!(Some(0), search_for_room(&rooms, "!a:x", Some(1)));
    assert_eq!(Some(1), search_for_room(&rooms, "beta", Some(1)));
    assert_eq!(None, search_for_room(&rooms, "beta", Some(7)));
    assert_eq!(None, search_for_room(&rooms, "beta", None));
    assert_eq!(
        "<pre>  !a:x  |  alpha\n  !b:x  |  !a:x</pre>",
        ListRoomsCommand::response(&rooms).unwrap().html()
    );
    assert_eq!("Active room set to \"alpha\"", SetRoomCommand::response(Some(&rooms[0])).unwrap().html());
    assert!(matches!(SetRoomCommand::response(None), Err(ExecutionError(BotError::RoomDoesNotExist))));
}

#[test]
fn message_lines_starting_with_bang_are_commands() {
    let cmds = message_commands("hello\r\n!roll 1d4\r\n  !not\n!help\n").unwrap();
    assert_eq!(vec!["!roll 1d4".to_string(), "!help".to_string()], cmds);
    let many: String = (0..51).map(|_| "!roll 1d4\n").collect();
    assert!(message_commands(&many).is_none());
    let most: String = (0..50).map(|_| "!roll 1d4\n").collect();
    assert_eq!(50, message_commands(&most).unwrap().len());
}

#[test]
fn multiple_results_summary() {
    let ok = vec![
        ("!a".to_string(), Execution::success("x".to_string())),
        ("!b".to_string(), Execution::success("y".to_string())),
    ];
    assert_eq!(
        "<a href=\"https://matrix.to/#/u\">u</a>: Executed 2 commands",
        multiple_results_message(&ok, "u", false)
    );
    let mixed = vec![
        ("!a".to_string(), Execution::success("x".to_string())),
        ("!b".to_string(), Err(ExecutionError(BotError::NomParserError))),
    ];
    assert_eq!(
        "<a href=\"https://matrix.to/#/u\">u</a>: Executed 2 commands (1 failed)<br/><br/>Failures:<br/><strong>!b:</strong> legacy parsing error",
        multiple_results_message(&mixed, "u", false)
    );
    let plain = multiple_results_message(&mixed, "u", true);
    assert!(plain.starts_with("u: Executed 2 commands (1 failed)\n"));
    assert!(plain.contains("Failures:"));
    assert!(plain.contains("!b:"));
    assert!(plain.contains("legacy parsing error"));
    assert!(!plain.contains("<br/>"));
    assert!(!plain.contains("<strong>"));
    assert_eq!("u: Executed 2 commands", multiple_results_message(&ok, "u", true));
    let marked = vec![
        ("!a".to_string(), Execution::success("x".to_string())),
        ("<blockquote>!b</blockquote>".to_string(), Err(ExecutionError(BotError::NomParserError))),
    ];
    assert_eq!(
        "u: Executed 2 commands (1 failed)<br/><br/>Failures:<br/><strong><blockquote>!b</blockquote>:</strong> legacy parsing error",
        multiple_results_message(&marked, "u", true)
    );
    assert_eq!(None, results_response(&[], "u"));
    assert_eq!(
        Some("<p><a href=\"https://matrix.to/#/u\">u</a></p><p>x</p>".to_string()),
        results_response(&ok[..1], "u")
    );
}

#[test]
fn message_age_and_processing() {
    assert!(check_message_age(1_000_000, 1_500_000, 900));
    assert!(!check_message_age(1_000_000, 2_000_000, 900));
    let cfg = std::sync::Arc::new(Config {
        matrix: tenebrous_dicebot::config::MatrixConfig {
            home_server: "".to_string(),
            username: "".to_string(),
            password: "".to_string(),
        },
        database: None,
        bot: None,
    });
    let mut state = DiceBotState::new(&cfg);
    assert!(matches!(
        should_process_message(&mut state, false, Some("!roll".to_string()), "u", "x.org"),
        Err(BotError::ShouldNotProcessError)
    ));
    assert!(state.logged_skipped_old_messages());
    assert_eq!(
        ("!roll".to_string(), "@u:x.org".to_string()),
        should_process_message(&mut state, true, Some("!roll".to_string()), "u", "x.org").unwrap()
    );
    assert_eq!(
        (String::new(), String::new()),
        should_process_message(&mut state, true, None, "u", "x.org").unwrap()
    );
}

#[test]
fn membership_changes() {
    assert_eq!(Some(MemberAction::RecordRoomInformation), member_action(MembershipChange::Joined, true));
    assert_eq!(Some(MemberAction::AddUserToRoom), member_action(MembershipChange::Joined, false));
    assert_eq!(Some(MemberAction::ClearRoomInfo), member_action(MembershipChange::Kicked, true));
    assert_eq!(Some(MemberAction::RemoveUserFromRoom), member_action(MembershipChange::Left, false));
    assert_eq!(None, member_action(MembershipChange::Other, false));
}

#[test]
fn room_security_needs_encryption_directness_and_membership() {
    let room = RoomContext::new_with_name("!r:x".to_string(), None, true, 2, true);
    assert!(room.is_secure());
    assert_eq!("", room.display_name);
    assert!(!RoomContext::new_with_name("!r:x".to_string(), Some("n".to_string()), false, 2, true).is_secure());
    assert!(!RoomContext::new_with_name("!r:x".to_string(), None, true, 3, true).is_secure());
    assert!(!RoomContext::new_with_name("!r:x".to_string(), None, true, 2, false).is_secure());
}

#[test]
fn data_errors_become_command_failures() {
    let e = ExecutionError::from_data_error(&DataError::TooManyEntries);
    assert_eq!("<strong>database error: too many entries</strong>", e.html());
}

#[test]
fn accounts_come_from_lookups() {
    let user = User::unregistered("u");
    assert_eq!(Account::Registered(user.clone()), account_from_lookup("u", Some(user)));
    assert_eq!(
        Account::Transient(TransientUser { username: "v".to_string() }),
        account_from_lookup("v", None)
    );
}

#[test]
fn set_room_prefers_room_id_over_name() {
    let rooms = vec![
        RoomNameAndId { id: "roomid".to_string(), name: "room_name".to_string() },
        RoomNameAndId { id: "anotherone".to_string(), name: "roomid".to_string() },
    ];
    // The fuzzy search of the names would pick the second room.
    let found_room = search_for_room(&rooms, "roomid", Some(1));
    assert!(found_room.is_some());
    assert_eq!(&rooms[found_room.unwrap()], &rooms[0]);
}

#[test]
fn get_account_no_user_exists() {
    let account = account_from_lookup("@test:example.com", None);
    assert!(matches!(account, Account::Transient(_)));
    let user = account.transient_user().unwrap();
    assert_eq!(user.username, "@test:example.com");
}

#[test]
fn get_or_create_user_when_user_exists() {
    let user = User {
        username: "myuser".to_string(),
        password: Some("abc".to_string()),
        account_status: tenebrous_dicebot::models::AccountStatus::Registered,
        active_room: Some("myroom".to_string()),
    };
    let account = account_from_lookup("myuser", Some(user.clone()));
    assert!(matches!(account, Account::Registered(_)));
    let user_again = account.registered_user().unwrap();
    assert_eq!(&user, user_again);
}
