use tenebrous_dicebot::commands::management::RegisterCommand;
use tenebrous_dicebot::commands::parser::{parse_command, split_command, CommandParsingError};
use tenebrous_dicebot::commands::variables::GetVariableCommand;
use tenebrous_dicebot::commands::{execution_allowed, Command, Execution, ResponseExtractor};
use tenebrous_dicebot::error::BotError;
use tenebrous_dicebot::parser::StreamError;

#[test]
fn secure_context_secure_command_allows_execution() {
    let cmd = Command::Register(RegisterCommand);
    assert_eq!(execution_allowed(&cmd, true).is_ok(), true);
}

#[test]
fn secure_context_insecure_command_allows_execution() {
    let cmd = Command::GetVariable(GetVariableCommand("".to_owned()));
    assert_eq!(execution_allowed(&cmd, true).is_ok(), true);
}

#[test]
fn insecure_context_insecure_command_allows_execution() {
    let cmd = Command::GetVariable(GetVariableCommand("".to_owned()));
    assert_eq!(execution_allowed(&cmd, false).is_ok(), true);
}

#[test]
fn insecure_context_secure_command_denies_execution() {
    let cmd = Command::Register(RegisterCommand);
    assert_eq!(execution_allowed(&cmd, false).is_err(), true);
}

#[test]
fn mod_command_result_extractor_creates_bubble() {
    let result = Execution::success("test".to_string());
    let message = result.message_html("@myuser:example.com");
    assert!(message.contains("<a href=\"https://matrix.to/#/@myuser:example.com\">@myuser:example.com</a>"));
}

#[test]
fn commands_command_result_extractor_creates_bubble() {
    let result = Execution::success("test".to_string());
    let message = result.message_html("@myuser:example.com");
    assert!(message.contains("<a href=\"https://matrix.to/#/@myuser:example.com\">@myuser:example.com</a>"));
}

#[test]
fn mod_unrecognized_command() {
    let result = parse_command("!notacommand");
    assert!(result.is_err());
}

#[test]
fn commands_unrecognized_command() {
    let result = parse_command("!notacommand");
    assert!(matches!(
        result,
        Err(BotError::CommandParsingError(CommandParsingError::UnrecognizedCommand(ref c))) if c == "notacommand"
    ));
}

#[test]
fn non_command_test() {
    let result = parse_command("not a command");
    assert!(result.is_err());
}

#[test]
fn empty_message_test() {
    let result = parse_command("");
    assert!(result.is_err());
}

#[test]
fn just_exclamation_mark_test() {
    let result = parse_command("!");
    assert!(result.is_err());
}

#[test]
fn newline_test() {
    assert!(parse_command("\n!roll 1d4").is_ok());
}

#[test]
fn whitespace_and_newline_test() {
    assert!(parse_command("    \n!roll 1d4").is_ok());
}

#[test]
fn newline_and_whitespace_test() {
    assert!(parse_command("\n    !cthroll 50").is_ok());
}

#[test]
fn word_with_exclamation_mark_test() {
    let result1 = parse_command("hello !notacommand");
    assert!(result1.is_err());

    let result2 = parse_command("hello!");
    assert!(result2.is_err());

    let result3 = parse_command("hello!notacommand");
    assert!(result3.is_err());
}

#[test]
fn basic_command_test() {
    assert_eq!(
        ("roll".to_string(), "1d4".to_string()),
        split_command("!roll 1d4").expect("got parsing error")
    );
}

#[test]
fn whitespace_at_start_test() {
    assert_eq!(
        ("roll".to_string(), "1d4".to_string()),
        split_command("   !roll 1d4").expect("got parsing error")
    );
}

#[test]
fn whitespace_at_end_test() {
    assert_eq!(
        ("roll".to_string(), "1d4".to_string()),
        split_command("!roll 1d4   ").expect("got parsing error")
    );
}

#[test]
fn whitespace_on_both_ends_test() {
    assert_eq!(
        ("roll".to_string(), "1d4".to_string()),
        split_command("   !roll 1d4   ").expect("got parsing error")
    );
}

#[test]
fn single_command_test() {
    assert_eq!(("roll".to_string(), "".to_string()), split_command("!roll").expect("got parsing error"));

    assert_eq!(
        ("thisdoesnotexist".to_string(), "".to_string()),
        split_command("!thisdoesnotexist").expect("got parsing error")
    );
}

#[test]
fn bad_command_test() {
    assert!(split_command("roll 1d4").is_err());
    assert!(split_command("roll").is_err());
}

#[test]
fn chance_die_is_not_malformed() {
    assert!(parse_command("!chance").is_ok());
}

#[test]
fn roll_malformed_expression_test() {
    assert!(parse_command("!roll 1d20asdlfkj").is_err());
    assert!(parse_command("!roll 1d20asdlfkj   ").is_err());
}

#[test]
fn roll_dice_pool_malformed_expression_test() {
    assert!(parse_command("!pool 8abc").is_err());
    assert!(parse_command("!pool 8abc    ").is_err());
}

#[test]
fn pool_whitespace_test() {
    parse_command("!pool ns3:8   ").expect("was error");
    parse_command("   !pool ns3:8").expect("was error");
    parse_command("   !pool ns3:8   ").expect("was error");
}

#[test]
fn help_whitespace_test() {
    parse_command("!help stuff   ").expect("was error");
    parse_command("   !help stuff").expect("was error");
    parse_command("   !help stuff   ").expect("was error");
}

#[test]
fn roll_whitespace_test() {
    parse_command("!roll 1d4 + 5d6 -3   ").expect("was error");
    parse_command("!roll 1d4 + 5d6 -3   ").expect("was error");
    parse_command("   !roll 1d4 + 5d6 -3   ").expect("was error");
}

#[test]
fn case_insensitive_test() {
    parse_command("!CTHROLL 40").expect("command parsing is not case sensitive.");
}

#[test]
fn split_command_errors_name_their_kind() {
    assert_eq!(
        split_command("   "),
        Err(CommandParsingError::InternalParseError(StreamError::Eoi))
    );
    assert_eq!(
        split_command("roll"),
        Err(CommandParsingError::InternalParseError(StreamError::UnexpectedParse))
    );
}

#[test]
fn split_command_ignores_text_glued_to_the_word() {
    assert_eq!(("roll".to_string(), "".to_string()), split_command("!roll1d4").unwrap());
}

#[test]
fn parse_command_picks_each_command() {
    assert!(matches!(parse_command("!variables"), Ok(Command::GetAllVariables(_))));
    assert!(matches!(parse_command("!get abc"), Ok(Command::GetVariable(ref c)) if c.0 == "abc"));
    assert!(matches!(parse_command("!set abc = 5"), Ok(Command::SetVariable(ref c)) if c.0 == "abc" && c.1 == 5));
    assert!(matches!(parse_command("!del abc"), Ok(Command::DeleteVariable(ref c)) if c.0 == "abc"));
    assert!(matches!(parse_command("!r 1d4"), Ok(Command::Roll(_))));
    assert!(matches!(parse_command("!rp 8"), Ok(Command::PoolRoll(_))));
    assert!(matches!(parse_command("!cthadv 50"), Ok(Command::CthAdvanceRoll(_))));
    assert!(matches!(parse_command("!ctharoll 50"), Ok(Command::CthAdvanceRoll(_))));
    assert!(matches!(parse_command("!help"), Ok(Command::Help(_))));
    assert!(matches!(parse_command("!register"), Ok(Command::Register(_))));
    assert!(matches!(parse_command("!link pw"), Ok(Command::Link(ref c)) if c.0 == "pw"));
    assert!(matches!(parse_command("!unlink"), Ok(Command::Unlink(_))));
    assert!(matches!(parse_command("!check"), Ok(Command::Check(_))));
    assert!(matches!(parse_command("!unregister"), Ok(Command::Unregister(_))));
    assert!(matches!(parse_command("!rooms"), Ok(Command::ListRooms(_))));
    assert!(matches!(parse_command("!room abc"), Ok(Command::SetRoom(ref c)) if c.0 == "abc"));
}

#[test]
fn secure_commands_are_the_account_and_room_commands() {
    assert!(parse_command("!register").unwrap().is_secure());
    assert!(parse_command("!rooms").unwrap().is_secure());
    assert!(!parse_command("!roll 1d4").unwrap().is_secure());
    assert_eq!("roll dice pool", parse_command("!pool 3").unwrap().name());
}

#[test]
fn set_command_reports_bad_value() {
    assert!(matches!(parse_command("!set abc = x"), Err(BotError::VariableParsingError(_))));
}

#[test]
fn roll_command_reports_leftover_text() {
    assert!(matches!(parse_command("!roll 1d4 ?"), Err(BotError::NomParserIncomplete)));
    assert!(matches!(parse_command("!roll ?"), Err(BotError::NomParserError)));
}

#[test]
fn error_message_is_bolded() {
    let result: Result<Execution, tenebrous_dicebot::commands::ExecutionError> =
        Err(tenebrous_dicebot::commands::ExecutionError(BotError::MessageTooLarge));
    assert_eq!(
        "<p><a href=\"https://matrix.to/#/u\">u</a></p><p><strong>too many commands or message was too large</strong></p>",
        result.message_html("u")
    );
}

#[test]
fn response_replaces_line_breaks() {
    let result = Execution::success("a\nb".to_string());
    assert_eq!("<p><a href=\"https://matrix.to/#/u\">u</a></p><p>a<br/>b</p>", result.message_html("u"));
}

#[test]
fn commands_to_execute_respect_room_security() {
    assert!(tenebrous_dicebot::commands::command_to_execute("!roll 1d4", false).is_ok());
    assert!(matches!(
        tenebrous_dicebot::commands::command_to_execute("!register", false),
        Err(tenebrous_dicebot::commands::ExecutionError(BotError::CommandError(_)))
    ));
    assert!(tenebrous_dicebot::commands::command_to_execute("!register", true).is_ok());
    assert!(matches!(
        tenebrous_dicebot::commands::command_to_execute("hello", true),
        Err(tenebrous_dicebot::commands::ExecutionError(BotError::CommandParsingError(_)))
    ));
}

#[test]
fn log_line_shows_start_of_message_or_secure_name() {
    let roll = Command::GetVariable(GetVariableCommand("x".to_owned()));
    let ok = Execution::success("x".to_string());
    assert_eq!(
        "[room] user <!get x> - success",
        tenebrous_dicebot::commands::log_command(&roll, "room", "user", "!get x", &ok)
    );
    let long = "!get abcdefghijklmnopqrstuvwxyz0123";
    assert_eq!(
        "[room] user <!get abcdefghijklmnopqrstuvwxy[...]> - success",
        tenebrous_dicebot::commands::log_command(&roll, "room", "user", long, &ok)
    );
    let failed = Err(tenebrous_dicebot::commands::ExecutionError(BotError::NomParserError));
    assert_eq!(
        "[room] user <register user account> - legacy parsing error",
        tenebrous_dicebot::commands::log_command(
            &Command::Register(RegisterCommand),
            "room",
            "user",
            "!register secret",
            &failed
        )
    );
}

#[test]
fn chance_command_rolls_one_chance_die() {
    match parse_command("!chance") {
        Ok(Command::PoolRoll(cmd)) => {
            assert_eq!(
                vec![tenebrous_dicebot::parser::Amount {
                    operator: tenebrous_dicebot::parser::Operator::Plus,
                    element: tenebrous_dicebot::parser::Element::Number(1),
                }],
                cmd.0.amounts
            );
            assert_eq!(10, cmd.0.sides);
        }
        _ => panic!("!chance is a pool roll"),
    }
}
