//! Help texts of the bot, by topic.
use crate::text::text_eq;
use vstd::prelude::*;

verus! {

/// The topics that help is available for.
#[derive(Debug, Clone, Copy, PartialEq, Eq, Structural)]
pub enum HelpTopic {
    ChroniclesOfDarkness,
    DicePool,
    RollingDice,
    General,
}

/// The topic named by `input`: `cofd`, `dicepool`, `dice`, or nothing for
/// general help.
pub open spec fn help_topic_of(input: Seq<char>) -> Option<HelpTopic> {
    if input == "cofd"@ {
        Some(HelpTopic::ChroniclesOfDarkness)
    } else if input == "dicepool"@ {
        Some(HelpTopic::DicePool)
    } else if input == "dice"@ {
        Some(HelpTopic::RollingDice)
    } else if input == ""@ {
        Some(HelpTopic::General)
    } else {
        None
    }
}

/// The help topic named by `input`, if there is one.
pub fn parse_help_topic(input: &str) -> (r: Option<HelpTopic>)
    ensures
        r == help_topic_of(input@),
{
    if text_eq(input, "cofd") {
        Some(HelpTopic::ChroniclesOfDarkness)
    } else if text_eq(input, "dicepool") {
        Some(HelpTopic::DicePool)
    } else if text_eq(input, "dice") {
        Some(HelpTopic::RollingDice)
    } else if text_eq(input, "") {
        Some(HelpTopic::General)
    } else {
        None
    }
}

/// The help text of a topic.
pub open spec fn help_text(topic: HelpTopic) -> Seq<char> {
    match topic {
        HelpTopic::ChroniclesOfDarkness => "Chronicles of Darkness\n\nCommands available:\n !pool, !rp: roll a dice pool\n !chance: roll a chance die\n\nSee also:\n !help dicepool\n"@,
        HelpTopic::DicePool => "Rolling dice pools\n\nCommand: !pool, !rp\n\nSyntax: !pool <num><modifiers>\n\nModifiers:\n n = nine-again\n e = eight-again\n r = rote quality\n x = do not re-roll 10s\n s<num> = number of successes for exceptional\n\nExamples:\n !pool 8 (roll a regular pool of 8 dice)\n !pool 5n (roll dice pool of 5, nine-again)\n !pool 6rs3 (roll dice pool of 6, rote quality, 3 successes for exceptional)\n"@,
        HelpTopic::RollingDice => "Rolling basic dice\n\nCommand: !roll, !r\n\nSyntax !roll <dice-expression>\n\nDice expression can be a basic die (e.g. 1d4), with a bonus (1d4+3),\nor a more complex series of dice rolls or arbitrary numbers.\nParentheses are not supported.\n\nExamples:\n !roll 1d4\n !roll 1d4+5\n !roll 2d6+8\n !roll 2d8 + 4d6 - 3\n"@,
        HelpTopic::General => "General Help\n\nTry these help commands:\n  !help cofd\n  !help dice\n"@,
    }
}

impl HelpTopic {
    /// The help text of the topic.
    pub fn message(&self) -> (r: &'static str)
        ensures
            r@ == help_text(*self),
    {
        match self {
            HelpTopic::ChroniclesOfDarkness => "Chronicles of Darkness\n\nCommands available:\n !pool, !rp: roll a dice pool\n !chance: roll a chance die\n\nSee also:\n !help dicepool\n",
            HelpTopic::DicePool => "Rolling dice pools\n\nCommand: !pool, !rp\n\nSyntax: !pool <num><modifiers>\n\nModifiers:\n n = nine-again\n e = eight-again\n r = rote quality\n x = do not re-roll 10s\n s<num> = number of successes for exceptional\n\nExamples:\n !pool 8 (roll a regular pool of 8 dice)\n !pool 5n (roll dice pool of 5, nine-again)\n !pool 6rs3 (roll dice pool of 6, rote quality, 3 successes for exceptional)\n",
            HelpTopic::RollingDice => "Rolling basic dice\n\nCommand: !roll, !r\n\nSyntax !roll <dice-expression>\n\nDice expression can be a basic die (e.g. 1d4), with a bonus (1d4+3),\nor a more complex series of dice rolls or arbitrary numbers.\nParentheses are not supported.\n\nExamples:\n !roll 1d4\n !roll 1d4+5\n !roll 2d6+8\n !roll 2d8 + 4d6 - 3\n",
            HelpTopic::General => "General Help\n\nTry these help commands:\n  !help cofd\n  !help dice\n",
        }
    }
}

}
