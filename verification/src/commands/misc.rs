//! The help command.
use crate::commands::{push_with_breaks, with_breaks, Execution, ExecutionError};
use crate::error::BotError;
use crate::help::{help_text, help_topic_of, parse_help_topic, HelpTopic};
use crate::text::push_str;
use vstd::prelude::*;

verus! {

/// Show help on a topic.
pub struct HelpCommand(pub Option<HelpTopic>);

/// The help shown for a topic, or the note that there is none.
pub open spec fn help_or_none(topic: Option<HelpTopic>) -> Seq<char> {
    match topic {
        Some(t) => help_text(t),
        None => "There is no help for this topic"@,
    }
}

impl HelpCommand {
    /// The command for the text after `!help`: the topic.
    pub fn from_input(input: &str) -> (r: Result<HelpCommand, BotError>)
        ensures
            r matches Ok(cmd) && cmd.0 == help_topic_of(input@),
    {
        Ok(HelpCommand(parse_help_topic(input)))
    }

    /// The help on the command's topic, with line breaks as `<br/>`.
    pub fn execute(&self) -> (r: Result<Execution, ExecutionError>)
        ensures
            r matches Ok(e) && e.html_view() == "<strong>Help:</strong> "@ + with_breaks(
                help_or_none(self.0),
            ),
    {
        let help = match &self.0 {
            Some(topic) => topic.message(),
            None => "There is no help for this topic",
        };
        let mut html = String::new();
        push_str(&mut html, "<strong>Help:</strong> ");
        push_with_breaks(&mut html, help);
        Execution::success(html)
    }
}

}
