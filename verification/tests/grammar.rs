use combine::parser::char::{char, letter, space};
use combine::{any, many1, optional, Parser};
use tenebrous_dicebot::commands::parser::{split_command, CommandParsingError};
use tenebrous_dicebot::parser::StreamError;

/// The command grammar written with combine: `!`, letters, and optionally
/// whitespace and the rest of the text.
fn combine_split(input: &str) -> Result<(String, String), combine::error::StringStreamError> {
    let input = input.trim();
    let exclamation = char('!');
    let word = many1(letter()).map(|value: String| value);
    let at_least_one_space = many1(space().silent()).map(|value: String| value);
    let cmd_input = optional(at_least_one_space.and(many1(any()).map(|value: String| value)));
    let mut parser = exclamation.and(word).and(cmd_input);
    match parser.parse(input)? {
        (((_, command), Some((_, command_input))), _) => Ok((command, command_input)),
        (((_, command), None), _) => Ok((command, "".to_string())),
    }
}

fn kind(e: combine::error::StringStreamError) -> StreamError {
    match e {
        combine::error::StringStreamError::UnexpectedParse => StreamError::UnexpectedParse,
        combine::error::StringStreamError::Eoi => StreamError::Eoi,
        combine::error::StringStreamError::CharacterBoundary => StreamError::CharacterBoundary,
    }
}

#[test]
fn split_command_agrees_with_combine_grammar() {
    let inputs = [
        "", " ", "!", " ! ", "!!", "!1", "!roll", "!roll 1d4", "  !roll   1d4 + 3  ", "!roll1d4",
        "!roll!", "roll", "hello !roll", "\n!roll 1d4", "!ROLL x", "!é ü", "!a\tb\nc", "!a b c d",
    ];
    for input in inputs.iter() {
        let ours = split_command(input);
        let theirs = combine_split(input);
        match (ours, theirs) {
            (Ok(a), Ok(b)) => assert_eq!(a, b, "input {:?}", input),
            (Err(CommandParsingError::InternalParseError(a)), Err(b)) => {
                assert_eq!(a, kind(b), "input {:?}", input)
            }
            (a, b) => panic!("input {:?}: {:?} vs {:?}", input, a, b),
        }
    }
}

use combine::parser::char::{digit, spaces, string};
use combine::{choice, count, many, one_of};
use tenebrous_dicebot::cofd::dice::{DicePoolModifiers, DicePoolQuality};
use tenebrous_dicebot::cofd::parser::parse_modifiers;
use tenebrous_dicebot::parser::{parse_amounts, parse_single_amount, Amount, DiceParsingError, Element, Operator};

fn element_of(value: String) -> Result<Element, DiceParsingError> {
    if value.chars().all(char::is_numeric) {
        value.parse::<i32>().map(Element::Number).map_err(|_| DiceParsingError::ConversionError)
    } else {
        Ok(Element::Variable(value))
    }
}

fn combine_amounts(input: &str) -> Result<Vec<Amount>, DiceParsingError> {
    let input = input.trim();
    let first = many1(letter())
        .or(many1(digit()))
        .skip(spaces().silent())
        .map(|value: String| element_of(value).map(|element| Amount { operator: Operator::Plus, element }));
    let operator = one_of("+-".chars()).map(|sign: char| if sign == '-' { Operator::Minus } else { Operator::Plus });
    let element = many1(letter()).or(many1(digit())).map(element_of);
    let amount = operator
        .skip(spaces().silent())
        .and(element)
        .skip(spaces().silent())
        .map(|(operator, element): (Operator, Result<Element, DiceParsingError>)| {
            element.map(|element| Amount { operator, element })
        });
    let mut parser = first.and(many(amount).map(|amounts: Vec<Result<Amount, DiceParsingError>>| amounts));
    let ((first, rest), left) = parser.parse(input).map_err(|e| DiceParsingError::InternalParseError(kind(e)))?;
    if left.len() == 0 {
        let mut all = vec![first];
        all.extend(rest);
        all.into_iter().collect()
    } else {
        Err(DiceParsingError::UnconsumedInput)
    }
}

fn combine_single_amount(input: &str) -> Result<Amount, DiceParsingError> {
    let input = input.trim();
    let mut parser = many1(letter())
        .or(many1(digit()))
        .skip(spaces().silent())
        .map(|value: String| element_of(value).map(|element| Amount { operator: Operator::Plus, element }));
    let (result, rest) = parser.parse(input).map_err(|e| DiceParsingError::InternalParseError(kind(e)))?;
    if rest.len() == 0 {
        result
    } else {
        Err(DiceParsingError::UnconsumedInput)
    }
}

#[derive(Clone, Copy)]
enum Info {
    Quality(DicePoolQuality),
    ExceptionalOn(i32),
}

fn combine_modifiers(input: &str) -> Result<DicePoolModifiers, DiceParsingError> {
    if input.len() == 0 {
        return Ok(DicePoolModifiers::default());
    }
    let input = input.trim();
    let quality = one_of("nerx".chars()).skip(spaces().silent()).map(|q| match q {
        'n' => Info::Quality(DicePoolQuality::NineAgain),
        'e' => Info::Quality(DicePoolQuality::EightAgain),
        'r' => Info::Quality(DicePoolQuality::Rote),
        'x' => Info::Quality(DicePoolQuality::NoExplode),
        _ => Info::Quality(DicePoolQuality::TenAgain),
    });
    let exceptional_on = string("s")
        .and(many1(digit()))
        .map(|s| s.1)
        .skip(spaces().silent())
        .map(|num: String| Info::ExceptionalOn(num.parse::<i32>().unwrap_or(5)));
    let mut parser = count(2, choice((quality, exceptional_on))).skip(spaces().silent()).map(|m: Vec<Info>| m);
    let (result, rest) = parser.parse(input).map_err(|e| DiceParsingError::InternalParseError(kind(e)))?;
    if rest.len() != 0 {
        return Err(DiceParsingError::UnconsumedInput);
    }
    match result[..] {
        [] => Ok(DicePoolModifiers::default()),
        [Info::ExceptionalOn(e)] => Ok(DicePoolModifiers::custom_exceptional_on(e)),
        [Info::Quality(q)] => Ok(DicePoolModifiers::custom_quality(q)),
        [Info::ExceptionalOn(e), Info::Quality(q)] | [Info::Quality(q), Info::ExceptionalOn(e)] => {
            Ok(DicePoolModifiers::custom(q, e))
        }
        _ => Err(DiceParsingError::InvalidModifiers),
    }
}

#[test]
fn amounts_agree_with_combine_grammar() {
    let inputs = [
        "", " ", "1", "10", "abc", "1+abc", "abc+1", "-1-abc", "1 + myvariable - 2", "1 +", "1 + +",
        "1 2", "a1", "1a", "159875294375198734982379875392", "8+10-2+varname", "  x -  y  ", "1 + é",
        "1+2147483647", "1+2147483648", "٣", "1 - ٣", "ab cd", "+1",
    ];
    for input in inputs.iter() {
        assert_eq!(combine_amounts(input), parse_amounts(input), "input {:?}", input);
        assert_eq!(combine_single_amount(input), parse_single_amount(input), "input {:?}", input);
    }
}

#[test]
fn modifiers_agree_with_combine_grammar() {
    let inputs = [
        "", " ", "n", "e", "r", "x", "b", "ne", "s3", "s33", "s3q", "s", "sx", "rs3", "s3r", "n s4 ",
        "s99999999999", "nnn", "s3s4", "  r\ts3  ", "q", "n x",
    ];
    for input in inputs.iter() {
        assert_eq!(combine_modifiers(input), parse_modifiers(input), "input {:?}", input);
    }
}
