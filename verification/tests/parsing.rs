use tenebrous_dicebot::cofd::dice::{DicePool, DicePoolModifiers, DicePoolQuality};
use tenebrous_dicebot::cofd::parser::{parse_dice_pool, parse_modifiers};
use tenebrous_dicebot::error::BotError;
use tenebrous_dicebot::parser::{
    parse_amounts, parse_single_amount, Amount, DiceParsingError, Element, Operator, StreamError,
};

#[test]
fn parse_single_variable_test() {
    let result = parse_single_amount("abc");
    assert!(result.is_ok());
    assert_eq!(
        result.unwrap(),
        Amount { operator: Operator::Plus, element: Element::Variable("abc".to_string()) }
    )
}

#[test]
fn parse_single_number_test() {
    let result = parse_single_amount("1");
    assert!(result.is_ok());
    assert_eq!(result.unwrap(), Amount { operator: Operator::Plus, element: Element::Number(1) })
}

#[test]
fn parse_multiple_elements_test() {
    let result = parse_single_amount("1+abc");
    assert!(result.is_err());

    let result = parse_single_amount("abc+1");
    assert!(result.is_err());

    let result = parse_single_amount("-1-abc");
    assert!(result.is_err());
}

#[test]
fn parse_single_number_amount_test() {
    let result = parse_amounts("1");
    assert!(result.is_ok());
    assert_eq!(result.unwrap(), vec![Amount { operator: Operator::Plus, element: Element::Number(1) }]);

    let result = parse_amounts("10");
    assert!(result.is_ok());
    assert_eq!(result.unwrap(), vec![Amount { operator: Operator::Plus, element: Element::Number(10) }]);
}

#[test]
fn parsing_huge_number_should_error() {
    // A number outside the bounds of i32 should not be a valid
    // parse.
    let result = parse_amounts("159875294375198734982379875392");
    assert!(result.is_err());
    assert!(result.unwrap_err() == DiceParsingError::ConversionError);
}

#[test]
fn parse_single_variable_amount_test() {
    let result = parse_amounts("asdf");
    assert!(result.is_ok());
    assert_eq!(
        result.unwrap(),
        vec![Amount { operator: Operator::Plus, element: Element::Variable("asdf".to_string()) }]
    );

    let result = parse_amounts("nosis");
    assert!(result.is_ok());
    assert_eq!(
        result.unwrap(),
        vec![Amount { operator: Operator::Plus, element: Element::Variable("nosis".to_string()) }]
    );
}

#[test]
fn parse_complex_amount_expression() {
    assert!(parse_amounts("1 + myvariable - 2").is_ok());
}

#[test]
fn parse_amounts_reads_signs_and_whitespace() {
    assert_eq!(
        parse_amounts("  1 - abc + 4  ").unwrap(),
        vec![
            Amount { operator: Operator::Plus, element: Element::Number(1) },
            Amount { operator: Operator::Minus, element: Element::Variable("abc".to_string()) },
            Amount { operator: Operator::Plus, element: Element::Number(4) },
        ]
    );
}

#[test]
fn parse_amounts_refuses_leading_sign() {
    assert!(parse_amounts("-1 - abc").is_err());
}

#[test]
fn parse_amounts_refuses_empty_text() {
    assert_eq!(
        parse_amounts("   "),
        Err(DiceParsingError::InternalParseError(StreamError::UnexpectedParse))
    );
}

#[test]
fn quality_test() {
    let result = parse_modifiers("n");
    assert!(result.is_ok());
    assert_eq!(result.unwrap(), DicePoolModifiers::custom_quality(DicePoolQuality::NineAgain));

    let result = parse_modifiers("e");
    assert!(result.is_ok());
    assert_eq!(result.unwrap(), DicePoolModifiers::custom_quality(DicePoolQuality::EightAgain));

    let result = parse_modifiers("r");
    assert!(result.is_ok());
    assert_eq!(result.unwrap(), DicePoolModifiers::custom_quality(DicePoolQuality::Rote));

    let result = parse_modifiers("x");
    assert!(result.is_ok());
    assert_eq!(result.unwrap(), DicePoolModifiers::custom_quality(DicePoolQuality::NoExplode));

    let result = parse_modifiers("b");
    assert!(result.is_err());
    assert!(matches!(result, Err(DiceParsingError::UnconsumedInput)));
}

#[test]
fn multiple_quality_failure_test() {
    let result = parse_modifiers("ne");
    assert!(result.is_err());
    assert!(matches!(result, Err(DiceParsingError::InvalidModifiers)));
}

#[test]
fn exceptional_success_test() {
    let result = parse_modifiers("s3");
    assert!(result.is_ok());
    assert_eq!(result.unwrap(), DicePoolModifiers::custom_exceptional_on(3));

    let result = parse_modifiers("s33");
    assert!(result.is_ok());
    assert_eq!(result.unwrap(), DicePoolModifiers::custom_exceptional_on(33));

    let result = parse_modifiers("s3q");
    assert!(result.is_err());
    assert!(matches!(result, Err(DiceParsingError::UnconsumedInput)));
}

#[test]
fn dice_pool_number_only_test() {
    let result = parse_dice_pool("8");
    assert!(result.is_ok());
    assert_eq!(result.unwrap(), DicePool::easy_pool(8, DicePoolQuality::TenAgain));
}

#[test]
fn dice_pool_number_with_quality() {
    let result = parse_dice_pool("n:8");
    assert!(result.is_ok());
    assert_eq!(result.unwrap(), DicePool::easy_pool(8, DicePoolQuality::NineAgain));
}

#[test]
fn dice_pool_number_with_success_change() {
    let modifiers = DicePoolModifiers::custom_exceptional_on(3);
    let result = parse_dice_pool("s3:8");
    assert!(result.is_ok());
    assert_eq!(result.unwrap(), DicePool::easy_with_modifiers(8, modifiers));
}

#[test]
fn dice_pool_with_quality_and_success_change() {
    let modifiers = DicePoolModifiers::custom(DicePoolQuality::Rote, 3);
    let result = parse_dice_pool("rs3:8");
    assert!(result.is_ok());
    assert_eq!(result.unwrap(), DicePool::easy_with_modifiers(8, modifiers));
}

#[test]
fn dice_pool_complex_expression_test() {
    let modifiers = DicePoolModifiers::custom(DicePoolQuality::Rote, 3);
    let amounts = vec![
        Amount { operator: Operator::Plus, element: Element::Number(8) },
        Amount { operator: Operator::Plus, element: Element::Number(10) },
        Amount { operator: Operator::Minus, element: Element::Number(2) },
        Amount { operator: Operator::Plus, element: Element::Variable("varname".to_owned()) },
    ];

    let expected = DicePool::new(amounts, modifiers);

    let result = parse_dice_pool("rs3:8+10-2+varname");
    assert!(result.is_ok());
    assert_eq!(result.unwrap(), expected);

    let result = parse_dice_pool("rs3:8+10-   2 + varname");
    assert!(result.is_ok());
    assert_eq!(result.unwrap(), expected);

    let result = parse_dice_pool("rs3  :  8+ 10 -2 + varname");
    assert!(result.is_ok());
    assert_eq!(result.unwrap(), expected);

    //This one has tabs in it.
    let result = parse_dice_pool("  r\ts3  :\t8\t+ 10 -2 + varname");
    assert!(result.is_ok());
    assert_eq!(result.unwrap(), expected);
}

#[test]
fn dice_pool_refuses_two_colons() {
    assert!(matches!(
        parse_dice_pool("n:8:3"),
        Err(BotError::DiceParsingError(DiceParsingError::UnconsumedInput))
    ));
}

#[test]
fn quality_and_exceptional_in_either_order_test() {
    let expected = DicePoolModifiers { success_on: 8, exceptional_on: 3, quality: DicePoolQuality::Rote };
    assert_eq!(Ok(expected), parse_modifiers("rs3"));
    assert_eq!(Ok(expected), parse_modifiers("s3r"));
    let expected = DicePoolModifiers { success_on: 8, exceptional_on: 12, quality: DicePoolQuality::NoExplode };
    assert_eq!(Ok(expected), parse_modifiers("xs12"));
    assert_eq!(Ok(expected), parse_modifiers("s12x"));
}

#[test]
fn modifiers_trim_unicode_whitespace_test() {
    let expected = DicePoolModifiers::custom_quality(DicePoolQuality::NineAgain);
    assert_eq!(Ok(expected), parse_modifiers("\t n\u{3000}"));
    assert_eq!(Ok(expected), parse_modifiers("\u{2003}n\n"));
}
