use tenebrous_dicebot::basic::dice::{Dice, Element, ElementExpression, SignedElement};
use tenebrous_dicebot::basic::parser::parse_element_expression;
use tenebrous_dicebot::cofd::dice::RngDieRoller;
use tenebrous_dicebot::commands::basic_rolling::RollCommand;
use tenebrous_dicebot::error::BotError;

fn chars(s: &str) -> Vec<char> {
    s.chars().collect()
}

#[test]
fn parses_dice_and_bonuses() {
    let (expr, end) = parse_element_expression(&chars("2d8 + 4d6 - 3")).unwrap();
    assert_eq!(13, end);
    assert_eq!(
        ElementExpression(vec![
            SignedElement::Positive(Element::Dice(Dice { count: 2, sides: 8 })),
            SignedElement::Positive(Element::Dice(Dice { count: 4, sides: 6 })),
            SignedElement::Negative(Element::Bonus(3)),
        ]),
        expr
    );
    assert_eq!("2d8 + 4d6 - 3", expr.describe());
}

#[test]
fn parse_stops_before_unreadable_text() {
    let (expr, end) = parse_element_expression(&chars("1d20asdlfkj")).unwrap();
    assert_eq!(4, end);
    assert_eq!(1, expr.0.len());
    let (_, end) = parse_element_expression(&chars("1d4 + ")).unwrap();
    assert_eq!(3, end);
}

#[test]
fn parse_refuses_text_without_element() {
    assert!(parse_element_expression(&chars("abc")).is_none());
    assert!(parse_element_expression(&chars("")).is_none());
    assert!(parse_element_expression(&chars("99999999999")).is_none());
}

#[test]
fn d_without_sides_is_a_bonus() {
    let (expr, end) = parse_element_expression(&chars("3d")).unwrap();
    assert_eq!(1, end);
    assert_eq!(ElementExpression(vec![SignedElement::Positive(Element::Bonus(3))]), expr);
}

#[test]
fn roll_command_rolls_single_sided_dice_exactly() {
    let cmd = RollCommand::from_input("3d1 + 2 - 1d1").unwrap();
    let mut roller = RngDieRoller::new();
    let result = cmd.execute(&mut roller).unwrap();
    assert_eq!("<strong>Dice:</strong> 3d1 + 2 - 1d1</p><p><strong>Result</strong>: 4", result.html());
}

#[test]
fn roll_command_refuses_dice_without_sides() {
    let cmd = RollCommand::from_input("1d0").unwrap();
    let mut roller = RngDieRoller::new();
    assert!(matches!(cmd.execute(&mut roller), Err(tenebrous_dicebot::commands::ExecutionError(BotError::DiceRollingError(_)))));
}

#[test]
fn roll_totals_stay_in_range() {
    let cmd = RollCommand::from_input("2d6").unwrap();
    let mut roller = RngDieRoller::new();
    for _ in 0..20 {
        let (values, total) = cmd.0.roll(&mut roller);
        assert_eq!(1, values.len());
        assert!(2 <= total && total <= 12);
    }
}
