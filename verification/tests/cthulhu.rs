use tenebrous_dicebot::cthulhu::dice::{
    advancement_roll, extract_variable, is_variable, regular_roll, roll_advancement_dice,
    roll_regular_dice, skill_update, AdvancementRoll, DiceRoll, DiceRollModifier, RollResult,
    SequentialDieRoller,
};
use tenebrous_dicebot::cthulhu::parser::{parse_advancement_roll, parse_regular_roll};
use tenebrous_dicebot::dice::VariableEntry;
use tenebrous_dicebot::error::{BotError, DiceRollingError};
use tenebrous_dicebot::parser::{Amount, DiceParsingError, Element, Operator};

#[test]
fn extract_variable_gets_variable_name() {
    let amount = Amount { operator: Operator::Plus, element: Element::Variable("abc".to_string()) };
    let result = extract_variable(&amount);
    assert!(result.is_ok());
    assert_eq!(result.unwrap(), "abc");
}

#[test]
fn extract_variable_fails_on_number() {
    let result = extract_variable(&Amount { operator: Operator::Plus, element: Element::Number(1) });
    assert!(result.is_err());
    assert!(matches!(result, Err(DiceParsingError::WrongElementType)));
}

fn no_vars() -> Vec<VariableEntry> {
    vec![]
}

#[test]
fn regular_roll_rejects_negative_numbers() {
    let roll = DiceRoll {
        amounts: vec![Amount { operator: Operator::Plus, element: Element::Number(-10) }],
        modifier: DiceRollModifier::Normal,
    };
    let mut roller = SequentialDieRoller::new(vec![]);
    let result = regular_roll(&roll, &no_vars(), &mut roller);
    assert!(result.is_err());
    assert!(matches!(result, Err(BotError::DiceRollingError(DiceRollingError::InvalidAmount))));
}

#[test]
fn advancement_roll_rejects_negative_numbers() {
    let roll = AdvancementRoll {
        existing_skill: vec![Amount { operator: Operator::Plus, element: Element::Number(-10) }],
    };
    let mut roller = SequentialDieRoller::new(vec![]);
    let result = advancement_roll(&roll, &no_vars(), &mut roller);
    assert!(result.is_err());
    assert!(matches!(result, Err(BotError::DiceRollingError(DiceRollingError::InvalidAmount))));
}

#[test]
fn advancement_roll_rejects_big_numbers() {
    let roll = AdvancementRoll {
        existing_skill: vec![Amount { operator: Operator::Plus, element: Element::Number(3000) }],
    };
    let mut roller = SequentialDieRoller::new(vec![]);
    let result = advancement_roll(&roll, &no_vars(), &mut roller);
    assert!(result.is_err());
    assert!(matches!(result, Err(BotError::DiceRollingError(DiceRollingError::InvalidAmount))));
}

#[test]
fn is_variable_macro_succeds_on_variable() {
    let amount = Amount { operator: Operator::Plus, element: Element::Variable("abc".to_string()) };
    assert_eq!(is_variable(&amount), true);
}

#[test]
fn is_variable_macro_fails_on_number() {
    let amount = Amount { operator: Operator::Plus, element: Element::Number(1) };
    assert_eq!(is_variable(&amount), false);
}

#[test]
fn regular_roll_succeeds_when_below_target() {
    //Roll 30, succeeding.
    let mut roller = SequentialDieRoller::new(vec![0, 3]);
    let rolled = roll_regular_dice(&DiceRollModifier::Normal, 50, &mut roller);
    assert_eq!(RollResult::Success, rolled.result());
}

#[test]
fn regular_roll_hard_success_when_rolling_half() {
    //Roll 25, succeeding.
    let mut roller = SequentialDieRoller::new(vec![5, 2]);
    let rolled = roll_regular_dice(&DiceRollModifier::Normal, 50, &mut roller);
    assert_eq!(RollResult::HardSuccess, rolled.result());
}

#[test]
fn regular_roll_extreme_success_when_rolling_one_fifth() {
    //Roll 10, succeeding extremely.
    let mut roller = SequentialDieRoller::new(vec![0, 1]);
    let rolled = roll_regular_dice(&DiceRollModifier::Normal, 50, &mut roller);
    assert_eq!(RollResult::ExtremeSuccess, rolled.result());
}

#[test]
fn regular_roll_extreme_success_target_above_100() {
    //Roll 30, succeeding extremely.
    let mut roller = SequentialDieRoller::new(vec![0, 3]);
    let rolled = roll_regular_dice(&DiceRollModifier::Normal, 150, &mut roller);
    assert_eq!(RollResult::ExtremeSuccess, rolled.result());
}

#[test]
fn regular_roll_critical_success_on_one() {
    //Roll 1.
    let mut roller = SequentialDieRoller::new(vec![1, 0]);
    let rolled = roll_regular_dice(&DiceRollModifier::Normal, 50, &mut roller);
    assert_eq!(RollResult::CriticalSuccess, rolled.result());
}

#[test]
fn regular_roll_fail_when_above_target() {
    //Roll 60.
    let mut roller = SequentialDieRoller::new(vec![0, 6]);
    let rolled = roll_regular_dice(&DiceRollModifier::Normal, 50, &mut roller);
    assert_eq!(RollResult::Failure, rolled.result());
}

#[test]
fn regular_roll_is_fumble_when_skill_below_50_and_roll_at_least_96() {
    //Roll 96.
    let mut roller = SequentialDieRoller::new(vec![6, 9]);
    let rolled = roll_regular_dice(&DiceRollModifier::Normal, 49, &mut roller);
    assert_eq!(RollResult::Fumble, rolled.result());
}

#[test]
fn regular_roll_is_failure_when_skill_at_or_above_50_and_roll_at_least_96() {
    //Roll 96.
    let mut roller = SequentialDieRoller::new(vec![6, 9]);
    let rolled = roll_regular_dice(&DiceRollModifier::Normal, 50, &mut roller);
    assert_eq!(RollResult::Failure, rolled.result());

    //Roll 96.
    let mut roller = SequentialDieRoller::new(vec![6, 9]);
    let rolled = roll_regular_dice(&DiceRollModifier::Normal, 68, &mut roller);
    assert_eq!(RollResult::Failure, rolled.result());
}

#[test]
fn regular_roll_always_fumble_on_100() {
    //Roll 100.
    let mut roller = SequentialDieRoller::new(vec![0, 0]);
    let rolled = roll_regular_dice(&DiceRollModifier::Normal, 100, &mut roller);
    assert_eq!(RollResult::Fumble, rolled.result());
}

#[test]
fn one_penalty_picks_highest_of_two() {
    //Should only roll 30 and 40, not 50.
    let mut roller = SequentialDieRoller::new(vec![0, 3, 4, 5]);
    let rolled = roll_regular_dice(&DiceRollModifier::OnePenalty, 50, &mut roller);
    assert_eq!(40, rolled.num_rolled);
}

#[test]
fn two_penalty_picks_highest_of_three() {
    //Should only roll 30, 40, 50, and not 60.
    let mut roller = SequentialDieRoller::new(vec![0, 3, 4, 5, 6]);
    let rolled = roll_regular_dice(&DiceRollModifier::TwoPenalty, 50, &mut roller);
    assert_eq!(50, rolled.num_rolled);
}

#[test]
fn one_bonus_picks_lowest_of_two() {
    //Should only roll 30 and 40, not 20.
    let mut roller = SequentialDieRoller::new(vec![0, 3, 4, 2]);
    let rolled = roll_regular_dice(&DiceRollModifier::OneBonus, 50, &mut roller);
    assert_eq!(30, rolled.num_rolled);
}

#[test]
fn two_bonus_picks_lowest_of_three() {
    //Should only roll 30, 40, 50, and not 20.
    let mut roller = SequentialDieRoller::new(vec![0, 3, 4, 5, 2]);
    let rolled = roll_regular_dice(&DiceRollModifier::TwoBonus, 50, &mut roller);
    assert_eq!(30, rolled.num_rolled);
}

#[test]
fn normal_modifier_rolls_once() {
    //Should only roll 30, not 40.
    let mut roller = SequentialDieRoller::new(vec![0, 3, 4]);
    let rolled = roll_regular_dice(&DiceRollModifier::Normal, 50, &mut roller);
    assert_eq!(30, rolled.num_rolled);
}

#[test]
fn advancement_succeeds_on_above_skill() {
    //Roll 52, then advance skill by 5. (advancement adds +1 to 0-9 roll)
    let mut roller = SequentialDieRoller::new(vec![2, 5, 4]);
    let rolled = roll_advancement_dice(30, &mut roller);
    assert!(rolled.successful());
    assert_eq!(5, rolled.advancement());
    assert_eq!(35, rolled.new_skill_amount());
}

#[test]
fn advancement_succeeds_on_above_95() {
    //Roll 96, then advance skill by 1. (advancement adds +1 to 0-9 roll)
    let mut roller = SequentialDieRoller::new(vec![6, 9, 0]);
    let rolled = roll_advancement_dice(97, &mut roller);
    assert!(rolled.successful());
    assert_eq!(1, rolled.advancement());
    assert_eq!(98, rolled.new_skill_amount());
}

#[test]
fn advancement_fails_on_below_skill() {
    //Roll 25, failing.
    let mut roller = SequentialDieRoller::new(vec![5, 2]);
    let rolled = roll_advancement_dice(30, &mut roller);
    assert!(!rolled.successful());
    assert_eq!(0, rolled.advancement());
}

fn sixty() -> Vec<Amount> {
    vec![Amount { operator: Operator::Plus, element: Element::Number(60) }]
}

#[test]
fn regular_roll_accepts_single_number() {
    let result = parse_regular_roll("60");
    assert!(result.is_ok());
    assert_eq!(DiceRoll { amounts: sixty(), modifier: DiceRollModifier::Normal }, result.unwrap());
}

#[test]
fn regular_roll_accepts_two_bonus() {
    let result = parse_regular_roll("bb:60");
    assert!(result.is_ok());
    assert_eq!(DiceRoll { amounts: sixty(), modifier: DiceRollModifier::TwoBonus }, result.unwrap());
}

#[test]
fn regular_roll_accepts_one_bonus() {
    let result = parse_regular_roll("b:60");
    assert!(result.is_ok());
    assert_eq!(DiceRoll { amounts: sixty(), modifier: DiceRollModifier::OneBonus }, result.unwrap());
}

#[test]
fn regular_roll_accepts_two_penalty() {
    let result = parse_regular_roll("pp:60");
    assert!(result.is_ok());
    assert_eq!(DiceRoll { amounts: sixty(), modifier: DiceRollModifier::TwoPenalty }, result.unwrap());
}

#[test]
fn regular_roll_accepts_one_penalty() {
    let result = parse_regular_roll("p:60");
    assert!(result.is_ok());
    assert_eq!(DiceRoll { amounts: sixty(), modifier: DiceRollModifier::OnePenalty }, result.unwrap());
}

#[test]
fn regular_roll_accepts_whitespacen() {
    assert!(parse_regular_roll("60     ").is_ok());
    assert!(parse_regular_roll("   60").is_ok());
    assert!(parse_regular_roll("   60    ").is_ok());

    assert!(parse_regular_roll("bb:60     ").is_ok());
    assert!(parse_regular_roll("   bb:60").is_ok());
    assert!(parse_regular_roll("   bb:60    ").is_ok());

    assert!(parse_regular_roll("b:60     ").is_ok());
    assert!(parse_regular_roll("   b:60").is_ok());
    assert!(parse_regular_roll("   b:60    ").is_ok());

    assert!(parse_regular_roll("pp:60     ").is_ok());
    assert!(parse_regular_roll("   pp:60").is_ok());
    assert!(parse_regular_roll("   pp:60    ").is_ok());

    assert!(parse_regular_roll("p:60     ").is_ok());
    assert!(parse_regular_roll("   p:60").is_ok());
    assert!(parse_regular_roll("   p:60    ").is_ok());
}

#[test]
fn advancement_roll_accepts_whitespacen() {
    assert!(parse_advancement_roll("60     ").is_ok());
    assert!(parse_advancement_roll("   60").is_ok());
    assert!(parse_advancement_roll("   60    ").is_ok());
}

#[test]
fn advancement_roll_accepts_single_number() {
    let result = parse_advancement_roll("60");
    assert!(result.is_ok());
    assert_eq!(AdvancementRoll { existing_skill: sixty() }, result.unwrap());
}

#[test]
fn advancement_roll_allows_big_numbers() {
    assert!(parse_advancement_roll("3000").is_ok());
}

#[test]
fn advancement_roll_allows_variables() {
    let result = parse_advancement_roll("abc");
    assert!(result.is_ok());
    assert_eq!(
        AdvancementRoll {
            existing_skill: vec![Amount { operator: Operator::Plus, element: Element::Variable(String::from("abc")) }]
        },
        result.unwrap()
    );
}

#[test]
fn advancement_roll_allows_complex_expressions() {
    let result = parse_advancement_roll("3 + abc + bob - 4");
    assert!(result.is_ok());
    assert_eq!(
        AdvancementRoll {
            existing_skill: vec![
                Amount { operator: Operator::Plus, element: Element::Number(3) },
                Amount { operator: Operator::Plus, element: Element::Variable(String::from("abc")) },
                Amount { operator: Operator::Plus, element: Element::Variable(String::from("bob")) },
                Amount { operator: Operator::Minus, element: Element::Number(4) }
            ]
        },
        result.unwrap()
    );
}

#[test]
fn regular_roll_refuses_two_colons() {
    assert_eq!(Err(DiceParsingError::UnconsumedInput), parse_regular_roll("b:b:60"));
}

#[test]
fn regular_roll_modifier_without_colon_is_normal_after_trim() {
    let result = parse_regular_roll("  bb :60").unwrap();
    assert_eq!(DiceRollModifier::Normal, result.modifier);
}

#[test]
fn regular_roll_uses_variables_and_reports_result() {
    let roll = DiceRoll {
        amounts: vec![Amount { operator: Operator::Plus, element: Element::Variable("skill".to_string()) }],
        modifier: DiceRollModifier::OneBonus,
    };
    let vars: Vec<VariableEntry> = vec![("skill".to_string(), 50)];
    let mut roller = SequentialDieRoller::new(vec![0, 3, 4]);
    let executed = regular_roll(&roll, &vars, &mut roller).unwrap();
    assert_eq!(50, executed.target);
    assert_eq!(30, executed.roll.num_rolled);
    assert_eq!("target: 50, with one bonus die", executed.describe());
    assert_eq!("30 against 50: success!", executed.roll.describe());
}

#[test]
fn advancement_of_variable_skill_is_written_back() {
    let roll = AdvancementRoll {
        existing_skill: vec![Amount { operator: Operator::Plus, element: Element::Variable("spot".to_string()) }],
    };
    let vars: Vec<VariableEntry> = vec![("spot".to_string(), 30)];
    let mut roller = SequentialDieRoller::new(vec![2, 5, 4]);
    let executed = advancement_roll(&roll, &vars, &mut roller).unwrap();
    assert_eq!(30, executed.target);
    assert_eq!(Some(("spot".to_string(), 35)), skill_update(&roll, &executed).unwrap());
    assert_eq!(
        "rolled 52 against 30: success! new skill is 35 (advanced by 5).",
        executed.roll.describe()
    );
}

#[test]
fn advancement_of_number_skill_writes_nothing() {
    let roll = AdvancementRoll {
        existing_skill: vec![Amount { operator: Operator::Plus, element: Element::Number(30) }],
    };
    let mut roller = SequentialDieRoller::new(vec![2, 5, 4]);
    let executed = advancement_roll(&roll, &no_vars(), &mut roller).unwrap();
    assert_eq!(None, skill_update(&roll, &executed).unwrap());
    let mut roller = SequentialDieRoller::new(vec![5, 2]);
    let executed = advancement_roll(&roll, &no_vars(), &mut roller).unwrap();
    assert_eq!("rolled 25 against 30: failure! skill remains at 30", executed.roll.describe());
}
