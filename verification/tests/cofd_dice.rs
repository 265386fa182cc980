use tenebrous_dicebot::cofd::dice::{
    fmt_for_failure, fmt_rolls, roll_dice, roll_exploding_die, roll_pool, roll_rote_die, DicePool,
    DicePoolModifiers, DicePoolQuality, DicePoolRoll, RolledDicePool, SequentialDieRoller,
};
use tenebrous_dicebot::dice::{calculate_dice_amount, VariableEntry};
use tenebrous_dicebot::error::DiceRollingError;
use tenebrous_dicebot::parser::{Amount, Element, Operator};

#[test]
fn cofd_ten_again_test() {
    let mut roller = SequentialDieRoller::new(vec![10, 8, 1]);
    let rolls = roll_exploding_die(&mut roller, 10, 10);
    assert_eq!(vec![10, 8], rolls);
}

#[test]
fn cofd_nine_again_test() {
    let mut roller = SequentialDieRoller::new(vec![10, 9, 8, 1]);
    let rolls = roll_exploding_die(&mut roller, 10, 9);
    assert_eq!(vec![10, 9, 8], rolls);
}

#[test]
fn cofd_eight_again_test() {
    let mut roller = SequentialDieRoller::new(vec![10, 9, 8, 8, 1]);
    let rolls = roll_exploding_die(&mut roller, 10, 8);
    assert_eq!(vec![10, 9, 8, 8, 1], rolls);
}

#[test]
fn cofd_rote_quality_fail_then_succeed_test() {
    let mut roller = SequentialDieRoller::new(vec![5, 8, 1]);
    let rolls = roll_rote_die(&mut roller, 10, 8);
    assert_eq!(vec![5, 8], rolls);
}

#[test]
fn cofd_rote_quality_fail_twice_test() {
    let mut roller = SequentialDieRoller::new(vec![5, 6, 10]);
    let rolls = roll_rote_die(&mut roller, 10, 8);
    assert_eq!(vec![5, 6], rolls);
}

#[test]
fn cofd_rote_quality_fail_then_explode_test() {
    let mut roller = SequentialDieRoller::new(vec![5, 10, 8, 1]);
    let rolls = roll_rote_die(&mut roller, 10, 8);
    assert_eq!(vec![5, 10, 8], rolls);
}

#[test]
fn cofd_is_successful_on_equal_test() {
    let result = DicePoolRoll {
        rolls: vec![8],
        modifiers: DicePoolModifiers { exceptional_on: 5, success_on: 8, quality: DicePoolQuality::TenAgain },
    };
    assert_eq!(1, result.successes());
}

#[test]
fn cofd_is_exceptional_test() {
    let result = DicePoolRoll {
        rolls: vec![8, 8, 9, 10, 8],
        modifiers: DicePoolModifiers { exceptional_on: 5, success_on: 8, quality: DicePoolQuality::TenAgain },
    };
    assert_eq!(5, result.successes());
    assert_eq!(true, result.is_exceptional());
}

#[test]
fn cofd_is_not_exceptional_test() {
    let result = DicePoolRoll {
        rolls: vec![8, 8, 9, 10],
        modifiers: DicePoolModifiers { exceptional_on: 5, success_on: 8, quality: DicePoolQuality::TenAgain },
    };
    assert_eq!(4, result.successes());
    assert_eq!(false, result.is_exceptional());
}

#[test]
fn chance_die_has_success_on_10_test() {
    assert_eq!(10, DicePool::chance_die().modifiers.success_on);
}

fn check_success_on(quality: DicePoolQuality) {
    let modifiers = DicePoolModifiers::custom_quality(quality);
    let amount = vec![Amount { operator: Operator::Plus, element: Element::Number(1) }];
    assert_eq!(8, DicePool::new(amount, modifiers).modifiers.success_on);
}

#[test]
fn non_chance_die_has_success_on_8_test() {
    check_success_on(DicePoolQuality::TenAgain);
    check_success_on(DicePoolQuality::NineAgain);
    check_success_on(DicePoolQuality::EightAgain);
    check_success_on(DicePoolQuality::Rote);
    check_success_on(DicePoolQuality::NoExplode);
}

#[test]
fn dice_ten_again_test() {
    let mut roller = SequentialDieRoller::new(vec![10, 8, 1]);
    let rolls = roll_exploding_die(&mut roller, 10, 10);
    assert_eq!(vec![10, 8], rolls);
}

#[test]
fn dice_nine_again_test() {
    let mut roller = SequentialDieRoller::new(vec![10, 9, 8, 1]);
    let rolls = roll_exploding_die(&mut roller, 10, 9);
    assert_eq!(vec![10, 9, 8], rolls);
}

#[test]
fn dice_eight_again_test() {
    let mut roller = SequentialDieRoller::new(vec![10, 9, 8, 8, 1]);
    let rolls = roll_exploding_die(&mut roller, 10, 8);
    assert_eq!(vec![10, 9, 8, 8, 1], rolls);
}

#[test]
fn dice_rote_quality_fail_then_succeed_test() {
    let mut roller = SequentialDieRoller::new(vec![5, 8, 1]);
    let rolls = roll_rote_die(&mut roller, 10, 8);
    assert_eq!(vec![5, 8], rolls);
}

#[test]
fn dice_rote_quality_fail_twice_test() {
    let mut roller = SequentialDieRoller::new(vec![5, 6, 10]);
    let rolls = roll_rote_die(&mut roller, 10, 8);
    assert_eq!(vec![5, 6], rolls);
}

#[test]
fn dice_rote_quality_fail_then_explode_test() {
    let mut roller = SequentialDieRoller::new(vec![5, 10, 8, 1]);
    let rolls = roll_rote_die(&mut roller, 10, 8);
    assert_eq!(vec![5, 10, 8], rolls);
}

#[test]
fn rote_quality_obeys_success_on_test() {
    //With success_on = 8, should only roll once.
    let mut roller = SequentialDieRoller::new(vec![8, 7]);
    let rolls = roll_rote_die(&mut roller, 10, 8);
    assert_eq!(vec![8], rolls);

    //With success_on = 9, we should re-roll if it's an 8.
    roller = SequentialDieRoller::new(vec![8, 7]);
    let rolls = roll_rote_die(&mut roller, 10, 9);
    assert_eq!(vec![8, 7], rolls);
}

#[test]
fn dice_pool_modifiers_chance_die_test() {
    let modifiers = DicePoolModifiers::custom_quality(DicePoolQuality::ChanceDie);
    assert_eq!(10, modifiers.success_on);
}

#[test]
fn dice_pool_modifiers_default_sanity_check() {
    let modifiers = DicePoolModifiers::default();
    assert_eq!(8, modifiers.success_on);
    assert_eq!(5, modifiers.exceptional_on);
    assert_eq!(DicePoolQuality::TenAgain, modifiers.quality);
}

#[test]
fn no_explode_roll_test() {
    let pool = DicePool::easy_pool(1, DicePoolQuality::NoExplode);
    let mut roller = SequentialDieRoller::new(vec![10, 8]);
    let roll = roll_dice(&pool, 1, &mut roller);
    assert_eq!(vec![10], roll);
}

#[test]
fn number_of_dice_equality_test() {
    let num_dice = 5;
    let rolls = vec![1, 2, 3, 4, 5];
    let pool = DicePool::easy_pool(5, DicePoolQuality::TenAgain);
    let rolled_pool = RolledDicePool::from(&pool, num_dice, rolls);
    assert_eq!(5, rolled_pool.num_dice);
}

#[test]
fn rejects_large_expression_test() {
    let mut amounts = vec![];
    for _ in 0..500 {
        amounts.push(Amount { operator: Operator::Plus, element: Element::Number(1) });
    }
    let pool = DicePool::new(amounts, DicePoolModifiers::default());
    let vars: Vec<VariableEntry> = vec![];
    let mut roller = SequentialDieRoller::new(vec![]);
    let result = roll_pool(&pool, &vars, &mut roller);
    assert!(matches!(result, Err(DiceRollingError::ExpressionTooLarge)));
}

#[test]
fn converts_to_chance_die_test() {
    let mut amounts = vec![];
    amounts.push(Amount { operator: Operator::Plus, element: Element::Number(-1) });
    let pool = DicePool::new(amounts, DicePoolModifiers::default());
    let vars: Vec<VariableEntry> = vec![];
    let mut roller = SequentialDieRoller::new(vec![10]);
    let result = roll_pool(&pool, &vars, &mut roller);
    assert!(result.is_ok());
    let roll = result.unwrap();
    assert_eq!(DicePoolQuality::ChanceDie, roll.modifiers.quality);
    assert_eq!(1, roll.num_dice);
}

#[test]
fn can_resolve_variables_test() {
    let vars: Vec<VariableEntry> = vec![("myvariable".to_string(), 10)];
    let amounts = vec![Amount { operator: Operator::Plus, element: Element::Variable("myvariable".to_owned()) }];
    let pool = DicePool::new(amounts, DicePoolModifiers::default());
    assert_eq!(calculate_dice_amount(&pool.amounts, &vars).unwrap(), 10);
}

#[test]
fn subtracts_variable_after_minus_test() {
    let vars: Vec<VariableEntry> = vec![("myvariable".to_string(), 3)];
    let amounts = vec![
        Amount { operator: Operator::Plus, element: Element::Number(8) },
        Amount { operator: Operator::Minus, element: Element::Variable("myvariable".to_owned()) },
    ];
    assert_eq!(calculate_dice_amount(&amounts, &vars).unwrap(), 5);
}

#[test]
fn easy_pool_chance_die_test() {
    let pool = DicePool::easy_pool(1, DicePoolQuality::ChanceDie);
    assert_eq!(10, pool.modifiers.success_on);
}

fn check_quality(quality: DicePoolQuality) {
    let pool = DicePool::easy_pool(1, quality);
    assert_eq!(quality, pool.modifiers.quality);
}

#[test]
fn easy_pool_quality_test() {
    check_quality(DicePoolQuality::TenAgain);
    check_quality(DicePoolQuality::NineAgain);
    check_quality(DicePoolQuality::EightAgain);
    check_quality(DicePoolQuality::Rote);
    check_quality(DicePoolQuality::ChanceDie);
    check_quality(DicePoolQuality::NoExplode);
}

#[test]
fn dice_is_successful_on_equal_test() {
    let result = DicePoolRoll {
        rolls: vec![8],
        modifiers: DicePoolModifiers { exceptional_on: 5, success_on: 8, quality: DicePoolQuality::TenAgain },
    };
    assert_eq!(1, result.successes());
}

#[test]
fn chance_die_success_test() {
    let result = DicePoolRoll {
        rolls: vec![10],
        modifiers: DicePoolModifiers { exceptional_on: 5, success_on: 10, quality: DicePoolQuality::ChanceDie },
    };
    assert_eq!(1, result.successes());
}

#[test]
fn chance_die_fail_test() {
    let result = DicePoolRoll {
        rolls: vec![9],
        modifiers: DicePoolModifiers { exceptional_on: 5, success_on: 10, quality: DicePoolQuality::ChanceDie },
    };
    assert_eq!(0, result.successes());
}

#[test]
fn dice_is_exceptional_test() {
    let result = DicePoolRoll {
        rolls: vec![8, 8, 9, 10, 8],
        modifiers: DicePoolModifiers { exceptional_on: 5, success_on: 8, quality: DicePoolQuality::TenAgain },
    };
    assert_eq!(5, result.successes());
    assert_eq!(true, result.is_exceptional());
}

#[test]
fn dice_is_not_exceptional_test() {
    let result = DicePoolRoll { rolls: vec![8, 8, 9, 10], modifiers: DicePoolModifiers::default() };
    assert_eq!(4, result.successes());
    assert_eq!(false, result.is_exceptional());
}

#[test]
fn formats_dramatic_failure_test() {
    let result = DicePoolRoll {
        rolls: vec![1],
        modifiers: DicePoolModifiers::custom_quality(DicePoolQuality::ChanceDie),
    };
    assert_eq!("dramatic failure!", fmt_for_failure(&result));
}

#[test]
fn formats_regular_failure_when_not_chance_die_test() {
    let result = DicePoolRoll {
        rolls: vec![1],
        modifiers: DicePoolModifiers { quality: DicePoolQuality::TenAgain, exceptional_on: 5, success_on: 10 },
    };
    assert_eq!("failure!", fmt_for_failure(&result));
}

#[test]
fn formats_lots_of_dice_test() {
    let result = DicePoolRoll {
        modifiers: DicePoolModifiers::default(),
        rolls: vec![1, 2, 3, 4, 5, 6, 7, 8, 9, 10, 1, 2, 3, 4, 5, 6, 7, 8, 9],
    };
    assert_eq!("1, 2, 3, 4, 5, 6, 7, 8, 9, 10, 1, 2, 3, 4, 5, and 4 more", fmt_rolls(&result));
}

#[test]
fn roll_pool_describes_successes() {
    let pool = DicePool::easy_pool(3, DicePoolQuality::TenAgain);
    let vars: Vec<VariableEntry> = vec![];
    let mut roller = SequentialDieRoller::new(vec![8, 2, 10, 9]);
    let rolled = roll_pool(&pool, &vars, &mut roller).unwrap();
    assert_eq!(vec![8, 2, 10, 9], rolled.roll.rolls);
    assert_eq!(3, rolled.roll.successes());
    assert_eq!("3 successes (8, 2, 10, 9)", rolled.roll.describe());
    assert_eq!("3 dice (ten-again, exceptional on 5 successes)", rolled.describe());
}

#[test]
fn roll_pool_reports_missing_variable() {
    let amounts = vec![Amount { operator: Operator::Plus, element: Element::Variable("nope".to_string()) }];
    let pool = DicePool::new(amounts, DicePoolModifiers::default());
    let vars: Vec<VariableEntry> = vec![("other".to_string(), 3)];
    let mut roller = SequentialDieRoller::new(vec![]);
    let result = roll_pool(&pool, &vars, &mut roller);
    assert_eq!(Err(DiceRollingError::VariableNotFound("nope".to_string())), result.map(|r| r.num_dice));
}
