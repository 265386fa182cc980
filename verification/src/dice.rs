//! Resolving the amounts of a dice expression into a number of dice, by
//! adding numbers and looking up the user's variables.
use crate::error::{DiceRollingError, DiceRollingErrorModel};
use crate::parser::{amounts_view, Amount, AmountModel, Element, ElementModel, Operator};
use vstd::prelude::*;

verus! {

/// A user variable: its name and value.
pub type VariableEntry = (String, i32);

/// The value of the first variable named `name` at or after position `i`.
pub open spec fn lookup_from(vars: Seq<VariableEntry>, i: int, name: Seq<char>) -> Option<i32>
    decreases vars.len() - i,
{
    if i < 0 || i >= vars.len() {
        None
    } else if vars[i].0@ == name {
        Some(vars[i].1)
    } else {
        lookup_from(vars, i + 1, name)
    }
}

/// The value of the variable named `name`.
pub open spec fn lookup(vars: Seq<VariableEntry>, name: Seq<char>) -> Option<i32> {
    lookup_from(vars, 0, name)
}

/// No two variables share a name.
pub open spec fn distinct_names(vars: Seq<VariableEntry>) -> bool {
    forall|i: int, j: int| 0 <= i < j < vars.len() ==> vars[i].0@ != vars[j].0@
}

/// The number an amount contributes: the number, or the value of the named
/// variable, times its operator's sign.
pub open spec fn amount_value(a: AmountModel, vars: Seq<VariableEntry>) -> Result<int, DiceRollingErrorModel> {
    match a.element {
        ElementModel::Number(n) => Ok(n * a.operator.spec_mult()),
        ElementModel::Variable(name) => match lookup(vars, name) {
            Some(v) => Ok(v * a.operator.spec_mult()),
            None => Err(DiceRollingErrorModel::VariableNotFound(name)),
        },
    }
}

/// The sum of the amounts, stopping at the first variable that is not found.
pub open spec fn dice_total(amounts: Seq<AmountModel>, vars: Seq<VariableEntry>) -> Result<int, DiceRollingErrorModel>
    decreases amounts.len(),
{
    if amounts.len() == 0 {
        Ok(0)
    } else {
        match dice_total(amounts.drop_last(), vars) {
            Err(e) => Err(e),
            Ok(t) => match amount_value(amounts.last(), vars) {
                Err(e) => Err(e),
                Ok(x) => Ok(t + x),
            },
        }
    }
}

/// The operator of an amount gives the sign of what it contributes: a
/// number, or a variable that is set, counts as its value after `+` and as
/// the negation of its value after `-`; a variable that is not set is an
/// error naming it, whatever the operator. So `n - m` totals to `n` minus
/// `m`, and `n + m` to their sum.
pub proof fn lemma_amount_signs(n: i32, m: i32, name: Seq<char>, vars: Seq<VariableEntry>)
    ensures
        amount_value(AmountModel { operator: Operator::Plus, element: ElementModel::Number(n) }, vars)
            == Ok::<int, DiceRollingErrorModel>(n as int),
        amount_value(AmountModel { operator: Operator::Minus, element: ElementModel::Number(n) }, vars)
            == Ok::<int, DiceRollingErrorModel>(-n),
        lookup(vars, name) matches Some(v) ==> {
            &&& amount_value(
                AmountModel { operator: Operator::Plus, element: ElementModel::Variable(name) },
                vars,
            ) == Ok::<int, DiceRollingErrorModel>(v as int)
            &&& amount_value(
                AmountModel { operator: Operator::Minus, element: ElementModel::Variable(name) },
                vars,
            ) == Ok::<int, DiceRollingErrorModel>(-v)
        },
        lookup(vars, name) is None ==> amount_value(
            AmountModel { operator: Operator::Minus, element: ElementModel::Variable(name) },
            vars,
        ) == Err::<int, DiceRollingErrorModel>(DiceRollingErrorModel::VariableNotFound(name)),
        dice_total(
            seq![
                AmountModel { operator: Operator::Plus, element: ElementModel::Number(n) },
                AmountModel { operator: Operator::Minus, element: ElementModel::Number(m) },
            ],
            vars,
        ) == Ok::<int, DiceRollingErrorModel>(n - m),
        dice_total(
            seq![
                AmountModel { operator: Operator::Plus, element: ElementModel::Number(n) },
                AmountModel { operator: Operator::Plus, element: ElementModel::Number(m) },
            ],
            vars,
        ) == Ok::<int, DiceRollingErrorModel>(n + m),
{
    let a = AmountModel { operator: Operator::Plus, element: ElementModel::Number(n) };
    let b = AmountModel { operator: Operator::Minus, element: ElementModel::Number(m) };
    let c = AmountModel { operator: Operator::Plus, element: ElementModel::Number(m) };
    assert(seq![a, b].drop_last() =~= seq![a]);
    assert(seq![a].drop_last() =~= Seq::<AmountModel>::empty());
    assert(seq![a, c].drop_last() =~= seq![a]);
    assert(seq![a].last() == a);
    assert(dice_total(Seq::<AmountModel>::empty(), vars) == Ok::<int, DiceRollingErrorModel>(0));
    assert(dice_total(seq![a], vars) == Ok::<int, DiceRollingErrorModel>(n as int));
    assert(seq![a, b].last() == b);
    assert(seq![a, c].last() == c);
}

pub open spec fn in_i32(x: int) -> bool {
    i32::MIN <= x <= i32::MAX
}

/// Every product and partial sum met while adding up the amounts fits in an `i32`.
pub open spec fn total_fits(amounts: Seq<AmountModel>, vars: Seq<VariableEntry>) -> bool
    decreases amounts.len(),
{
    if amounts.len() == 0 {
        true
    } else {
        total_fits(amounts.drop_last(), vars) && match dice_total(amounts.drop_last(), vars) {
            Err(_) => true,
            Ok(t) => match amount_value(amounts.last(), vars) {
                Err(_) => true,
                Ok(x) => in_i32(x) && in_i32(t + x),
            },
        }
    }
}

pub open spec fn total_result_view(r: Result<i32, DiceRollingError>) -> Result<int, DiceRollingErrorModel> {
    match r {
        Ok(n) => Ok(n as int),
        Err(e) => Err(e@),
    }
}

/// Looks up the value of the variable named `name`.
pub fn lookup_variable(vars: &[VariableEntry], name: &String) -> (r: Option<i32>)
    ensures
        r == lookup(vars@, name@),
{
    let mut i: usize = 0;
    while i < vars.len()
        invariant
            i <= vars@.len(),
            lookup(vars@, name@) == lookup_from(vars@, i as int, name@),
        decreases vars@.len() - i,
    {
        if vars[i].0 == *name {
            return Some(vars[i].1);
        }
        i = i + 1;
    }
    None
}

/// The value an amount contributes, in an `i64`.
fn amount_value_exec(a: &Amount, vars: &[VariableEntry]) -> (r: Result<i64, DiceRollingError>)
    ensures
        match amount_value(a@, vars@) {
            Ok(x) => r matches Ok(y) && y == x,
            Err(e) => r matches Err(f) && f@ == e,
        },
{
    match &a.element {
        Element::Number(n) => Ok(*n as i64 * a.operator.mult() as i64),
        Element::Variable(name) => match lookup_variable(vars, name) {
            Some(v) => match a.operator {
                Operator::Plus => Ok(v as i64),
                Operator::Minus => Ok(-(v as i64)),
            },
            None => Err(DiceRollingError::VariableNotFound(name.clone())),
        },
    }
}

/// Whether every product and partial sum met while adding up the amounts
/// fits in an `i32`. Adding them up overflows exactly when this is false.
pub fn dice_amount_fits(amounts: &[Amount], vars: &[VariableEntry]) -> (r: bool)
    ensures
        r == total_fits(amounts_view(amounts@), vars@),
{
    let ghost all = amounts_view(amounts@);
    let mut total: i64 = 0;
    let mut i: usize = 0;
    while i < amounts.len()
        invariant
            i <= amounts@.len(),
            all == amounts_view(amounts@),
            total_fits(all.take(i as int), vars@),
            dice_total(all.take(i as int), vars@) matches Ok(t) && t == total,
            in_i32(total as int),
        decreases amounts@.len() - i,
    {
        proof {
            assert(all.take(i + 1).drop_last() =~= all.take(i as int));
            assert(all.take(i + 1).last() == amounts@[i as int]@);
        }
        match amount_value_exec(&amounts[i], vars) {
            Err(_) => {
                proof {
                    lemma_total_fits_after_error(all, vars@, i as int);
                }
                return true;
            },
            Ok(x) => {
                if x < i32::MIN as i64 || x > i32::MAX as i64 {
                    proof {
                        assert(all.take(all.len() as int) =~= all);
                        if total_fits(all, vars@) {
                            lemma_total_fits_prefix(all, vars@, i + 1, all.len() as int);
                        }
                    }
                    return false;
                }
                let t = total + x;
                if t < i32::MIN as i64 || t > i32::MAX as i64 {
                    proof {
                        assert(all.take(all.len() as int) =~= all);
                        if total_fits(all, vars@) {
                            lemma_total_fits_prefix(all, vars@, i + 1, all.len() as int);
                        }
                    }
                    return false;
                }
                total = t;
            },
        }
        i = i + 1;
    }
    proof {
        assert(all.take(i as int) =~= all);
    }
    true
}

/// Fitting a longer prefix implies fitting every shorter one.
pub proof fn lemma_total_fits_prefix(all: Seq<AmountModel>, vars: Seq<VariableEntry>, i: int, j: int)
    requires
        0 <= i <= j <= all.len(),
        total_fits(all.take(j), vars),
    ensures
        total_fits(all.take(i), vars),
    decreases j - i,
{
    if i < j {
        assert(all.take(j).drop_last() =~= all.take(j - 1));
        lemma_total_fits_prefix(all, vars, i, j - 1);
    }
}

/// Once an amount cannot be resolved, the later amounts are never added.
pub proof fn lemma_total_fits_after_error(all: Seq<AmountModel>, vars: Seq<VariableEntry>, i: int)
    requires
        0 <= i < all.len(),
        total_fits(all.take(i), vars),
        dice_total(all.take(i), vars) is Ok,
        amount_value(all[i], vars) is Err,
    ensures
        total_fits(all, vars),
        dice_total(all, vars) is Err,
    decreases all.len() - i,
{
    lemma_error_persists(all, vars, i + 1);
    lemma_fits_persists(all, vars, i + 1);
    assert(all.take(all.len() as int) =~= all);
}

proof fn lemma_error_persists(all: Seq<AmountModel>, vars: Seq<VariableEntry>, k: int)
    requires
        1 <= k <= all.len(),
        dice_total(all.take(k - 1), vars) is Ok,
        amount_value(all[k - 1], vars) is Err,
    ensures
        forall|j: int| k <= j <= all.len() ==> #[trigger] dice_total(all.take(j), vars) is Err,
    decreases all.len() - k,
{
    assert(all.take(k).drop_last() =~= all.take(k - 1));
    assert forall|j: int| k <= j <= all.len() implies #[trigger] dice_total(all.take(j), vars) is Err by {
        lemma_error_persists_at(all, vars, k, j);
    }
}

proof fn lemma_error_persists_at(all: Seq<AmountModel>, vars: Seq<VariableEntry>, k: int, j: int)
    requires
        1 <= k <= j <= all.len(),
        dice_total(all.take(k - 1), vars) is Ok,
        amount_value(all[k - 1], vars) is Err,
    ensures
        dice_total(all.take(j), vars) is Err,
    decreases j - k,
{
    assert(all.take(j).drop_last() =~= all.take(j - 1));
    if j > k {
        lemma_error_persists_at(all, vars, k, j - 1);
    } else {
        assert(all.take(k).drop_last() =~= all.take(k - 1));
    }
}

proof fn lemma_fits_persists(all: Seq<AmountModel>, vars: Seq<VariableEntry>, k: int)
    requires
        1 <= k <= all.len(),
        total_fits(all.take(k - 1), vars),
        dice_total(all.take(k - 1), vars) is Ok,
        amount_value(all[k - 1], vars) is Err,
    ensures
        total_fits(all.take(all.len() as int), vars),
    decreases all.len() - k,
{
    lemma_error_persists(all, vars, k);
    lemma_fits_persists_at(all, vars, k, all.len() as int);
}

proof fn lemma_fits_persists_at(all: Seq<AmountModel>, vars: Seq<VariableEntry>, k: int, j: int)
    requires
        1 <= k <= j <= all.len(),
        total_fits(all.take(k - 1), vars),
        dice_total(all.take(k - 1), vars) is Ok,
        amount_value(all[k - 1], vars) is Err,
        forall|m: int| k <= m <= all.len() ==> #[trigger] dice_total(all.take(m), vars) is Err,
    ensures
        total_fits(all.take(j), vars),
    decreases j - k,
{
    assert(all.take(j).drop_last() =~= all.take(j - 1));
    if j > k {
        lemma_fits_persists_at(all, vars, k, j - 1);
        assert(dice_total(all.take(j - 1), vars) is Err);
    } else {
        assert(all.take(k).drop_last() =~= all.take(k - 1));
    }
}

/// Calculate the amount of dice to roll by replacing variables with their
/// values and adding up the amounts. Errors out with the name of the first
/// variable that is not defined.
pub fn calculate_dice_amount(amounts: &[Amount], vars: &[VariableEntry]) -> (r: Result<i32, DiceRollingError>)
    requires
        total_fits(amounts_view(amounts@), vars@),
    ensures
        total_result_view(r) == dice_total(amounts_view(amounts@), vars@),
{
    let ghost all = amounts_view(amounts@);
    let mut total: i32 = 0;
    let mut i: usize = 0;
    while i < amounts.len()
        invariant
            i <= amounts@.len(),
            all == amounts_view(amounts@),
            total_fits(all, vars@),
            dice_total(all.take(i as int), vars@) matches Ok(t) && t == total,
        decreases amounts@.len() - i,
    {
        proof {
            assert(all.take(i + 1).drop_last() =~= all.take(i as int));
            assert(all.take(i + 1).last() == amounts@[i as int]@);
            assert(all.take(all.len() as int) =~= all);
            lemma_total_fits_prefix(all, vars@, i + 1, all.len() as int);
        }
        match amount_value_exec(&amounts[i], vars) {
            Err(e) => {
                proof {
                    lemma_error_persists(all, vars@, i + 1);
                    assert(all.take(all.len() as int) =~= all);
                    lemma_error_is_first(all, vars@, i + 1, all.len() as int);
                }
                return Err(e);
            },
            Ok(x) => {
                total = total + x as i32;
            },
        }
        i = i + 1;
    }
    proof {
        assert(all.take(i as int) =~= all);
    }
    Ok(total)
}

/// The error of the sum is the error of the first amount that fails.
proof fn lemma_error_is_first(all: Seq<AmountModel>, vars: Seq<VariableEntry>, k: int, j: int)
    requires
        1 <= k <= j <= all.len(),
        dice_total(all.take(k - 1), vars) is Ok,
        amount_value(all[k - 1], vars) is Err,
    ensures
        dice_total(all.take(j), vars) == (match amount_value(all[k - 1], vars) {
            Err(e) => Err::<int, DiceRollingErrorModel>(e),
            Ok(x) => Ok(x),
        }),
    decreases j - k,
{
    assert(all.take(j).drop_last() =~= all.take(j - 1));
    if j > k {
        lemma_error_is_first(all, vars, k, j - 1);
    } else {
        assert(all.take(k).drop_last() =~= all.take(k - 1));
    }
}


/// Looking up a variable from position `i` on finds the first entry with
/// its name at or after `i`, and nothing when there is none.
proof fn lemma_lookup_from(vars: Seq<VariableEntry>, name: Seq<char>, i: int, k: int)
    requires
        0 <= i <= k <= vars.len(),
        forall|j: int| i <= j < k ==> vars[j].0@ != name,
    ensures
        k < vars.len() && vars[k].0@ == name ==> lookup_from(vars, i, name) == Some(vars[k].1),
        k == vars.len() ==> lookup_from(vars, i, name) is None,
    decreases k - i,
{
    if i < k {
        lemma_lookup_from(vars, name, i + 1, k);
    }
}

/// With names stored once each, as in a map, a variable's value is the one
/// stored under its name, and a name stored nowhere has no value.
pub proof fn lemma_lookup_is_map_lookup(vars: Seq<VariableEntry>, name: Seq<char>)
    requires
        distinct_names(vars),
    ensures
        forall|i: int| 0 <= i < vars.len() && vars[i].0@ == name ==> lookup(vars, name) == Some(
            #[trigger] vars[i].1,
        ),
        (forall|i: int| 0 <= i < vars.len() ==> vars[i].0@ != name) ==> lookup(vars, name) is None,
{
    assert forall|i: int| 0 <= i < vars.len() && vars[i].0@ == name implies lookup(vars, name) == Some(
        #[trigger] vars[i].1,
    ) by {
        lemma_lookup_from(vars, name, 0, i);
    }
    if forall|i: int| 0 <= i < vars.len() ==> vars[i].0@ != name {
        lemma_lookup_from(vars, name, 0, vars.len() as int);
    }
}

}
