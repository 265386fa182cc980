//! The command that rolls basic dice expressions.
use crate::basic::dice::{
    draws_needed, element_rollable, expression_text, int_sum, lemma_sum_as_ints, rollable,
    rolled_values, sides_needed, Element, ElementExpression, SignedElement,
};
use crate::basic::parser::{parse_element_expression, spec_parse_expression, ExpressionError};
use crate::cofd::dice::DieRoller;
use crate::commands::{Execution, ExecutionError};
use crate::error::{BotError, DiceRollingError};
use crate::text::{chars_of, decimal_string, push_decimal, push_str};
use vstd::prelude::*;

verus! {

/// Roll a basic dice expression.
pub struct RollCommand(pub ElementExpression);

impl RollCommand {
    /// The command for the text after `!roll`: a basic dice expression that
    /// must take up all of the text.
    pub fn from_input(input: &str) -> (r: Result<RollCommand, BotError>)
        ensures
            match spec_parse_expression(input@) {
                Ok(elements) => r matches Ok(cmd) && cmd.0.0@ == elements,
                Err(ExpressionError::Invalid) => r matches Err(BotError::NomParserError),
                Err(ExpressionError::Incomplete) => r matches Err(BotError::NomParserIncomplete),
            },
    {
        let v = chars_of(input);
        match parse_element_expression(&v) {
            None => Err(BotError::NomParserError),
            Some((expression, end)) => if end == v.len() {
                Ok(RollCommand(expression))
            } else {
                Err(BotError::NomParserIncomplete)
            },
        }
    }

    /// Roll the expression and report the dice and the total: each element
    /// comes to its bonus or to the sum of its dice, as the roller rolled
    /// them, with its sign. An expression with a die of no sides, or with an
    /// element whose largest value does not fit an `i32`, is refused as an
    /// invalid amount, and nothing is rolled.
    pub fn execute<R: DieRoller>(&self, roller: &mut R) -> (r: Result<Execution, ExecutionError>)
        requires
            old(roller).fair(),
        ensures
            final(roller).fair(),
            (rollable(self.0.0@) && self.0.0@.len() <= u32::MAX) ==> (r matches Ok(e) && {
                let drawn = final(roller).history().skip(old(roller).history().len() as int);
                &&& final(roller).history().take(old(roller).history().len() as int)
                    == old(roller).history()
                &&& final(roller).history().len() == old(roller).history().len() + draws_needed(
                    self.0.0@,
                )
                &&& final(roller).sides_asked() == old(roller).sides_asked() + sides_needed(
                    self.0.0@,
                )
                &&& e.html_view() == "<strong>Dice:</strong> "@ + expression_text(self.0.0@)
                    + "</p><p><strong>Result</strong>: "@ + decimal_string(
                    int_sum(rolled_values(self.0.0@, drawn)),
                )
            }),
            !(rollable(self.0.0@) && self.0.0@.len() <= u32::MAX) ==> {
                &&& r matches Err(ExecutionError(
                    BotError::DiceRollingError(DiceRollingError::InvalidAmount),
                ))
                &&& final(roller).history() == old(roller).history()
                &&& final(roller).sides_asked() == old(roller).sides_asked()
            },
    {
        if !is_rollable(&self.0) {
            return Err(ExecutionError(BotError::DiceRollingError(DiceRollingError::InvalidAmount)));
        }
        let (values, total) = self.0.roll(roller);
        let mut html = String::new();
        push_str(&mut html, "<strong>Dice:</strong> ");
        let described = self.0.describe();
        push_str(&mut html, described.as_str());
        push_str(&mut html, "</p><p><strong>Result</strong>: ");
        push_decimal(&mut html, total);
        proof {
            lemma_sum_as_ints(values@);
        }
        Execution::success(html)
    }
}

/// Whether every element of the expression can be rolled, and the
/// expression is not too long to add up.
fn is_rollable(expr: &ElementExpression) -> (r: bool)
    ensures
        r == (rollable(expr.0@) && expr.0@.len() <= u32::MAX),
{
    if expr.0.len() > 0xffff_ffffusize {
        return false;
    }
    let mut i: usize = 0;
    while i < expr.0.len()
        invariant
            i <= expr.0@.len(),
            forall|k: int| 0 <= k < i ==> #[trigger] element_rollable(expr.0@[k]),
        decreases expr.0@.len() - i,
    {
        let e = match &expr.0[i] {
            SignedElement::Positive(e) => e,
            SignedElement::Negative(e) => e,
        };
        let ok = match e {
            Element::Dice(d) => {
                let c = d.count as u64;
                let s = d.sides as u64;
                assert(c * s <= 0xffff_ffff * 0xffff_ffff) by (nonlinear_arith)
                    requires
                        c <= 0xffff_ffff,
                        s <= 0xffff_ffff,
                ;
                s >= 1 && c * s <= 0x7fff_ffffu64
            },
            Element::Bonus(b) => *b <= 0x7fff_ffffu32,
        };
        if !ok {
            assert(!element_rollable(expr.0@[i as int]));
            return false;
        }
        i = i + 1;
    }
    true
}

}
