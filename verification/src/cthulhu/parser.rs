//! The grammar of Call of Cthulhu rolls: `<modifier>:<amounts>` for a
//! regular roll, where the modifier part is optional and ends in `b`, `bb`,
//! `p` or `pp`, and just `<amounts>` for an advancement roll.
use crate::cofd::parser::{split_colon, split_colon_exec};
use crate::cthulhu::dice::{AdvancementRoll, DiceRoll, DiceRollModifier};
use crate::parser::{amounts_view, parse_amounts_chars, spec_parse_amounts, AmountModel, DiceParsingError};
use crate::text::{trim, trimmed_chars};
use vstd::prelude::*;

verus! {

/// Whether `s` ends with the characters of `t`.
pub open spec fn ends_with(s: Seq<char>, t: Seq<char>) -> bool {
    s.len() >= t.len() && s.subrange(s.len() - t.len(), s.len() as int) == t
}

/// The modifier named by the end of `s`: `bb` two bonus dice, `b` one,
/// `pp` two penalty dice, `p` one; anything else is no modifier.
pub open spec fn modifier_of(s: Seq<char>) -> DiceRollModifier {
    if ends_with(s, seq!['b', 'b']) {
        DiceRollModifier::TwoBonus
    } else if ends_with(s, seq!['b']) {
        DiceRollModifier::OneBonus
    } else if ends_with(s, seq!['p', 'p']) {
        DiceRollModifier::TwoPenalty
    } else if ends_with(s, seq!['p']) {
        DiceRollModifier::OnePenalty
    } else {
        DiceRollModifier::Normal
    }
}

/// Whether the characters `v` end with `t`.
fn ends_with_exec(v: &Vec<char>, t: &[char]) -> (r: bool)
    ensures
        r == ends_with(v@, t@),
{
    if v.len() < t.len() {
        return false;
    }
    let start = v.len() - t.len();
    let mut i: usize = 0;
    while i < t.len()
        invariant
            i <= t@.len(),
            start == v@.len() - t@.len(),
            t@.len() <= v@.len() <= usize::MAX,
            forall|k: int| 0 <= k < i ==> v@[start + k] == t@[k],
        decreases t@.len() - i,
    {
        if v[start + i] != t[i] {
            assert(v@.subrange(start as int, v@.len() as int)[i as int] != t@[i as int]);
            return false;
        }
        i = i + 1;
    }
    assert(v@.subrange(start as int, v@.len() as int) =~= t@);
    true
}

/// The modifier named by the end of `v`, as [`modifier_of`] states.
fn parse_modifier(v: &Vec<char>) -> (r: Result<DiceRollModifier, DiceParsingError>)
    ensures
        r == Ok::<DiceRollModifier, DiceParsingError>(modifier_of(v@)),
{
    let bb: [char; 2] = ['b', 'b'];
    let b: [char; 1] = ['b'];
    let pp: [char; 2] = ['p', 'p'];
    let p: [char; 1] = ['p'];
    assert(bb@ =~= seq!['b', 'b']);
    assert(b@ =~= seq!['b']);
    assert(pp@ =~= seq!['p', 'p']);
    assert(p@ =~= seq!['p']);
    if ends_with_exec(v, &bb) {
        Ok(DiceRollModifier::TwoBonus)
    } else if ends_with_exec(v, &b) {
        Ok(DiceRollModifier::OneBonus)
    } else if ends_with_exec(v, &pp) {
        Ok(DiceRollModifier::TwoPenalty)
    } else if ends_with_exec(v, &p) {
        Ok(DiceRollModifier::OnePenalty)
    } else {
        Ok(DiceRollModifier::Normal)
    }
}

/// The result of `parse_regular_roll` on `input`: the amounts and the
/// modifier, or the parsing error.
pub open spec fn spec_parse_regular_roll(input: Seq<char>) -> Result<(Seq<AmountModel>, DiceRollModifier), DiceParsingError> {
    match split_colon(trim(input)) {
        None => Err(DiceParsingError::UnconsumedInput),
        Some((modifiers, amounts)) => match spec_parse_amounts(amounts) {
            Err(e) => Err(e),
            Ok(a) => Ok((a, modifier_of(modifiers))),
        },
    }
}

/// Parse a regular roll: `<modifier>:<amounts>` or just `<amounts>`. More
/// than one colon is refused.
pub fn parse_regular_roll(input: &str) -> (r: Result<DiceRoll, DiceParsingError>)
    ensures
        match spec_parse_regular_roll(input@) {
            Ok((amounts, modifier)) => r matches Ok(roll) && amounts_view(roll.amounts@) == amounts
                && roll.modifier == modifier,
            Err(e) => r == Err::<DiceRoll, DiceParsingError>(e),
        },
{
    let v = trimmed_chars(input);
    let (modifiers_str, amounts_str) = match split_colon_exec(&v) {
        Some(parts) => parts,
        None => {
            return Err(DiceParsingError::UnconsumedInput);
        },
    };
    let modifier = match parse_modifier(&modifiers_str) {
        Ok(m) => m,
        Err(e) => {
            return Err(e);
        },
    };
    let amounts = match parse_amounts_chars(&amounts_str) {
        Ok(a) => a,
        Err(e) => {
            return Err(e);
        },
    };
    Ok(DiceRoll { amounts, modifier })
}

/// Parse an advancement roll: the amounts of the existing skill.
pub fn parse_advancement_roll(input: &str) -> (r: Result<AdvancementRoll, DiceParsingError>)
    ensures
        match spec_parse_amounts(trim(input@)) {
            Ok(amounts) => r matches Ok(roll) && amounts_view(roll.existing_skill@) == amounts,
            Err(e) => r == Err::<AdvancementRoll, DiceParsingError>(e),
        },
{
    let v = trimmed_chars(input);
    match parse_amounts_chars(&v) {
        Ok(amounts) => Ok(AdvancementRoll { existing_skill: amounts }),
        Err(e) => Err(e),
    }
}

}
