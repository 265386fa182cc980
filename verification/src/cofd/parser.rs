//! The grammar of dice pool expressions: `<modifiers>:<amounts>`, where the
//! modifiers part is optional. Modifiers are up to two of a quality letter
//! (`n`, `e`, `r`, `x`) and `s<num>` (successes for an exceptional success).
use crate::cofd::dice::{DicePool, DicePoolModifiers, DicePoolQuality};
use crate::error::BotError;
use crate::parser::{
    amounts_view, parse_amounts_chars, parse_i32, spec_parse_amounts, AmountModel, DiceParsingError, ElementModel, Operator,
    StreamError,
};
use crate::text::{
    chars_of, digit_end_exec, digit_pred, is_ascii_digit, is_ascii_digit_exec, lemma_run_end,
    run_end, run_start_back, sub_chars, trim, trim_chars, ws_end_exec, ws_pred,
};
use vstd::prelude::*;

verus! {

/// One modifier read from the modifiers part of a pool expression.
#[derive(Debug, Clone, Copy, PartialEq, Eq, Structural)]
pub enum ParsedInfo {
    Quality(DicePoolQuality),
    ExceptionalOn(i32),
}

/// The outcome of reading one modifier.
pub enum ModifierScan {
    /// No modifier starts here.
    NoItem,
    /// An `s` was read, but no digits follow it.
    Failed,
    /// The modifier read and the position after it and its trailing whitespace.
    Item(ParsedInfo, int),
}

/// The quality named by a modifier letter.
pub open spec fn quality_letter(c: char) -> Option<DicePoolQuality> {
    if c == 'n' {
        Some(DicePoolQuality::NineAgain)
    } else if c == 'e' {
        Some(DicePoolQuality::EightAgain)
    } else if c == 'r' {
        Some(DicePoolQuality::Rote)
    } else if c == 'x' {
        Some(DicePoolQuality::NoExplode)
    } else {
        None
    }
}

/// Read one modifier at `p`: a quality letter, or `s` and digits (a number too
/// large for an `i32` counts as 5).
pub open spec fn modifier_at(s: Seq<char>, p: int) -> ModifierScan {
    if 0 <= p < s.len() && quality_letter(s[p]) is Some {
        ModifierScan::Item(
            ParsedInfo::Quality(quality_letter(s[p])->Some_0),
            run_end(s, p + 1, ws_pred()),
        )
    } else if 0 <= p < s.len() && s[p] == 's' {
        if p + 1 < s.len() && is_ascii_digit(s[p + 1]) {
            let e = run_end(s, p + 1, digit_pred());
            let n = match parse_i32(s.subrange(p + 1, e)) {
                Some(n) => n,
                None => 5i32,
            };
            ModifierScan::Item(ParsedInfo::ExceptionalOn(n), run_end(s, e, ws_pred()))
        } else {
            ModifierScan::Failed
        }
    } else {
        ModifierScan::NoItem
    }
}

/// The modifiers described by the modifiers read: at most one quality and at
/// most one exceptional threshold.
pub open spec fn spec_convert_to_info(parsed: Seq<ParsedInfo>) -> Result<DicePoolModifiers, DiceParsingError> {
    if parsed.len() == 0 {
        Ok(DicePoolModifiers { success_on: 8, exceptional_on: 5, quality: DicePoolQuality::TenAgain })
    } else if parsed.len() == 1 {
        match parsed[0] {
            ParsedInfo::ExceptionalOn(e) => Ok(
                DicePoolModifiers { success_on: 8, exceptional_on: e, quality: DicePoolQuality::TenAgain },
            ),
            ParsedInfo::Quality(q) => Ok(
                DicePoolModifiers {
                    success_on: if q != DicePoolQuality::ChanceDie { 8 } else { 10 },
                    exceptional_on: 5,
                    quality: q,
                },
            ),
        }
    } else if parsed.len() == 2 {
        match (parsed[0], parsed[1]) {
            (ParsedInfo::ExceptionalOn(e), ParsedInfo::Quality(q)) => Ok(
                DicePoolModifiers { success_on: 8, exceptional_on: e, quality: q },
            ),
            (ParsedInfo::Quality(q), ParsedInfo::ExceptionalOn(e)) => Ok(
                DicePoolModifiers { success_on: 8, exceptional_on: e, quality: q },
            ),
            _ => Err(DiceParsingError::InvalidModifiers),
        }
    } else {
        Err(DiceParsingError::InvalidModifiers)
    }
}

/// The modifiers once reading stopped at `p`: leftover text is refused.
pub open spec fn finish_modifiers(s: Seq<char>, parsed: Seq<ParsedInfo>, p: int) -> Result<
    DicePoolModifiers,
    DiceParsingError,
> {
    if p < s.len() {
        Err(DiceParsingError::UnconsumedInput)
    } else {
        spec_convert_to_info(parsed)
    }
}

/// The result of `parse_modifiers` on the text `input`.
pub open spec fn spec_parse_modifiers(input: Seq<char>) -> Result<DicePoolModifiers, DiceParsingError> {
    if input.len() == 0 {
        Ok(DicePoolModifiers { success_on: 8, exceptional_on: 5, quality: DicePoolQuality::TenAgain })
    } else {
        let s = trim(input);
        match modifier_at(s, 0) {
            ModifierScan::Failed => Err(DiceParsingError::InternalParseError(StreamError::UnexpectedParse)),
            ModifierScan::NoItem => finish_modifiers(s, Seq::empty(), run_end(s, 0, ws_pred())),
            ModifierScan::Item(a, p1) => match modifier_at(s, p1) {
                ModifierScan::Failed => Err(DiceParsingError::InternalParseError(StreamError::UnexpectedParse)),
                ModifierScan::NoItem => finish_modifiers(s, seq![a], p1),
                ModifierScan::Item(b, p2) => finish_modifiers(s, seq![a, b], p2),
            },
        }
    }
}

/// Reads one modifier at `p`.
fn modifier_at_exec(s: &Vec<char>, p: usize) -> (r: (u8, ParsedInfo, usize))
    requires
        p <= s.len(),
    ensures
        match modifier_at(s@, p as int) {
            ModifierScan::NoItem => r.0 == 0,
            ModifierScan::Failed => r.0 == 1,
            ModifierScan::Item(info, end) => r.0 == 2 && r.1 == info && r.2 == end && end <= s@.len(),
        },
{
    if p < s.len() && (s[p] == 'n' || s[p] == 'e' || s[p] == 'r' || s[p] == 'x') {
        let q = if s[p] == 'n' {
            DicePoolQuality::NineAgain
        } else if s[p] == 'e' {
            DicePoolQuality::EightAgain
        } else if s[p] == 'r' {
            DicePoolQuality::Rote
        } else {
            DicePoolQuality::NoExplode
        };
        proof {
            lemma_run_end(s@, p + 1, ws_pred());
        }
        let end = ws_end_exec(s, p + 1);
        (2, ParsedInfo::Quality(q), end)
    } else if p < s.len() && s[p] == 's' {
        if p + 1 < s.len() && is_ascii_digit_exec(s[p + 1]) {
            let e = digit_end_exec(s, p + 1);
            proof {
                lemma_run_end(s@, p + 1, digit_pred());
                assert(run_end(s@, p + 1, digit_pred()) == run_end(s@, p + 2, digit_pred()));
                lemma_run_end(s@, p + 2, digit_pred());
                lemma_run_end(s@, e as int, ws_pred());
            }
            let n = match crate::parser::parse_i32_range(s, p + 1, e) {
                Some(n) => n,
                None => 5,
            };
            let end = ws_end_exec(s, e);
            (2, ParsedInfo::ExceptionalOn(n), end)
        } else {
            (1, ParsedInfo::ExceptionalOn(5), p)
        }
    } else {
        (0, ParsedInfo::ExceptionalOn(5), p)
    }
}

/// The modifiers described by the modifiers read: at most one quality and at
/// most one exceptional threshold.
pub fn convert_to_info(parsed: &Vec<ParsedInfo>) -> (r: Result<DicePoolModifiers, DiceParsingError>)
    ensures
        r == spec_convert_to_info(parsed@),
{
    if parsed.len() == 0 {
        Ok(DicePoolModifiers::default())
    } else if parsed.len() == 1 {
        match parsed[0] {
            ParsedInfo::ExceptionalOn(exceptional_on) => Ok(
                DicePoolModifiers::custom_exceptional_on(exceptional_on),
            ),
            ParsedInfo::Quality(quality) => Ok(DicePoolModifiers::custom_quality(quality)),
        }
    } else if parsed.len() == 2 {
        match (parsed[0], parsed[1]) {
            (ParsedInfo::ExceptionalOn(exceptional_on), ParsedInfo::Quality(quality)) => Ok(
                DicePoolModifiers::custom(quality, exceptional_on),
            ),
            (ParsedInfo::Quality(quality), ParsedInfo::ExceptionalOn(exceptional_on)) => Ok(
                DicePoolModifiers::custom(quality, exceptional_on),
            ),
            _ => Err(DiceParsingError::InvalidModifiers),
        }
    } else {
        Err(DiceParsingError::InvalidModifiers)
    }
}

/// Parses the modifiers part of a pool expression given as characters.
pub fn parse_modifiers_chars(input: &Vec<char>) -> (r: Result<DicePoolModifiers, DiceParsingError>)
    ensures
        r == spec_parse_modifiers(input@),
{
    if input.len() == 0 {
        return Ok(DicePoolModifiers::default());
    }
    let s = trim_chars(input);
    let mut parsed: Vec<ParsedInfo> = Vec::new();
    let (k1, a, p1) = modifier_at_exec(&s, 0);
    if k1 == 1 {
        return Err(DiceParsingError::InternalParseError(StreamError::UnexpectedParse));
    }
    if k1 == 0 {
        proof {
            lemma_run_end(s@, 0, ws_pred());
        }
        let p = ws_end_exec(&s, 0);
        if p < s.len() {
            return Err(DiceParsingError::UnconsumedInput);
        }
        return convert_to_info(&parsed);
    }
    parsed.push(a);
    let (k2, b, p2) = modifier_at_exec(&s, p1);
    if k2 == 1 {
        return Err(DiceParsingError::InternalParseError(StreamError::UnexpectedParse));
    }
    let end = if k2 == 2 {
        parsed.push(b);
        p2
    } else {
        p1
    };
    proof {
        if k2 == 2 {
            assert(parsed@ =~= seq![a, b]);
        } else {
            assert(parsed@ =~= seq![a]);
        }
    }
    if end < s.len() {
        return Err(DiceParsingError::UnconsumedInput);
    }
    convert_to_info(&parsed)
}

/// Parses the modifiers part of a pool expression: up to two of a quality
/// letter and `s<num>`, in either order, with optional whitespace.
pub fn parse_modifiers(input: &str) -> (r: Result<DicePoolModifiers, DiceParsingError>)
    ensures
        r == spec_parse_modifiers(input@),
{
    let v = chars_of(input);
    parse_modifiers_chars(&v)
}

/// The first position at or after `i` that holds `c`, or the length of `s`.
pub open spec fn find_char(s: Seq<char>, c: char, i: int) -> int
    decreases s.len() - i,
{
    if i < 0 || i >= s.len() {
        if i < 0 { 0 } else { i }
    } else if s[i] == c {
        i
    } else {
        find_char(s, c, i + 1)
    }
}

pub proof fn lemma_find_char(s: Seq<char>, c: char, i: int)
    requires
        0 <= i,
    ensures
        i <= find_char(s, c, i) <= s.len() || (i > s.len() && find_char(s, c, i) == i),
        find_char(s, c, i) < s.len() ==> s[find_char(s, c, i)] == c,
        forall|k: int| i <= k < find_char(s, c, i) && k < s.len() ==> s[k] != c,
    decreases s.len() - i,
{
    if i < s.len() && s[i] != c {
        lemma_find_char(s, c, i + 1);
    }
}

/// The first position at or after `i` that holds `c`, or the length of `v`.
pub fn find_char_exec(v: &Vec<char>, c: char, i: usize) -> (r: usize)
    requires
        i <= v.len(),
    ensures
        r == find_char(v@, c, i as int),
        i <= r <= v.len(),
{
    let mut k = i;
    while k < v.len() && v[k] != c
        invariant
            i <= k <= v.len(),
            find_char(v@, c, i as int) == find_char(v@, c, k as int),
        decreases v.len() - k,
    {
        k = k + 1;
    }
    k
}

/// The text split at `:` into the modifiers part (empty when there is no
/// colon) and the amounts part; `None` when there is more than one colon.
pub open spec fn split_colon(s: Seq<char>) -> Option<(Seq<char>, Seq<char>)> {
    let k = find_char(s, ':', 0);
    if k >= s.len() {
        Some((Seq::empty(), s))
    } else if find_char(s, ':', k + 1) < s.len() {
        None
    } else {
        Some((s.subrange(0, k), s.subrange(k + 1, s.len() as int)))
    }
}

/// Splits `v` at its only colon, as [`split_colon`] describes.
pub fn split_colon_exec(v: &Vec<char>) -> (r: Option<(Vec<char>, Vec<char>)>)
    ensures
        match split_colon(v@) {
            None => r is None,
            Some((a, b)) => r matches Some((x, y)) && x@ == a && y@ == b,
        },
{
    let k = find_char_exec(v, ':', 0);
    if k >= v.len() {
        let all = sub_chars(v, 0, v.len());
        assert(all@ =~= v@);
        Some((Vec::new(), all))
    } else {
        let k2 = find_char_exec(v, ':', k + 1);
        if k2 < v.len() {
            None
        } else {
            Some((sub_chars(v, 0, k), sub_chars(v, k + 1, v.len())))
        }
    }
}

/// The result of `parse_dice_pool` on the text `input`: the amounts and the
/// modifiers, or the parsing error.
pub open spec fn spec_parse_dice_pool(input: Seq<char>) -> Result<(Seq<AmountModel>, DicePoolModifiers), DiceParsingError> {
    match split_colon(input) {
        None => Err(DiceParsingError::UnconsumedInput),
        Some((modifiers_str, amounts_str)) => match spec_parse_modifiers(modifiers_str) {
            Err(e) => Err(e),
            Ok(modifiers) => match spec_parse_amounts(amounts_str) {
                Err(e) => Err(e),
                Ok(amounts) => Ok((amounts, modifiers)),
            },
        },
    }
}

/// Parse a dice pool expression: `<modifiers>:<amounts>`, or just
/// `<amounts>`.
pub fn parse_dice_pool(input: &str) -> (r: Result<DicePool, BotError>)
    ensures
        match spec_parse_dice_pool(input@) {
            Ok((amounts, modifiers)) => r matches Ok(pool) && amounts_view(pool.amounts@) == amounts
                && pool.modifiers == modifiers && pool.sides == 10,
            Err(e) => r matches Err(BotError::DiceParsingError(f)) && f == e,
        },
{
    let v = chars_of(input);
    let (modifiers_str, amounts_str) = match split_colon_exec(&v) {
        Some(parts) => parts,
        None => {
            return Err(BotError::DiceParsingError(DiceParsingError::UnconsumedInput));
        },
    };
    let modifiers = match parse_modifiers_chars(&modifiers_str) {
        Ok(m) => m,
        Err(e) => {
            return Err(BotError::DiceParsingError(e));
        },
    };
    let amounts = match parse_amounts_chars(&amounts_str) {
        Ok(a) => a,
        Err(e) => {
            return Err(BotError::DiceParsingError(e));
        },
    };
    Ok(DicePool::new(amounts, modifiers))
}

/// The pool of a single chance die.
pub fn create_chance_die() -> (r: Result<DicePool, BotError>)
    ensures
        r matches Ok(pool) && pool.sides == 10 && pool.amounts@.len() == 1 && pool.amounts@[0]@
            == (AmountModel { operator: Operator::Plus, element: ElementModel::Number(1) })
            && pool.modifiers == (DicePoolModifiers {
            success_on: 10,
            exceptional_on: 5,
            quality: DicePoolQuality::ChanceDie,
        }),
{
    Ok(DicePool::chance_die())
}


proof fn lemma_run_end_at(s: Seq<char>, i: int, j: int, p: spec_fn(char) -> bool)
    requires
        0 <= i <= j <= s.len(),
        forall|k: int| i <= k < j ==> #[trigger] p(s[k]),
        j < s.len() ==> !p(s[j]),
    ensures
        run_end(s, i, p) == j,
    decreases j - i,
{
    if i < j {
        lemma_run_end_at(s, i + 1, j, p);
    }
}

proof fn lemma_run_start_back_at(s: Seq<char>, p: spec_fn(char) -> bool)
    requires
        s.len() > 0,
        !p(s.last()),
    ensures
        run_start_back(s, s.len() as int, p) == s.len(),
{
}

/// A quality letter and an exceptional threshold may come in either order:
/// for a quality letter `q` and a run of ASCII digits `d` that reads as the
/// number `k`, both `q s d` and `s d q` give the modifiers of that quality
/// with exceptional successes on `k`.
pub proof fn lemma_modifiers_in_either_order(q: char, d: Seq<char>, k: i32)
    requires
        quality_letter(q) is Some,
        d.len() >= 1,
        forall|i: int| 0 <= i < d.len() ==> #[trigger] is_ascii_digit(d[i]),
        parse_i32(d) == Some(k),
    ensures
        spec_parse_modifiers(seq![q, 's'] + d) == Ok::<DicePoolModifiers, DiceParsingError>(
            DicePoolModifiers { success_on: 8, exceptional_on: k, quality: quality_letter(q)->Some_0 },
        ),
        spec_parse_modifiers(seq!['s'] + d + seq![q]) == Ok::<DicePoolModifiers, DiceParsingError>(
            DicePoolModifiers { success_on: 8, exceptional_on: k, quality: quality_letter(q)->Some_0 },
        ),
{
    let ws = ws_pred();
    let dp = digit_pred();
    let n = d.len() as int;
    // q s d
    let s1 = seq![q, 's'] + d;
    assert(s1[0] == q);
    assert(s1[1] == 's');
    assert(forall|i: int| 2 <= i < s1.len() ==> #[trigger] s1[i] == d[i - 2]);
    assert(is_ascii_digit(s1[s1.len() - 1]));
    lemma_run_end_at(s1, 0, 0, ws);
    lemma_run_start_back_at(s1, ws);
    assert(trim(s1) =~= s1);
    lemma_run_end_at(s1, 1, 1, ws);
    assert forall|i: int| 2 <= i < s1.len() implies #[trigger] dp(s1[i]) by {
        assert(is_ascii_digit(d[i - 2]));
    }
    lemma_run_end_at(s1, 2, s1.len() as int, dp);
    assert(s1.subrange(2, s1.len() as int) =~= d);
    lemma_run_end_at(s1, s1.len() as int, s1.len() as int, ws);
    assert(modifier_at(s1, 0) == ModifierScan::Item(ParsedInfo::Quality(quality_letter(q)->Some_0), 1));
    assert(modifier_at(s1, 1) == ModifierScan::Item(ParsedInfo::ExceptionalOn(k), s1.len() as int));
    // s d q
    let s2 = seq!['s'] + d + seq![q];
    let e = n + 1;
    assert(s2[0] == 's');
    assert(s2[e] == q);
    assert(forall|i: int| 1 <= i < e ==> #[trigger] s2[i] == d[i - 1]);
    lemma_run_end_at(s2, 0, 0, ws);
    lemma_run_start_back_at(s2, ws);
    assert(trim(s2) =~= s2);
    assert(is_ascii_digit(s2[1]));
    assert forall|i: int| 1 <= i < e implies #[trigger] dp(s2[i]) by {
        assert(is_ascii_digit(d[i - 1]));
    }
    lemma_run_end_at(s2, 1, e, dp);
    assert(s2.subrange(1, e) =~= d);
    lemma_run_end_at(s2, e, e, ws);
    lemma_run_end_at(s2, e + 1, e + 1, ws);
    assert(modifier_at(s2, 0) == ModifierScan::Item(ParsedInfo::ExceptionalOn(k), e));
    assert(modifier_at(s2, e) == ModifierScan::Item(ParsedInfo::Quality(quality_letter(q)->Some_0), e + 1));
}

}
