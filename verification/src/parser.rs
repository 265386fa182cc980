//! The common grammar of dice amounts: an expression of numbers and
//! variable names joined by `+` and `-`, such as `8`, `10 + myvar` or
//! `myvar - 3`.
use crate::text::{
    all_in, alpha_end_exec, alpha_pred, char_is_alphabetic, char_is_numeric, digit_end_exec,
    digit_pred, is_alphabetic, lemma_all_in_extend, is_ascii_digit, is_ascii_digit_exec, is_numeric, lemma_run_end,
    run_end, string_of, trim, trim_chars, trimmed_chars, ws_end_exec, ws_pred,
};
use vstd::prelude::*;

verus! {

/// The kind of failure reported when the text does not follow the grammar.
#[derive(Debug, Clone, Copy, PartialEq, Eq, Structural)]
pub enum StreamError {
    UnexpectedParse,
    Eoi,
    CharacterBoundary,
}

/// Errors for dice parsing.
#[derive(Debug, Clone, Copy, PartialEq, Eq, Structural)]
pub enum DiceParsingError {
    InvalidAmount,
    InvalidModifiers,
    UnconsumedInput,
    InternalParseError(StreamError),
    ConversionError,
    WrongElementType,
}

/// A parsed operator for a number. Whether to add or remove it from
/// the total amount of dice rolled.
#[derive(Debug, PartialEq, Eq, Clone, Copy, Structural)]
pub enum Operator {
    Plus,
    Minus,
}

impl Operator {
    /// The multiplier of the operator: 1 for plus, -1 for minus.
    pub open spec fn spec_mult(self) -> int {
        match self {
            Operator::Plus => 1,
            Operator::Minus => -1,
        }
    }

    /// Calculate multiplier for how to convert the number. Returns 1
    /// for positive, and -1 for negative.
    pub fn mult(&self) -> (r: i32)
        ensures
            r == self.spec_mult(),
    {
        match self {
            Operator::Plus => 1,
            Operator::Minus => -1,
        }
    }
}

/// One part of the dice amount in an expression. Can be a number or a
/// variable name.
#[derive(Debug, PartialEq, Eq, Clone)]
pub enum Element {
    /// This element in the expression is a variable, which will be
    /// resolved to a number by consulting the database.
    Variable(String),
    /// This element is a simple number, and will be added or
    /// subtracted from the total dice amount depending on its
    /// corresponding Operator.
    Number(i32),
}

/// The mathematical value of an [`Element`].
pub enum ElementModel {
    Variable(Seq<char>),
    Number(i32),
}

impl View for Element {
    type V = ElementModel;

    open spec fn view(&self) -> ElementModel {
        match self {
            Element::Variable(name) => ElementModel::Variable(name@),
            Element::Number(n) => ElementModel::Number(*n),
        }
    }
}

/// One part of the parsed dice rolling expression: an operator and an
/// element. Examples would be "+4" or "- myvariable".
#[derive(Debug, PartialEq, Eq, Clone)]
pub struct Amount {
    pub operator: Operator,
    pub element: Element,
}

/// The mathematical value of an [`Amount`].
pub struct AmountModel {
    pub operator: Operator,
    pub element: ElementModel,
}

impl View for Amount {
    type V = AmountModel;

    open spec fn view(&self) -> AmountModel {
        AmountModel { operator: self.operator, element: self.element@ }
    }
}

/// The values of a sequence of amounts.
pub open spec fn amounts_view(v: Seq<Amount>) -> Seq<AmountModel> {
    v.map_values(|a: Amount| a@)
}

pub open spec fn element_result_view(r: Result<Element, DiceParsingError>) -> Result<
    ElementModel,
    DiceParsingError,
> {
    match r {
        Ok(e) => Ok(e@),
        Err(e) => Err(e),
    }
}

pub open spec fn amount_result_view(r: Result<Amount, DiceParsingError>) -> Result<
    AmountModel,
    DiceParsingError,
> {
    match r {
        Ok(a) => Ok(a@),
        Err(e) => Err(e),
    }
}

pub open spec fn amounts_result_view(r: Result<Vec<Amount>, DiceParsingError>) -> Result<
    Seq<AmountModel>,
    DiceParsingError,
> {
    match r {
        Ok(v) => Ok(amounts_view(v@)),
        Err(e) => Err(e),
    }
}

/// The value of a string of decimal digits.
pub open spec fn decimal_value(s: Seq<char>) -> int
    decreases s.len(),
{
    if s.len() == 0 {
        0
    } else {
        decimal_value(s.drop_last()) * 10 + (s.last() as int - '0' as int)
    }
}

/// The `i32` that a run of characters denotes, when it is a non-empty run of
/// ASCII digits whose value fits in an `i32`.
pub open spec fn parse_i32(s: Seq<char>) -> Option<i32> {
    if s.len() > 0 && all_in(s, 0, s.len() as int, digit_pred()) && decimal_value(s) <= i32::MAX {
        Some(decimal_value(s) as i32)
    } else {
        None
    }
}

/// Numeric characters, as a predicate.
pub open spec fn numeric_pred() -> spec_fn(char) -> bool {
    |c: char| is_numeric(c)
}

/// The element that the characters of `s` in `[from, to)` denote: a number
/// when every character is numeric, a variable name otherwise.
pub open spec fn element_of(s: Seq<char>, from: int, to: int) -> Result<ElementModel, DiceParsingError> {
    if all_in(s, from, to, numeric_pred()) {
        match parse_i32(s.subrange(from, to)) {
            Some(n) => Ok(ElementModel::Number(n)),
            None => Err(DiceParsingError::ConversionError),
        }
    } else {
        Ok(ElementModel::Variable(s.subrange(from, to)))
    }
}

/// The element that starts at `i`: a run of letters, or else a run of
/// digits, with the position where it ends.
pub open spec fn element_at(s: Seq<char>, i: int) -> Option<(Result<ElementModel, DiceParsingError>, int)> {
    if 0 <= i < s.len() && is_alphabetic(s[i]) {
        let e = run_end(s, i, alpha_pred());
        Some((element_of(s, i, e), e))
    } else if 0 <= i < s.len() && is_ascii_digit(s[i]) {
        let e = run_end(s, i, digit_pred());
        Some((element_of(s, i, e), e))
    } else {
        None
    }
}

pub open spec fn with_operator(op: Operator, r: Result<ElementModel, DiceParsingError>) -> Result<
    AmountModel,
    DiceParsingError,
> {
    match r {
        Ok(e) => Ok(AmountModel { operator: op, element: e }),
        Err(x) => Err(x),
    }
}

/// The operator written at `i`, if any.
pub open spec fn sign_at(s: Seq<char>, i: int) -> Option<Operator> {
    if 0 <= i < s.len() && s[i] == '+' {
        Some(Operator::Plus)
    } else if 0 <= i < s.len() && s[i] == '-' {
        Some(Operator::Minus)
    } else {
        None
    }
}

/// The outcome of reading the signed amounts that follow the first one.
pub enum AmountScan {
    /// An operator was read, but no element follows it.
    Failed,
    /// The amounts read, and the position where reading stopped.
    Scanned(Seq<Result<AmountModel, DiceParsingError>>, int),
}

/// Read signed amounts (`+ x`, `- 3`) from `i` on, each followed by optional
/// whitespace, until no operator follows.
pub open spec fn scan_amounts(s: Seq<char>, i: int) -> AmountScan
    decreases s.len() - i,
    via scan_amounts_decreases
{
    match sign_at(s, i) {
        None => AmountScan::Scanned(Seq::empty(), i),
        Some(op) => {
            let p1 = run_end(s, i + 1, ws_pred());
            match element_at(s, p1) {
                None => AmountScan::Failed,
                Some((r, p2)) => {
                    let p3 = run_end(s, p2, ws_pred());
                    match scan_amounts(s, p3) {
                        AmountScan::Failed => AmountScan::Failed,
                        AmountScan::Scanned(items, end) => AmountScan::Scanned(
                            seq![with_operator(op, r)] + items,
                            end,
                        ),
                    }
                },
            }
        },
    }
}

pub proof fn lemma_element_at(s: Seq<char>, i: int)
    ensures
        element_at(s, i) matches Some((r, e)) ==> 0 <= i < e <= s.len(),
{
    if 0 <= i < s.len() && is_alphabetic(s[i]) {
        lemma_run_end(s, i, alpha_pred());
        assert(run_end(s, i, alpha_pred()) == run_end(s, i + 1, alpha_pred()));
        lemma_run_end(s, i + 1, alpha_pred());
    } else if 0 <= i < s.len() && is_ascii_digit(s[i]) {
        assert(run_end(s, i, digit_pred()) == run_end(s, i + 1, digit_pred()));
        lemma_run_end(s, i + 1, digit_pred());
    }
}

#[via_fn]
proof fn scan_amounts_decreases(s: Seq<char>, i: int) {
    if let Some(op) = sign_at(s, i) {
        lemma_run_end(s, i + 1, ws_pred());
        let p1 = run_end(s, i + 1, ws_pred());
        lemma_element_at(s, p1);
        if let Some((r, p2)) = element_at(s, p1) {
            lemma_run_end(s, p2, ws_pred());
        }
    }
}

/// The first amount of an expression: an element with an implied plus,
/// followed by optional whitespace.
pub open spec fn first_amount(s: Seq<char>) -> Option<(Result<AmountModel, DiceParsingError>, int)> {
    match element_at(s, 0) {
        None => None,
        Some((r, e)) => Some((with_operator(Operator::Plus, r), run_end(s, e, ws_pred()))),
    }
}

/// The amounts of a list of results when all succeeded, or else the first error.
pub open spec fn collect_results(items: Seq<Result<AmountModel, DiceParsingError>>) -> Result<
    Seq<AmountModel>,
    DiceParsingError,
>
    decreases items.len(),
{
    if items.len() == 0 {
        Ok(Seq::empty())
    } else {
        match collect_results(items.drop_last()) {
            Err(e) => Err(e),
            Ok(prev) => match items.last() {
                Err(e) => Err(e),
                Ok(a) => Ok(prev.push(a)),
            },
        }
    }
}

/// What parsing the amounts of `s` gives once the whole text has been read:
/// a grammar failure, leftover text, or the collected element results.
pub open spec fn finish_amounts(
    s: Seq<char>,
    acc: Seq<Result<AmountModel, DiceParsingError>>,
    scan: AmountScan,
) -> Result<Seq<AmountModel>, DiceParsingError> {
    match scan {
        AmountScan::Failed => Err(DiceParsingError::InternalParseError(StreamError::UnexpectedParse)),
        AmountScan::Scanned(items, end) => if end < s.len() {
            Err(DiceParsingError::UnconsumedInput)
        } else {
            collect_results(acc + items)
        },
    }
}

/// The result of parsing an expression of amounts in `s` (already trimmed).
pub open spec fn amounts_of(s: Seq<char>) -> Result<Seq<AmountModel>, DiceParsingError> {
    match first_amount(s) {
        None => Err(DiceParsingError::InternalParseError(StreamError::UnexpectedParse)),
        Some((r, p)) => finish_amounts(s, seq![r], scan_amounts(s, p)),
    }
}

/// The result of `parse_amounts` on the text `input`.
pub open spec fn spec_parse_amounts(input: Seq<char>) -> Result<Seq<AmountModel>, DiceParsingError> {
    amounts_of(trim(input))
}

/// The result of `parse_single_amount` on the text `input`.
pub open spec fn spec_parse_single_amount(input: Seq<char>) -> Result<AmountModel, DiceParsingError> {
    let s = trim(input);
    match first_amount(s) {
        None => Err(DiceParsingError::InternalParseError(StreamError::UnexpectedParse)),
        Some((r, p)) => if p < s.len() {
            Err(DiceParsingError::UnconsumedInput)
        } else {
            r
        },
    }
}

pub proof fn lemma_decimal_value_nonneg(s: Seq<char>)
    requires
        all_in(s, 0, s.len() as int, digit_pred()),
    ensures
        decimal_value(s) >= 0,
    decreases s.len(),
{
    if s.len() > 0 {
        let t = s.drop_last();
        assert(all_in(t, 0, t.len() as int, digit_pred())) by {
            assert forall|k: int| 0 <= k < t.len() implies #[trigger] digit_pred()(t[k]) by {
                assert(digit_pred()(s[k]));
            }
        }
        lemma_decimal_value_nonneg(t);
        assert(digit_pred()(s[s.len() - 1]));
    }
}

/// The `i32` denoted by the characters of `v` in `[from, to)`.
pub(crate) fn parse_i32_range(v: &Vec<char>, from: usize, to: usize) -> (r: Option<i32>)
    requires
        from < to <= v.len(),
    ensures
        r == parse_i32(v@.subrange(from as int, to as int)),
{
    let ghost s = v@.subrange(from as int, to as int);
    let mut k = from;
    while k < to
        invariant
            from <= k <= to <= v.len(),
            s == v@.subrange(from as int, to as int),
            all_in(v@, from as int, k as int, digit_pred()),
        decreases to - k,
    {
        if !is_ascii_digit_exec(v[k]) {
            assert(!digit_pred()(s[k - from]));
            return None;
        }
        k = k + 1;
    }
    assert(all_in(s, 0, s.len() as int, digit_pred())) by {
        assert forall|j: int| 0 <= j < s.len() implies #[trigger] digit_pred()(s[j]) by {
            assert(digit_pred()(v@[from + j]));
        }
    }
    let cap: i64 = 2147483648;
    let mut acc: i64 = 0;
    let mut k = from;
    while k < to
        invariant
            from <= k <= to <= v.len(),
            s == v@.subrange(from as int, to as int),
            all_in(s, 0, s.len() as int, digit_pred()),
            cap == i32::MAX + 1,
            0 <= acc <= cap,
            acc == (if decimal_value(v@.subrange(from as int, k as int)) > i32::MAX {
                cap as int
            } else {
                decimal_value(v@.subrange(from as int, k as int))
            }),
        decreases to - k,
    {
        let ghost pre = v@.subrange(from as int, k as int);
        let ghost post = v@.subrange(from as int, k + 1);
        assert(post.drop_last() =~= pre);
        assert(post.last() == v@[k as int]);
        assert(digit_pred()(s[k - from]));
        assert(all_in(pre, 0, pre.len() as int, digit_pred())) by {
            assert forall|j: int| 0 <= j < pre.len() implies #[trigger] digit_pred()(pre[j]) by {
                assert(digit_pred()(s[j]));
            }
        }
        proof {
            lemma_decimal_value_nonneg(pre);
        }
        let d = (v[k] as u32 - '0' as u32) as i64;
        if acc == cap {
            assert(decimal_value(post) > i32::MAX) by (nonlinear_arith)
                requires
                    decimal_value(post) == decimal_value(pre) * 10 + d,
                    decimal_value(pre) > i32::MAX,
                    d >= 0,
            ;
        } else {
            let x = acc * 10 + d;
            if x > i32::MAX as i64 {
                acc = cap;
            } else {
                acc = x;
            }
        }
        k = k + 1;
    }
    assert(v@.subrange(from as int, k as int) =~= s);
    if acc == cap {
        None
    } else {
        Some(acc as i32)
    }
}

/// The element denoted by the characters of `v` in `[from, to)`.
fn element_value(v: &Vec<char>, from: usize, to: usize) -> (r: Result<Element, DiceParsingError>)
    requires
        from < to <= v.len(),
    ensures
        element_result_view(r) == element_of(v@, from as int, to as int),
{
    let mut all_numeric = true;
    let mut k = from;
    while k < to
        invariant
            from <= k <= to <= v.len(),
            all_numeric == all_in(v@, from as int, k as int, numeric_pred()),
        decreases to - k,
    {
        proof {
            lemma_all_in_extend(v@, from as int, k as int, numeric_pred());
        }
        if !char_is_numeric(v[k]) {
            all_numeric = false;
        }
        k = k + 1;
    }
    if all_numeric {
        match parse_i32_range(v, from, to) {
            Some(n) => Ok(Element::Number(n)),
            None => Err(DiceParsingError::ConversionError),
        }
    } else {
        Ok(Element::Variable(string_of(v, from, to)))
    }
}

/// The element that starts at `i`, with the position where it ends.
fn element_at_exec(v: &Vec<char>, i: usize) -> (r: Option<(Result<Element, DiceParsingError>, usize)>)
    requires
        i <= v.len(),
    ensures
        match element_at(v@, i as int) {
            None => r is None,
            Some((m, e)) => r matches Some((x, e2)) && e2 == e && element_result_view(x) == m,
        },
{
    proof {
        lemma_element_at(v@, i as int);
    }
    if i < v.len() && char_is_alphabetic(v[i]) {
        let e = alpha_end_exec(v, i);
        Some((element_value(v, i, e), e))
    } else if i < v.len() && is_ascii_digit_exec(v[i]) {
        let e = digit_end_exec(v, i);
        Some((element_value(v, i, e), e))
    } else {
        None
    }
}

fn with_operator_exec(op: Operator, r: Result<Element, DiceParsingError>) -> (a: Result<Amount, DiceParsingError>)
    ensures
        amount_result_view(a) == with_operator(op, element_result_view(r)),
{
    match r {
        Ok(element) => Ok(Amount { operator: op, element }),
        Err(e) => Err(e),
    }
}

/// Reads the first amount of an expression.
fn first_amount_exec(v: &Vec<char>) -> (r: Option<(Result<Amount, DiceParsingError>, usize)>)
    ensures
        r matches Some((_, e)) ==> e <= v@.len(),
        match first_amount(v@) {
            None => r is None,
            Some((m, e)) => r matches Some((x, e2)) && e2 == e && amount_result_view(x) == m,
        },
{
    match element_at_exec(v, 0) {
        None => None,
        Some((r, e)) => {
            proof {
                lemma_element_at(v@, 0);
                lemma_run_end(v@, e as int, ws_pred());
            }
            let p = ws_end_exec(v, e);
            Some((with_operator_exec(Operator::Plus, r), p))
        },
    }
}

pub open spec fn prepend_scan(acc: Seq<Result<AmountModel, DiceParsingError>>, scan: AmountScan) -> AmountScan {
    match scan {
        AmountScan::Failed => AmountScan::Failed,
        AmountScan::Scanned(items, end) => AmountScan::Scanned(acc + items, end),
    }
}

/// Parses an expression of amounts in the characters `s`.
fn amounts_of_exec(s: &Vec<char>) -> (r: Result<Vec<Amount>, DiceParsingError>)
    ensures
        amounts_result_view(r) == amounts_of(s@),
{
    let (first, p) = match first_amount_exec(s) {
        None => {
            return Err(DiceParsingError::InternalParseError(StreamError::UnexpectedParse));
        },
        Some(x) => x,
    };
    let ghost r0 = amount_result_view(first);
    let ghost mut acc: Seq<Result<AmountModel, DiceParsingError>> = seq![r0];
    let mut amounts: Vec<Amount> = Vec::new();
    let mut first_err: Option<DiceParsingError> = None;
    match first {
        Ok(a) => amounts.push(a),
        Err(e) => first_err = Some(e),
    }
    proof {
        assert(acc.drop_last() =~= Seq::<Result<AmountModel, DiceParsingError>>::empty());
        reveal_with_fuel(collect_results, 2);
        if first_err is None {
            assert(amounts_view(amounts@) =~= Seq::<AmountModel>::empty().push(amounts@[0]@));
        }
    }
    let mut pos = p;
    loop
        invariant
            pos <= s.len(),
            amounts_of(s@) == finish_amounts(s@, acc, scan_amounts(s@, pos as int)),
            collect_results(acc) == (match first_err {
                Some(e) => Err(e),
                None => Ok(amounts_view(amounts@)),
            }),
        decreases s.len() - pos,
    {
        let op = if pos < s.len() && s[pos] == '+' {
            Operator::Plus
        } else if pos < s.len() && s[pos] == '-' {
            Operator::Minus
        } else {
            // No further operator: everything left over is unconsumed input.
            proof {
                assert(acc + Seq::<Result<AmountModel, DiceParsingError>>::empty() =~= acc);
            }
            if pos < s.len() {
                return Err(DiceParsingError::UnconsumedInput);
            }
            return match first_err {
                Some(e) => Err(e),
                None => Ok(amounts),
            };
        };
        let p1 = ws_end_exec(s, pos + 1);
        proof {
            lemma_run_end(s@, pos + 1, ws_pred());
        }
        match element_at_exec(s, p1) {
            None => {
                return Err(DiceParsingError::InternalParseError(StreamError::UnexpectedParse));
            },
            Some((r, p2)) => {
                proof {
                    lemma_element_at(s@, p1 as int);
                    lemma_run_end(s@, p2 as int, ws_pred());
                }
                let p3 = ws_end_exec(s, p2);
                let a = with_operator_exec(op, r);
                let ghost x = amount_result_view(a);
                proof {
                    let rest = scan_amounts(s@, p3 as int);
                    assert(scan_amounts(s@, pos as int) == prepend_scan(seq![x], rest));
                    match rest {
                        AmountScan::Failed => {},
                        AmountScan::Scanned(items, end) => {
                            assert(acc + (seq![x] + items) =~= acc.push(x) + items);
                        },
                    }
                    assert(acc.push(x).drop_last() =~= acc);
                }
                match a {
                    Ok(amount) => {
                        if first_err.is_none() {
                            let ghost before = amounts@;
                            amounts.push(amount);
                            proof {
                                assert(amounts_view(amounts@) =~= amounts_view(before).push(
                                    amount@,
                                ));
                            }
                        }
                    },
                    Err(e) => {
                        if first_err.is_none() {
                            first_err = Some(e);
                        }
                    },
                }
                proof {
                    acc = acc.push(x);
                }
                pos = p3;
            },
        }
    }
}


/// Parse an expression of numbers and/or variables into elements
/// coupled with operators, where an operator is "+" or "-", and an
/// element is either a number or variable name. The first element
/// should not have an operator, but every one after that should.
/// Accepts expressions like "8", "10 + variablename", "variablename -
/// 3", etc. Whitespace around the expression is ignored.
pub fn parse_amounts(input: &str) -> (r: Result<Vec<Amount>, DiceParsingError>)
    ensures
        amounts_result_view(r) == spec_parse_amounts(input@),
{
    let s = trimmed_chars(input);
    amounts_of_exec(&s)
}

/// Parse an expression that expects a single number or variable. No
/// operators are allowed, so negative numbers are not accepted.
pub fn parse_single_amount(input: &str) -> (r: Result<Amount, DiceParsingError>)
    ensures
        amount_result_view(r) == spec_parse_single_amount(input@),
{
    let s = trimmed_chars(input);
    match first_amount_exec(&s) {
        None => Err(DiceParsingError::InternalParseError(StreamError::UnexpectedParse)),
        Some((r, p)) => if p < s.len() {
            Err(DiceParsingError::UnconsumedInput)
        } else {
            r
        },
    }
}


/// Parses an expression of amounts in the characters `v`, ignoring
/// surrounding whitespace.
pub fn parse_amounts_chars(v: &Vec<char>) -> (r: Result<Vec<Amount>, DiceParsingError>)
    ensures
        amounts_result_view(r) == spec_parse_amounts(v@),
{
    let s = trim_chars(v);
    amounts_of_exec(&s)
}


/// Whitespace around an expression of amounts is ignored: parsing the
/// trimmed text gives what parsing the text gives.
pub proof fn lemma_parse_amounts_ignores_surrounding_whitespace(s: Seq<char>)
    ensures
        spec_parse_amounts(trim(s)) == spec_parse_amounts(s),
        spec_parse_single_amount(trim(s)) == spec_parse_single_amount(s),
{
    crate::text::lemma_trim_idempotent(s);
}

}
