//! The grammar of basic dice expressions: an element, then any number of
//! `+` or `-` and an element, where an element is `<count>d<sides>` or a
//! number, with whitespace allowed before elements and signs.
use crate::basic::dice::{Dice, Element, ElementExpression, SignedElement};
use crate::parser::{decimal_value, lemma_decimal_value_nonneg};
use crate::text::{all_in, digit_end_exec, digit_pred, lemma_run_end, run_end, ws_end_exec, ws_pred};
use vstd::prelude::*;

verus! {

/// The outcome of reading an element or a signed element at some position.
pub enum Scan<T> {
    /// Nothing of the kind starts there.
    NoMatch,
    /// A number was read that does not fit a `u32`.
    TooLarge,
    /// The item read, and the position after it.
    Found(T, int),
}

/// The `u32` value of the digits of `s` in `[from, to)`, if it fits.
pub open spec fn digits_u32(s: Seq<char>, from: int, to: int) -> Option<u32> {
    let v = decimal_value(s.subrange(from, to));
    if v <= u32::MAX {
        Some(v as u32)
    } else {
        None
    }
}

/// The element at position `i`, after any whitespace: `<count>d<sides>`
/// when a `d` and digits follow the first digits, else a bonus number.
pub open spec fn element_at(s: Seq<char>, i: int) -> Scan<Element> {
    let j = run_end(s, i, ws_pred());
    let d1 = run_end(s, j, digit_pred());
    if d1 == j {
        Scan::NoMatch
    } else if d1 < s.len() && s[d1] == 'd' && run_end(s, d1 + 1, digit_pred()) > d1 + 1 {
        let d2 = run_end(s, d1 + 1, digit_pred());
        match (digits_u32(s, j, d1), digits_u32(s, d1 + 1, d2)) {
            (Some(count), Some(sides)) => Scan::Found(Element::Dice(Dice { count, sides }), d2),
            _ => Scan::TooLarge,
        }
    } else {
        match digits_u32(s, j, d1) {
            Some(b) => Scan::Found(Element::Bonus(b), d1),
            None => Scan::TooLarge,
        }
    }
}

/// The signed element at position `i`: whitespace, `+` or `-`, and an
/// element.
pub open spec fn signed_at(s: Seq<char>, i: int) -> Scan<SignedElement> {
    let j = run_end(s, i, ws_pred());
    if j < s.len() && (s[j] == '+' || s[j] == '-') {
        match element_at(s, j + 1) {
            Scan::NoMatch => Scan::NoMatch,
            Scan::TooLarge => Scan::TooLarge,
            Scan::Found(e, k) => Scan::Found(
                if s[j] == '+' {
                    SignedElement::Positive(e)
                } else {
                    SignedElement::Negative(e)
                },
                k,
            ),
        }
    } else {
        Scan::NoMatch
    }
}

/// The signed elements read one after another from position `i`, and the
/// position where reading stopped; `None` when a number does not fit.
pub open spec fn signed_from(s: Seq<char>, i: int) -> Option<(Seq<SignedElement>, int)>
    decreases s.len() - i,
{
    match signed_at(s, i) {
        Scan::NoMatch => Some((Seq::empty(), i)),
        Scan::TooLarge => None,
        Scan::Found(se, k) => if i < k <= s.len() {
            match signed_from(s, k) {
                None => None,
                Some((rest, end)) => Some((seq![se] + rest, end)),
            }
        } else {
            Some((Seq::empty(), i))
        },
    }
}

/// How reading a whole expression can fail.
#[derive(Debug, Clone, Copy, PartialEq, Eq, Structural)]
pub enum ExpressionError {
    /// The text does not start with an element, or a number does not fit.
    Invalid,
    /// An expression was read but text is left after it.
    Incomplete,
}

/// The expression of the text `s`: its signed elements, the first one
/// positive, and the position after them.
pub open spec fn expression_of(s: Seq<char>) -> Option<(Seq<SignedElement>, int)> {
    match element_at(s, 0) {
        Scan::Found(e, k) => match signed_from(s, k) {
            Some((rest, end)) => Some((seq![SignedElement::Positive(e)] + rest, end)),
            None => None,
        },
        _ => None,
    }
}

/// The result of parsing all of `s` as a dice expression.
pub open spec fn spec_parse_expression(s: Seq<char>) -> Result<Seq<SignedElement>, ExpressionError> {
    match expression_of(s) {
        None => Err(ExpressionError::Invalid),
        Some((elements, end)) => if end == s.len() {
            Ok(elements)
        } else {
            Err(ExpressionError::Incomplete)
        },
    }
}

proof fn lemma_element_at(s: Seq<char>, i: int)
    requires
        0 <= i <= s.len(),
    ensures
        element_at(s, i) matches Scan::Found(_, k) ==> i < k <= s.len(),
{
    lemma_run_end(s, i, ws_pred());
    let j = run_end(s, i, ws_pred());
    lemma_run_end(s, j, digit_pred());
    let d1 = run_end(s, j, digit_pred());
    if d1 < s.len() {
        lemma_run_end(s, d1 + 1, digit_pred());
    }
}

proof fn lemma_signed_at(s: Seq<char>, i: int)
    requires
        0 <= i <= s.len(),
    ensures
        signed_at(s, i) matches Scan::Found(_, k) ==> i < k <= s.len(),
{
    lemma_run_end(s, i, ws_pred());
    let j = run_end(s, i, ws_pred());
    if j < s.len() {
        lemma_element_at(s, j + 1);
    }
}

/// Whitespace before a sign is optional: a sign right at position `i`
/// starts a signed element (positive for `+`, negative for `-`) made of the
/// element after it, and whitespace at `i` is skipped, so reading from `i`
/// gives what reading from `i + 1` does. Thus `1d4+3` reads as `1d4 + 3`.
pub proof fn lemma_sign_spacing(s: Seq<char>, i: int)
    requires
        0 <= i < s.len(),
    ensures
        (s[i] == '+' || s[i] == '-') ==> signed_at(s, i) == match element_at(s, i + 1) {
            Scan::NoMatch => Scan::<SignedElement>::NoMatch,
            Scan::TooLarge => Scan::<SignedElement>::TooLarge,
            Scan::Found(e, k) => Scan::Found(
                if s[i] == '+' {
                    SignedElement::Positive(e)
                } else {
                    SignedElement::Negative(e)
                },
                k,
            ),
        },
        ws_pred()(s[i]) ==> signed_at(s, i) == signed_at(s, i + 1),
{
    if s[i] == '+' || s[i] == '-' {
        assert(!ws_pred()(s[i]));
        assert(run_end(s, i, ws_pred()) == i);
    }
}

/// The `u32` value of the digits of `v` in `[from, to)`, if it fits.
fn digits_u32_exec(v: &Vec<char>, from: usize, to: usize) -> (r: Option<u32>)
    requires
        from <= to <= v.len(),
        all_in(v@, from as int, to as int, digit_pred()),
    ensures
        r == digits_u32(v@, from as int, to as int),
{
    let cap: u64 = 0x1_0000_0000;
    let mut acc: u64 = 0;
    let mut k = from;
    while k < to
        invariant
            from <= k <= to <= v.len(),
            all_in(v@, from as int, to as int, digit_pred()),
            cap == u32::MAX + 1,
            0 <= acc <= cap,
            acc == (if decimal_value(v@.subrange(from as int, k as int)) > u32::MAX {
                cap as int
            } else {
                decimal_value(v@.subrange(from as int, k as int))
            }),
        decreases to - k,
    {
        let ghost pre = v@.subrange(from as int, k as int);
        let ghost post = v@.subrange(from as int, k + 1);
        assert(post.drop_last() =~= pre);
        assert(post.last() == v@[k as int]);
        assert(digit_pred()(v@[k as int]));
        assert(all_in(pre, 0, pre.len() as int, digit_pred())) by {
            assert forall|j: int| 0 <= j < pre.len() implies #[trigger] digit_pred()(pre[j]) by {
                assert(digit_pred()(v@[from + j]));
            }
        }
        proof {
            lemma_decimal_value_nonneg(pre);
        }
        let d = (v[k] as u32 - '0' as u32) as u64;
        if acc == cap {
            assert(decimal_value(post) > u32::MAX) by (nonlinear_arith)
                requires
                    decimal_value(post) == decimal_value(pre) * 10 + d,
                    decimal_value(pre) > u32::MAX,
                    d >= 0,
            ;
        } else {
            let x = acc * 10 + d;
            if x > 0xffff_ffffu64 {
                acc = cap;
            } else {
                acc = x;
            }
        }
        k = k + 1;
    }
    if acc == cap {
        None
    } else {
        Some(acc as u32)
    }
}

/// The element at position `i` of `v`, as [`element_at`] states.
fn element_at_exec(v: &Vec<char>, i: usize) -> (r: Option<Option<(Element, usize)>>)
    requires
        i <= v.len(),
    ensures
        match element_at(v@, i as int) {
            Scan::NoMatch => r is None,
            Scan::TooLarge => r matches Some(None),
            Scan::Found(e, k) => r matches Some(Some((f, m))) && f == e && m == k,
        },
{
    let j = ws_end_exec(v, i);
    proof {
        lemma_run_end(v@, i as int, ws_pred());
    }
    let d1 = digit_end_exec(v, j);
    proof {
        lemma_run_end(v@, j as int, digit_pred());
    }
    if d1 == j {
        return None;
    }
    if d1 < v.len() && v[d1] == 'd' {
        let d2 = digit_end_exec(v, d1 + 1);
        proof {
            lemma_run_end(v@, d1 + 1, digit_pred());
        }
        if d2 > d1 + 1 {
            let count = digits_u32_exec(v, j, d1);
            let sides = digits_u32_exec(v, d1 + 1, d2);
            return match (count, sides) {
                (Some(count), Some(sides)) => Some(Some((Element::Dice(Dice { count, sides }), d2))),
                _ => Some(None),
            };
        }
    }
    match digits_u32_exec(v, j, d1) {
        Some(b) => Some(Some((Element::Bonus(b), d1))),
        None => Some(None),
    }
}

/// The signed element at position `i` of `v`, as [`signed_at`] states.
fn signed_at_exec(v: &Vec<char>, i: usize) -> (r: Option<Option<(SignedElement, usize)>>)
    requires
        i <= v.len(),
    ensures
        match signed_at(v@, i as int) {
            Scan::NoMatch => r is None,
            Scan::TooLarge => r matches Some(None),
            Scan::Found(e, k) => r matches Some(Some((f, m))) && f == e && m == k,
        },
{
    let j = ws_end_exec(v, i);
    proof {
        lemma_run_end(v@, i as int, ws_pred());
    }
    if j < v.len() && (v[j] == '+' || v[j] == '-') {
        let plus = v[j] == '+';
        match element_at_exec(v, j + 1) {
            None => None,
            Some(None) => Some(None),
            Some(Some((e, k))) => Some(Some((
                if plus {
                    SignedElement::Positive(e)
                } else {
                    SignedElement::Negative(e)
                },
                k,
            ))),
        }
    } else {
        None
    }
}

/// Parse a basic dice expression from the text `v`: the elements and the
/// position where the expression ends, or `None` when the text does not
/// start with an element or a number does not fit a `u32`.
pub fn parse_element_expression(v: &Vec<char>) -> (r: Option<(ElementExpression, usize)>)
    ensures
        match expression_of(v@) {
            None => r is None,
            Some((elements, end)) => r matches Some((e, k)) && e.0@ == elements && k == end,
        },
{
    let (first, mut pos) = match element_at_exec(v, 0) {
        Some(Some(found)) => found,
        _ => {
            return None;
        },
    };
    proof {
        lemma_element_at(v@, 0);
    }
    let ghost start = pos as int;
    let mut elements: Vec<SignedElement> = Vec::new();
    elements.push(SignedElement::Positive(first));
    loop
        invariant
            0 < start <= pos <= v@.len(),
            element_at(v@, 0) matches Scan::Found(e0, k0) && k0 == start && elements@[0]
                == SignedElement::Positive(e0),
            elements@.len() >= 1,
            signed_from(v@, start) == (match signed_from(v@, pos as int) {
                None => None,
                Some((rest, end)) => Some((elements@.drop_first() + rest, end)),
            }),
        decreases v@.len() - pos,
    {
        proof {
            lemma_signed_at(v@, pos as int);
        }
        match signed_at_exec(v, pos) {
            None => {
                proof {
                    assert(elements@.drop_first() + Seq::<SignedElement>::empty() =~= elements@.drop_first());
                    assert(seq![elements@[0]] + elements@.drop_first() =~= elements@);
                }
                return Some((ElementExpression(elements), pos));
            },
            Some(None) => {
                return None;
            },
            Some(Some((se, k))) => {
                proof {
                    let old_e = elements@;
                    assert forall|rest: Seq<SignedElement>|
                        old_e.drop_first() + (seq![se] + rest) =~= old_e.push(se).drop_first()
                            + rest by {}
                }
                elements.push(se);
                pos = k;
            },
        }
    }
}

}
