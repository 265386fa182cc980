//! Basic dice expressions such as `1d4`, `1d4+3` or `2d8 + 4d6 - 3`, and
//! their rolls.
use crate::cofd::dice::{same_sides, DieRoller};
use crate::text::{decimal_string, push_decimal, push_str};
use vstd::prelude::*;

verus! {

/// A number of dice of the same kind: `count` dice with `sides` sides.
#[derive(Debug, Clone, Copy, PartialEq, Eq, Structural)]
pub struct Dice {
    pub count: u32,
    pub sides: u32,
}

/// One part of a dice expression: some dice, or a fixed bonus.
#[derive(Debug, Clone, Copy, PartialEq, Eq, Structural)]
pub enum Element {
    Dice(Dice),
    Bonus(u32),
}

/// An element with its sign: added to or taken from the total.
#[derive(Debug, Clone, Copy, PartialEq, Eq, Structural)]
pub enum SignedElement {
    Positive(Element),
    Negative(Element),
}

/// A whole dice expression: the first element and the signed elements that
/// follow it.
#[derive(Debug, Clone, PartialEq, Eq)]
pub struct ElementExpression(pub Vec<SignedElement>);

/// The text of an element: `<count>d<sides>` or the bonus.
pub open spec fn element_text(e: Element) -> Seq<char> {
    match e {
        Element::Dice(d) => decimal_string(d.count as int) + seq!['d'] + decimal_string(d.sides as int),
        Element::Bonus(b) => decimal_string(b as int),
    }
}

/// The text of the elements of `s`, each preceded by ` + ` or ` - `.
pub open spec fn tail_text(s: Seq<SignedElement>) -> Seq<char>
    decreases s.len(),
{
    if s.len() == 0 {
        Seq::empty()
    } else {
        let last = match s.last() {
            SignedElement::Positive(e) => " + "@ + element_text(e),
            SignedElement::Negative(e) => " - "@ + element_text(e),
        };
        tail_text(s.drop_last()) + last
    }
}

/// The text of an expression: the first element (with a `-` when it is
/// negative), then the others joined by their signs.
pub open spec fn expression_text(s: Seq<SignedElement>) -> Seq<char> {
    if s.len() == 0 {
        Seq::empty()
    } else {
        let head = match s[0] {
            SignedElement::Positive(e) => element_text(e),
            SignedElement::Negative(e) => seq!['-'] + element_text(e),
        };
        head + tail_text(s.drop_first())
    }
}

fn push_element(out: &mut String, e: &Element)
    ensures
        final(out)@ == old(out)@ + element_text(*e),
{
    match e {
        Element::Dice(d) => {
            push_decimal(out, d.count as i64);
            push_str(out, "d");
            push_decimal(out, d.sides as i64);
            proof {
                reveal_strlit("d");
                assert(final(out)@ =~= old(out)@ + element_text(*e));
            }
        },
        Element::Bonus(b) => {
            push_decimal(out, *b as i64);
        },
    }
}

impl ElementExpression {
    /// The expression as shown to users, such as `2d8 + 4d6 - 3`.
    pub fn describe(&self) -> (r: String)
        ensures
            r@ == expression_text(self.0@),
    {
        let mut out = String::new();
        let n = self.0.len();
        if n == 0 {
            return out;
        }
        match &self.0[0] {
            SignedElement::Positive(e) => push_element(&mut out, e),
            SignedElement::Negative(e) => {
                push_str(&mut out, "-");
                push_element(&mut out, e);
            },
        }
        proof {
            reveal_strlit("-");
        }
        let ghost head = out@;
        let mut i: usize = 1;
        while i < n
            invariant
                1 <= i <= n,
                n == self.0@.len(),
                out@ == head + tail_text(self.0@.subrange(1, i as int)),
            decreases n - i,
        {
            let ghost before = out@;
            match &self.0[i] {
                SignedElement::Positive(e) => {
                    push_str(&mut out, " + ");
                    push_element(&mut out, e);
                },
                SignedElement::Negative(e) => {
                    push_str(&mut out, " - ");
                    push_element(&mut out, e);
                },
            }
            proof {
                let t = self.0@.subrange(1, i + 1);
                assert(t.drop_last() =~= self.0@.subrange(1, i as int));
                assert(t.last() == self.0@[i as int]);
                assert(out@ =~= head + tail_text(t));
            }
            i = i + 1;
        }
        proof {
            assert(self.0@.subrange(1, n as int) =~= self.0@.drop_first());
        }
        out
    }
}

/// The largest value an element can roll to.
pub open spec fn element_max(e: Element) -> int {
    match e {
        Element::Dice(d) => d.count * d.sides,
        Element::Bonus(b) => b as int,
    }
}

/// Every element has dice with at least one side (and at most `i32::MAX`),
/// and its largest value fits an `i32`.
pub open spec fn rollable(s: Seq<SignedElement>) -> bool {
    forall|i: int| 0 <= i < s.len() ==> #[trigger] element_rollable(s[i])
}

/// The element can be rolled: its dice have sides and its largest value fits
/// an `i32`.
pub open spec fn element_rollable(se: SignedElement) -> bool {
    let e = match se {
        SignedElement::Positive(e) => e,
        SignedElement::Negative(e) => e,
    };
    &&& element_max(e) <= i32::MAX
    &&& e matches Element::Dice(d) ==> 1 <= d.sides
}

/// The sum of a sequence of numbers.
pub open spec fn seq_sum(s: Seq<i32>) -> int
    decreases s.len(),
{
    if s.len() == 0 {
        0
    } else {
        seq_sum(s.drop_last()) + s.last()
    }
}

/// Whether `values` can be the signed results of rolling the elements:
/// each lies between 0 and the element's largest value, negated for
/// negative elements.
pub open spec fn possible_roll(elements: Seq<SignedElement>, values: Seq<i32>) -> bool {
    &&& values.len() == elements.len()
    &&& forall|i: int| 0 <= i < elements.len() ==> match #[trigger] elements[i] {
        SignedElement::Positive(e) => 0 <= values[i] <= element_max(e),
        SignedElement::Negative(e) => -element_max(e) <= values[i] <= 0,
    }
}

/// The element of a signed element.
pub open spec fn unsigned(se: SignedElement) -> Element {
    match se {
        SignedElement::Positive(e) => e,
        SignedElement::Negative(e) => e,
    }
}

/// A value with the sign of the element: negated for a negative element.
pub open spec fn signed_value(se: SignedElement, x: int) -> int {
    match se {
        SignedElement::Positive(_) => x,
        SignedElement::Negative(_) => -x,
    }
}

/// How many dice an element rolls.
pub open spec fn element_draws(e: Element) -> int {
    match e {
        Element::Dice(d) => d.count as int,
        Element::Bonus(_) => 0,
    }
}

/// The number of sides asked for by each die an element rolls.
pub open spec fn element_sides(e: Element) -> Seq<i32> {
    match e {
        Element::Dice(d) => same_sides(d.sides as i32, d.count as int),
        Element::Bonus(_) => Seq::empty(),
    }
}

/// What an element comes to when its dice roll `rolls`: their sum, or the
/// bonus.
pub open spec fn element_value(e: Element, rolls: Seq<i32>) -> int {
    match e {
        Element::Dice(_) => seq_sum(rolls),
        Element::Bonus(b) => b as int,
    }
}

/// How many dice the elements roll together.
pub open spec fn draws_needed(s: Seq<SignedElement>) -> int
    decreases s.len(),
{
    if s.len() == 0 {
        0
    } else {
        draws_needed(s.drop_last()) + element_draws(unsigned(s.last()))
    }
}

/// The number of sides asked for by each die rolled for the elements, in
/// order.
pub open spec fn sides_needed(s: Seq<SignedElement>) -> Seq<i32>
    decreases s.len(),
{
    if s.len() == 0 {
        Seq::empty()
    } else {
        sides_needed(s.drop_last()) + element_sides(unsigned(s.last()))
    }
}

/// The signed value of each element when its dice, taken in order, roll
/// the numbers of `rolls` one after the other.
pub open spec fn rolled_values(s: Seq<SignedElement>, rolls: Seq<i32>) -> Seq<int>
    decreases s.len(),
{
    if s.len() == 0 {
        Seq::empty()
    } else {
        let k = draws_needed(s.drop_last());
        let e = unsigned(s.last());
        rolled_values(s.drop_last(), rolls).push(
            signed_value(s.last(), element_value(e, rolls.subrange(k, k + element_draws(e)))),
        )
    }
}

/// The sum of a sequence of integers.
pub open spec fn int_sum(s: Seq<int>) -> int
    decreases s.len(),
{
    if s.len() == 0 {
        0
    } else {
        int_sum(s.drop_last()) + s.last()
    }
}

/// The numbers as integers.
pub open spec fn as_ints(s: Seq<i32>) -> Seq<int> {
    s.map_values(|x: i32| x as int)
}

proof fn lemma_draws_nonneg(s: Seq<SignedElement>)
    ensures
        draws_needed(s) >= 0,
        forall|j: int| 0 <= j <= s.len() ==> draws_needed(#[trigger] s.take(j)) <= draws_needed(s),
    decreases s.len(),
{
    if s.len() > 0 {
        lemma_draws_nonneg(s.drop_last());
        assert forall|j: int| 0 <= j <= s.len() implies draws_needed(#[trigger] s.take(j)) <= draws_needed(s) by {
            if j < s.len() {
                assert(s.take(j) =~= s.drop_last().take(j));
            } else {
                assert(s.take(j) =~= s);
            }
        }
    }
}

/// The values only depend on the first `draws_needed` numbers rolled.
proof fn lemma_rolled_values_prefix(s: Seq<SignedElement>, a: Seq<i32>, b: Seq<i32>)
    requires
        draws_needed(s) <= a.len(),
        draws_needed(s) <= b.len(),
        a.take(draws_needed(s)) == b.take(draws_needed(s)),
    ensures
        rolled_values(s, a) == rolled_values(s, b),
    decreases s.len(),
{
    if s.len() > 0 {
        let t = s.drop_last();
        let k = draws_needed(t);
        let d = element_draws(unsigned(s.last()));
        lemma_draws_nonneg(t);
        assert(d >= 0);
        assert(a.take(k) =~= a.take(draws_needed(s)).take(k));
        assert(b.take(k) =~= b.take(draws_needed(s)).take(k));
        lemma_rolled_values_prefix(t, a, b);
        let n = draws_needed(s);
        assert(n == k + d);
        assert(a.subrange(k, k + d) =~= b.subrange(k, k + d)) by {
            assert forall|i: int| 0 <= i < d implies #[trigger] a.subrange(k, k + d)[i] == b.subrange(k, k + d)[i] by {
                assert(a.subrange(k, k + d)[i] == a[k + i]);
                assert(a[k + i] == a.take(n)[k + i]);
                assert(b[k + i] == b.take(n)[k + i]);
            }
        }
    }
}

proof fn lemma_rolled_values_len(s: Seq<SignedElement>, a: Seq<i32>)
    ensures
        rolled_values(s, a).len() == s.len(),
    decreases s.len(),
{
    if s.len() > 0 {
        lemma_rolled_values_len(s.drop_last(), a);
    }
}

/// Adding up numbers gives the same as adding them up as integers.
pub proof fn lemma_sum_as_ints(s: Seq<i32>)
    ensures
        seq_sum(s) == int_sum(as_ints(s)),
    decreases s.len(),
{
    if s.len() > 0 {
        lemma_sum_as_ints(s.drop_last());
        assert(as_ints(s).drop_last() =~= as_ints(s.drop_last()));
    }
}

/// Rolls `count` dice with `sides` sides and adds them up: the rolled numbers
/// are the new entries of the roller's history.
pub fn roll_dice<R: DieRoller>(d: &Dice, roller: &mut R) -> (r: u32)
    requires
        old(roller).fair(),
        1 <= d.sides,
        d.count * d.sides <= i32::MAX,
    ensures
        final(roller).fair(),
        final(roller).history().len() == old(roller).history().len() + d.count,
        final(roller).history().take(old(roller).history().len() as int) == old(roller).history(),
        r == seq_sum(final(roller).history().skip(old(roller).history().len() as int)),
        final(roller).sides_asked() == old(roller).sides_asked() + same_sides(d.sides as i32, d.count as int),
        d.count <= r <= d.count * d.sides,
{
    let ghost h0 = roller.history();
    let ghost a0 = roller.sides_asked();
    assert(a0 =~= a0 + same_sides(d.sides as i32, 0));
    let mut total: u32 = 0;
    let mut i: u32 = 0;
    while i < d.count
        invariant
            i <= d.count,
            1 <= d.sides,
            d.count * d.sides <= i32::MAX,
            roller.fair(),
            roller.history().len() == h0.len() + i,
            roller.history().take(h0.len() as int) == h0,
            total == seq_sum(roller.history().skip(h0.len() as int)),
            roller.sides_asked() == a0 + same_sides(d.sides as i32, i as int),
            i <= total <= i * d.sides,
        decreases d.count - i,
    {
        proof {
            assert(i * d.sides + d.sides <= d.count * d.sides) by (nonlinear_arith)
                requires
                    i < d.count,
            ;
        }
        let ghost before = roller.history();
        let x = roller.roll_number(d.sides as i32);
        proof {
            let h = roller.history();
            assert(h.take(h0.len() as int) =~= before.take(h0.len() as int));
            assert(h.skip(h0.len() as int).drop_last() =~= before.skip(h0.len() as int));
            assert((i + 1) * d.sides == i * d.sides + d.sides) by (nonlinear_arith);
            assert(roller.sides_asked() =~= a0 + same_sides(d.sides as i32, i + 1));
        }
        total = total + x as u32;
        i = i + 1;
    }
    proof {
        assert(i * d.sides == d.count * d.sides);
    }
    total
}

/// Rolls an element: its dice, or its bonus (which rolls nothing).
pub fn roll_element<R: DieRoller>(e: &Element, roller: &mut R) -> (r: u32)
    requires
        old(roller).fair(),
        element_max(*e) <= i32::MAX,
        e matches Element::Dice(d) ==> 1 <= d.sides,
    ensures
        final(roller).fair(),
        final(roller).history().take(old(roller).history().len() as int) == old(roller).history(),
        final(roller).history().len() == old(roller).history().len() + element_draws(*e),
        r == element_value(*e, final(roller).history().skip(old(roller).history().len() as int)),
        final(roller).sides_asked() == old(roller).sides_asked() + element_sides(*e),
        r <= element_max(*e),
{
    match e {
        Element::Dice(d) => roll_dice(d, roller),
        Element::Bonus(b) => {
            proof {
                assert(roller.history().take(roller.history().len() as int) =~= roller.history());
                assert(roller.sides_asked() =~= roller.sides_asked() + element_sides(*e));
            }
            *b
        },
    }
}

impl ElementExpression {
    /// Rolls every element of the expression and adds up the signed results:
    /// the result holds each element's signed value and the total.
    pub fn roll<R: DieRoller>(&self, roller: &mut R) -> (r: (Vec<i32>, i64))
        requires
            old(roller).fair(),
            rollable(self.0@),
            self.0@.len() <= u32::MAX,
        ensures
            final(roller).fair(),
            possible_roll(self.0@, r.0@),
            r.1 == seq_sum(r.0@),
            final(roller).history().take(old(roller).history().len() as int) == old(roller).history(),
            final(roller).history().len() == old(roller).history().len() + draws_needed(self.0@),
            final(roller).sides_asked() == old(roller).sides_asked() + sides_needed(self.0@),
            as_ints(r.0@) == rolled_values(
                self.0@,
                final(roller).history().skip(old(roller).history().len() as int),
            ),
    {
        let ghost h0 = roller.history();
        let ghost a0 = roller.sides_asked();
        proof {
            assert(self.0@.take(0) =~= Seq::<SignedElement>::empty());
            assert(roller.history().take(h0.len() as int) =~= h0);
            assert(a0 =~= a0 + sides_needed(self.0@.take(0)));
        }
        let mut values: Vec<i32> = Vec::new();
        let mut total: i64 = 0;
        let mut i: usize = 0;
        while i < self.0.len()
            invariant
                i <= self.0@.len(),
                roller.fair(),
                rollable(self.0@),
                self.0@.len() <= u32::MAX,
                values@.len() == i,
                total == seq_sum(values@),
                roller.history().take(h0.len() as int) == h0,
                roller.history().len() == h0.len() + draws_needed(self.0@.take(i as int)),
                roller.sides_asked() == a0 + sides_needed(self.0@.take(i as int)),
                as_ints(values@) == rolled_values(self.0@.take(i as int), roller.history().skip(h0.len() as int)),
                -i * i32::MAX <= total <= i * i32::MAX,
                forall|k: int| 0 <= k < i ==> match #[trigger] self.0@[k] {
                    SignedElement::Positive(e) => 0 <= values@[k] <= element_max(e),
                    SignedElement::Negative(e) => -element_max(e) <= values@[k] <= 0,
                },
            decreases self.0@.len() - i,
        {
            assert(element_rollable(self.0@[i as int]));
            let ghost h1 = roller.history();
            let ghost a1 = roller.sides_asked();
            let v: i32 = match &self.0[i] {
                SignedElement::Positive(e) => roll_element(e, roller) as i32,
                SignedElement::Negative(e) => -(roll_element(e, roller) as i32),
            };
            proof {
                assert(values@.push(v).drop_last() =~= values@);
                let t = self.0@.take(i + 1);
                let prev = self.0@.take(i as int);
                let e = unsigned(self.0@[i as int]);
                let h2 = roller.history();
                assert(t.drop_last() =~= prev);
                assert(t.last() == self.0@[i as int]);
                lemma_draws_nonneg(prev);
                let k = draws_needed(prev);
                let s1 = h1.skip(h0.len() as int);
                let s2 = h2.skip(h0.len() as int);
                assert(h2.take(h0.len() as int) =~= h1.take(h1.len() as int).take(h0.len() as int));
                assert(h1.take(h1.len() as int) =~= h1);
                assert(s2.take(k) =~= s1.take(k)) by {
                    assert forall|j: int| 0 <= j < k implies #[trigger] s2[j] == s1[j] by {
                        assert(h2[h0.len() + j] == h2.take(h1.len() as int)[h0.len() + j]);
                    }
                }
                lemma_rolled_values_prefix(prev, s1, s2);
                assert(s2.subrange(k, k + element_draws(e)) =~= h2.skip(h1.len() as int));
                assert(roller.sides_asked() =~= a0 + sides_needed(t));
                assert(as_ints(values@.push(v)) =~= as_ints(values@).push(v as int));
            }
            values.push(v);
            total = total + v as i64;
            i = i + 1;
        }
        proof {
            assert(self.0@.take(i as int) =~= self.0@);
        }
        (values, total)
    }
}

}
