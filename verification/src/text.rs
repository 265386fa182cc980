//! Character-level helpers shared by the parsers: classification of
//! characters, conversion of strings to character vectors, and trimming.
use vstd::prelude::*;

verus! {

broadcast use vstd::string::group_string_axioms;

/// Whether a character has the Unicode `White_Space` property, as
/// `char::is_whitespace` reports: the ASCII tab, line feed, vertical tab,
/// form feed, carriage return and space, and beyond ASCII U+0085, U+00A0,
/// U+1680, U+2000 to U+200A, U+2028, U+2029, U+202F, U+205F and U+3000.
pub open spec fn is_whitespace(c: char) -> bool {
    let n = c as u32;
    ||| 0x09 <= n <= 0x0d
    ||| n == 0x20
    ||| n == 0x85
    ||| n == 0xa0
    ||| n == 0x1680
    ||| 0x2000 <= n <= 0x200a
    ||| n == 0x2028
    ||| n == 0x2029
    ||| n == 0x202f
    ||| n == 0x205f
    ||| n == 0x3000
}

/// Whether a character is an ASCII letter.
pub open spec fn is_ascii_letter(c: char) -> bool {
    ('a' as u32 <= c as u32 <= 'z' as u32) || ('A' as u32 <= c as u32 <= 'Z' as u32)
}

/// What `char::is_alphabetic` reports for a character beyond ASCII: whether
/// it has the Unicode `Alphabetic` property.
pub uninterp spec fn alphabetic_beyond_ascii(c: char) -> bool;

/// What `char::is_numeric` reports for a character beyond ASCII: whether its
/// Unicode general category is one of the numbers (`Nd`, `Nl`, `No`).
pub uninterp spec fn numeric_beyond_ascii(c: char) -> bool;

/// Whether `char::is_alphabetic` holds: among ASCII characters exactly for
/// the letters.
pub open spec fn is_alphabetic(c: char) -> bool {
    if (c as u32) < 0x80 {
        is_ascii_letter(c)
    } else {
        alphabetic_beyond_ascii(c)
    }
}

/// Whether `char::is_numeric` holds: among ASCII characters exactly for the
/// digits.
pub open spec fn is_numeric(c: char) -> bool {
    if (c as u32) < 0x80 {
        '0' as u32 <= c as u32 <= '9' as u32
    } else {
        numeric_beyond_ascii(c)
    }
}

/// Whether the character is whitespace, as `char::is_whitespace` answers.
pub(crate) fn char_is_whitespace(c: char) -> (r: bool)
    ensures
        r == is_whitespace(c),
{
    let n = c as u32;
    (0x09 <= n && n <= 0x0d) || n == 0x20 || n == 0x85 || n == 0xa0 || n == 0x1680 || (0x2000 <= n
        && n <= 0x200a) || n == 0x2028 || n == 0x2029 || n == 0x202f || n == 0x205f || n == 0x3000
}

/// Calls `char::is_alphabetic`. The std source answers for ASCII characters
/// itself, true exactly for the letters, and beyond ASCII looks the character
/// up in its table of the Unicode `Alphabetic` property; the contract names
/// that table's answer and does not state it.
#[verifier::external_body]
pub(crate) fn char_is_alphabetic(c: char) -> (r: bool)
    ensures
        (c as u32) < 0x80 ==> (r == is_ascii_letter(c)),
        (c as u32) >= 0x80 ==> (r == alphabetic_beyond_ascii(c)),
{
    c.is_alphabetic()
}

/// Calls `char::is_numeric`. The std source answers for ASCII characters
/// itself, true exactly for the digits, and beyond ASCII looks the character
/// up in its table of the Unicode number categories; the contract names that
/// table's answer and does not state it.
#[verifier::external_body]
pub(crate) fn char_is_numeric(c: char) -> (r: bool)
    ensures
        (c as u32) < 0x80 ==> (r == ('0' as u32 <= c as u32 <= '9' as u32)),
        (c as u32) >= 0x80 ==> (r == numeric_beyond_ascii(c)),
{
    c.is_numeric()
}

/// The characters of a string, in order.
pub fn chars_of(s: &str) -> (v: Vec<char>)
    ensures
        v@ == s@,
{
    let mut v: Vec<char> = Vec::new();
    for c in it: s.chars()
        invariant
            v@ == it.seq().take(it.index() as int),
            it.seq() == s@,
    {
        v.push(c);
    }
    v
}


/// The number of bytes a character takes in UTF-8.
pub open spec fn char_utf8_len(c: char) -> int {
    if (c as u32) < 0x80 {
        1
    } else if (c as u32) < 0x800 {
        2
    } else if (c as u32) < 0x10000 {
        3
    } else {
        4
    }
}

/// The number of bytes of the UTF-8 encoding of a text.
pub open spec fn utf8_len(s: Seq<char>) -> int
    decreases s.len(),
{
    if s.len() == 0 {
        0
    } else {
        utf8_len(s.drop_last()) + char_utf8_len(s.last())
    }
}

/// The length in bytes of the text's UTF-8 encoding, which is what
/// `str::len` gives; a length beyond `usize::MAX` is given as `usize::MAX`.
pub fn utf8_length(s: &str) -> (r: usize)
    ensures
        r == (if utf8_len(s@) <= usize::MAX { utf8_len(s@) } else { usize::MAX as int }),
{
    let v = chars_of(s);
    let mut total: usize = 0;
    let mut i: usize = 0;
    while i < v.len()
        invariant
            i <= v@.len(),
            v@ == s@,
            total == (if utf8_len(v@.take(i as int)) <= usize::MAX {
                utf8_len(v@.take(i as int))
            } else {
                usize::MAX as int
            }),
        decreases v@.len() - i,
    {
        let c = v[i];
        let n: usize = if (c as u32) < 0x80 {
            1
        } else if (c as u32) < 0x800 {
            2
        } else if (c as u32) < 0x10000 {
            3
        } else {
            4
        };
        proof {
            assert(v@.take(i + 1).drop_last() =~= v@.take(i as int));
            lemma_utf8_len_nonneg(v@.take(i as int));
        }
        total = total.saturating_add(n);
        i = i + 1;
    }
    proof {
        assert(v@.take(i as int) =~= v@);
    }
    total
}

/// A text takes at least one byte per character in UTF-8.
pub proof fn lemma_utf8_len_nonneg(s: Seq<char>)
    ensures
        utf8_len(s) >= s.len(),
    decreases s.len(),
{
    if s.len() > 0 {
        lemma_utf8_len_nonneg(s.drop_last());
    }
}

/// Calls `String::push`, which appends one character to the string.
#[verifier::external_body]
pub(crate) fn string_push(s: &mut String, c: char)
    ensures
        final(s)@ == old(s)@.push(c),
{
    s.push(c);
}

/// Whitespace characters, as a predicate.
pub open spec fn ws_pred() -> spec_fn(char) -> bool {
    |c: char| is_whitespace(c)
}

/// Alphabetic characters, as a predicate.
pub open spec fn alpha_pred() -> spec_fn(char) -> bool {
    |c: char| is_alphabetic(c)
}

/// Whether `c` is one of the ASCII digits `0` to `9`.
pub open spec fn is_ascii_digit(c: char) -> bool {
    '0' <= c && c <= '9'
}

/// ASCII digits, as a predicate.
pub open spec fn digit_pred() -> spec_fn(char) -> bool {
    |c: char| is_ascii_digit(c)
}

/// The end of the longest run of characters satisfying `p` that starts at `i`.
pub open spec fn run_end(s: Seq<char>, i: int, p: spec_fn(char) -> bool) -> int
    decreases s.len() - i,
{
    if 0 <= i < s.len() && p(s[i]) {
        run_end(s, i + 1, p)
    } else {
        i
    }
}

/// The start of the longest run of characters satisfying `p` that ends at `j`.
pub open spec fn run_start_back(s: Seq<char>, j: int, p: spec_fn(char) -> bool) -> int
    decreases j,
{
    if 0 < j <= s.len() && p(s[j - 1]) {
        run_start_back(s, j - 1, p)
    } else {
        j
    }
}

/// `s` with leading and trailing whitespace removed.
pub open spec fn trim(s: Seq<char>) -> Seq<char> {
    let a = run_end(s, 0, ws_pred());
    let b = run_start_back(s, s.len() as int, ws_pred());
    if b <= a {
        Seq::empty()
    } else {
        s.subrange(a, b)
    }
}

/// Every character of `s` in `[from, to)` satisfies `p`.
pub open spec fn all_in(s: Seq<char>, from: int, to: int, p: spec_fn(char) -> bool) -> bool {
    forall|k: int| from <= k < to ==> #[trigger] p(s[k])
}

pub proof fn lemma_all_in_extend(s: Seq<char>, from: int, k: int, p: spec_fn(char) -> bool)
    requires
        0 <= from <= k < s.len(),
    ensures
        all_in(s, from, k + 1, p) == (all_in(s, from, k, p) && p(s[k])),
{
    if all_in(s, from, k + 1, p) {
        assert(p(s[k]));
    }
}

pub proof fn lemma_run_end(s: Seq<char>, i: int, p: spec_fn(char) -> bool)
    requires
        0 <= i <= s.len(),
    ensures
        i <= run_end(s, i, p) <= s.len(),
        all_in(s, i, run_end(s, i, p), p),
        run_end(s, i, p) < s.len() ==> !p(s[run_end(s, i, p)]),
    decreases s.len() - i,
{
    if i < s.len() && p(s[i]) {
        lemma_run_end(s, i + 1, p);
    }
}

pub proof fn lemma_run_start_back(s: Seq<char>, j: int, p: spec_fn(char) -> bool)
    requires
        0 <= j <= s.len(),
    ensures
        0 <= run_start_back(s, j, p) <= j,
        all_in(s, run_start_back(s, j, p), j, p),
        run_start_back(s, j, p) > 0 ==> !p(s[run_start_back(s, j, p) - 1]),
    decreases j,
{
    if j > 0 && p(s[j - 1]) {
        lemma_run_start_back(s, j - 1, p);
    }
}

/// The end of the run of whitespace starting at `i`.
pub fn ws_end_exec(v: &Vec<char>, i: usize) -> (r: usize)
    requires
        i <= v.len(),
    ensures
        r == run_end(v@, i as int, ws_pred()),
{
    let mut j = i;
    while j < v.len() && char_is_whitespace(v[j])
        invariant
            i <= j <= v.len(),
            run_end(v@, i as int, ws_pred()) == run_end(v@, j as int, ws_pred()),
        decreases v.len() - j,
    {
        j = j + 1;
    }
    j
}

/// The end of the run of alphabetic characters starting at `i`.
pub fn alpha_end_exec(v: &Vec<char>, i: usize) -> (r: usize)
    requires
        i <= v.len(),
    ensures
        r == run_end(v@, i as int, alpha_pred()),
{
    let mut j = i;
    while j < v.len() && char_is_alphabetic(v[j])
        invariant
            i <= j <= v.len(),
            run_end(v@, i as int, alpha_pred()) == run_end(v@, j as int, alpha_pred()),
        decreases v.len() - j,
    {
        j = j + 1;
    }
    j
}

/// Whether `c` is an ASCII digit.
pub fn is_ascii_digit_exec(c: char) -> (r: bool)
    ensures
        r == is_ascii_digit(c),
{
    '0' <= c && c <= '9'
}

/// The end of the run of ASCII digits starting at `i`.
pub fn digit_end_exec(v: &Vec<char>, i: usize) -> (r: usize)
    requires
        i <= v.len(),
    ensures
        r == run_end(v@, i as int, digit_pred()),
{
    let mut j = i;
    while j < v.len() && is_ascii_digit_exec(v[j])
        invariant
            i <= j <= v.len(),
            run_end(v@, i as int, digit_pred()) == run_end(v@, j as int, digit_pred()),
        decreases v.len() - j,
    {
        j = j + 1;
    }
    j
}

/// The start of the run of whitespace that ends at `j`.
pub fn ws_start_back_exec(v: &Vec<char>, j: usize) -> (r: usize)
    requires
        j <= v.len(),
    ensures
        r == run_start_back(v@, j as int, ws_pred()),
{
    let mut k = j;
    while k > 0 && char_is_whitespace(v[k - 1])
        invariant
            k <= j <= v.len(),
            run_start_back(v@, j as int, ws_pred()) == run_start_back(v@, k as int, ws_pred()),
        decreases k,
    {
        k = k - 1;
    }
    k
}

/// The characters of `v` in `[from, to)`.
pub fn sub_chars(v: &Vec<char>, from: usize, to: usize) -> (r: Vec<char>)
    requires
        from <= to <= v.len(),
    ensures
        r@ == v@.subrange(from as int, to as int),
{
    let mut r: Vec<char> = Vec::new();
    let mut k = from;
    while k < to
        invariant
            from <= k <= to <= v.len(),
            r@ == v@.subrange(from as int, k as int),
        decreases to - k,
    {
        r.push(v[k]);
        k = k + 1;
        assert(r@ =~= v@.subrange(from as int, k as int));
    }
    r
}

/// A string holding the characters of `v` in `[from, to)`.
pub fn string_of(v: &Vec<char>, from: usize, to: usize) -> (r: String)
    requires
        from <= to <= v.len(),
    ensures
        r@ == v@.subrange(from as int, to as int),
{
    let mut r = String::new();
    let mut k = from;
    while k < to
        invariant
            from <= k <= to <= v.len(),
            r@ == v@.subrange(from as int, k as int),
        decreases to - k,
    {
        string_push(&mut r, v[k]);
        k = k + 1;
        assert(r@ =~= v@.subrange(from as int, k as int));
    }
    r
}

/// `v` with leading and trailing whitespace removed.
pub fn trim_chars(v: &Vec<char>) -> (r: Vec<char>)
    ensures
        r@ == trim(v@),
{
    let a = ws_end_exec(v, 0);
    let b = ws_start_back_exec(v, v.len());
    proof {
        lemma_run_start_back(v@, v@.len() as int, ws_pred());
    }
    if b <= a {
        Vec::new()
    } else {
        sub_chars(v, a, b)
    }
}

/// The characters of `s` with leading and trailing whitespace removed, as
/// `str::trim` gives them.
pub fn trimmed_chars(s: &str) -> (r: Vec<char>)
    ensures
        r@ == trim(s@),
{
    let v = chars_of(s);
    trim_chars(&v)
}


/// The character of the decimal digit `d`.
pub open spec fn digit_char(d: int) -> char {
    (('0' as int) + d) as char
}

/// The decimal digits of `n`, most significant first.
pub open spec fn nat_digits(n: nat) -> Seq<char>
    decreases n,
{
    if n < 10 {
        seq![digit_char(n as int)]
    } else {
        nat_digits(n / 10).push(digit_char((n % 10) as int))
    }
}

/// The decimal representation of `n`, with a leading `-` when negative.
pub open spec fn decimal_string(n: int) -> Seq<char> {
    if n < 0 {
        seq!['-'] + nat_digits((-n) as nat)
    } else {
        nat_digits(n as nat)
    }
}

fn digit_to_char(d: u64) -> (c: char)
    requires
        d < 10,
    ensures
        c == digit_char(d as int),
{
    match d {
        0 => '0',
        1 => '1',
        2 => '2',
        3 => '3',
        4 => '4',
        5 => '5',
        6 => '6',
        7 => '7',
        8 => '8',
        _ => '9',
    }
}

fn push_nat_digits(s: &mut String, n: u64)
    ensures
        final(s)@ == old(s)@ + nat_digits(n as nat),
    decreases n,
{
    if n >= 10 {
        push_nat_digits(s, n / 10);
    }
    let c = digit_to_char(n % 10);
    let ghost mid = s@;
    string_push(s, c);
    proof {
        if n >= 10 {
            assert(s@ =~= old(s)@ + nat_digits(n as nat));
        } else {
            assert(s@ =~= old(s)@ + nat_digits(n as nat));
        }
    }
}

/// Appends the decimal representation of `n` to `s`.
pub fn push_decimal(s: &mut String, n: i64)
    ensures
        final(s)@ == old(s)@ + decimal_string(n as int),
{
    if n < 0 {
        string_push(s, '-');
        let m: u64 = if n == i64::MIN {
            9223372036854775808u64
        } else {
            (-n) as u64
        };
        push_nat_digits(s, m);
        assert(final(s)@ =~= old(s)@ + decimal_string(n as int));
    } else {
        push_nat_digits(s, n as u64);
    }
}

/// Appends the decimal representation of `n` to `s`.
pub fn push_decimal_usize(s: &mut String, n: usize)
    ensures
        final(s)@ == old(s)@ + decimal_string(n as int),
{
    push_nat_digits(s, n as u64);
}

/// Appends the characters of `t` to `s`.
pub fn push_str(s: &mut String, t: &str)
    ensures
        final(s)@ == old(s)@ + t@,
{
    s.append(t);
}


/// Whether the texts `a` and `b` are equal.
pub fn text_eq(a: &str, b: &str) -> (r: bool)
    ensures
        r == (a@ == b@),
{
    let x = a.to_owned();
    let y = b.to_owned();
    x == y
}


/// Trimmed text neither starts nor ends with whitespace.
pub proof fn lemma_trim_ends(s: Seq<char>)
    ensures
        trim(s).len() > 0 ==> !is_whitespace(trim(s)[0]) && !is_whitespace(trim(s).last()),
{
    lemma_run_end(s, 0, ws_pred());
    lemma_run_start_back(s, s.len() as int, ws_pred());
}


/// Lexicographic order of texts by character: `a` comes no later than `b`.
/// This is the order of `String`'s comparison, as UTF-8 keeps the order of
/// code points.
pub open spec fn text_le(a: Seq<char>, b: Seq<char>) -> bool
    decreases a.len(),
{
    if a.len() == 0 {
        true
    } else if b.len() == 0 {
        false
    } else if a[0] != b[0] {
        a[0] < b[0]
    } else {
        text_le(a.drop_first(), b.drop_first())
    }
}

/// [`text_le`] as a relation.
pub open spec fn text_order() -> spec_fn(Seq<char>, Seq<char>) -> bool {
    |a: Seq<char>, b: Seq<char>| text_le(a, b)
}

proof fn lemma_text_le_reflexive(a: Seq<char>)
    ensures
        text_le(a, a),
    decreases a.len(),
{
    if a.len() > 0 {
        lemma_text_le_reflexive(a.drop_first());
    }
}

proof fn lemma_text_le_antisymmetric(a: Seq<char>, b: Seq<char>)
    requires
        text_le(a, b),
        text_le(b, a),
    ensures
        a == b,
    decreases a.len(),
{
    if a.len() > 0 && b.len() > 0 {
        lemma_text_le_antisymmetric(a.drop_first(), b.drop_first());
        assert(a =~= seq![a[0]] + a.drop_first());
        assert(b =~= seq![b[0]] + b.drop_first());
    } else {
        assert(a =~= b);
    }
}

proof fn lemma_text_le_transitive(a: Seq<char>, b: Seq<char>, c: Seq<char>)
    requires
        text_le(a, b),
        text_le(b, c),
    ensures
        text_le(a, c),
    decreases a.len(),
{
    if a.len() > 0 && b.len() > 0 && c.len() > 0 && a[0] == b[0] && b[0] == c[0] {
        lemma_text_le_transitive(a.drop_first(), b.drop_first(), c.drop_first());
    }
}

proof fn lemma_text_le_total(a: Seq<char>, b: Seq<char>)
    ensures
        text_le(a, b) || text_le(b, a),
    decreases a.len(),
{
    if a.len() > 0 && b.len() > 0 && a[0] == b[0] {
        lemma_text_le_total(a.drop_first(), b.drop_first());
    }
}

/// The order of texts is a total order.
pub proof fn lemma_text_order_total()
    ensures
        vstd::relations::total_ordering(text_order()),
{
    assert forall|x: Seq<char>| #[trigger] text_order()(x, x) by {
        lemma_text_le_reflexive(x);
    }
    assert forall|x: Seq<char>, y: Seq<char>|
        #[trigger] text_order()(x, y) && #[trigger] text_order()(y, x) implies x == y by {
        lemma_text_le_antisymmetric(x, y);
    }
    assert forall|x: Seq<char>, y: Seq<char>, z: Seq<char>|
        #[trigger] text_order()(x, y) && #[trigger] text_order()(y, z) implies text_order()(x, z) by {
        lemma_text_le_transitive(x, y, z);
    }
    assert forall|x: Seq<char>, y: Seq<char>|
        #[trigger] text_order()(x, y) || #[trigger] text_order()(y, x) by {
        lemma_text_le_total(x, y);
    }
}

/// Whether the text `a` comes no later than `b`.
pub fn text_le_exec(a: &str, b: &str) -> (r: bool)
    ensures
        r == text_le(a@, b@),
{
    let x = chars_of(a);
    let y = chars_of(b);
    let mut i: usize = 0;
    assert(x@.skip(0) =~= x@);
    assert(y@.skip(0) =~= y@);
    while i < x.len() && i < y.len() && x[i] == y[i]
        invariant
            i <= x@.len(),
            i <= y@.len(),
            x@ == a@,
            y@ == b@,
            text_le(a@, b@) == text_le(x@.skip(i as int), y@.skip(i as int)),
        decreases x@.len() - i,
    {
        proof {
            assert(x@.skip(i as int).drop_first() =~= x@.skip(i + 1));
            assert(y@.skip(i as int).drop_first() =~= y@.skip(i + 1));
        }
        i = i + 1;
    }
    if i == x.len() {
        true
    } else if i == y.len() {
        false
    } else {
        x[i] < y[i]
    }
}

/// The texts of a sequence of strings.
pub open spec fn texts(v: Seq<String>) -> Seq<Seq<char>> {
    v.map_values(|s: String| s@)
}

/// The strings of `v`, sorted by [`text_le`].
pub fn sort_texts(v: Vec<String>) -> (r: Vec<String>)
    ensures
        texts(r@) == texts(v@).sort_by(text_order()),
{
    let mut out: Vec<String> = Vec::new();
    let n = v.len();
    let mut rest = v;
    let ghost all = rest@;
    assert(all.skip(all.len() as int) =~= Seq::<String>::empty());
    assert(texts(out@) =~= Seq::<Seq<char>>::empty());
    assert(texts(all.skip(all.len() as int)) =~= Seq::<Seq<char>>::empty());
    // The strings are moved out of `rest` from the back.
    while rest.len() > 0
        invariant
            n == all.len(),
            rest@ == all.take(rest@.len() as int),
            rest@.len() <= n,
            texts(out@).to_multiset() == texts(all.skip(rest@.len() as int)).to_multiset(),
            vstd::relations::sorted_by(texts(out@), text_order()),
        decreases rest@.len(),
    {
        let ghost k = rest@.len();
        let x = rest.pop().unwrap();
        assert(rest@ =~= all.take(k - 1));
        assert(x == all[k - 1]);
        // Find the first string after which `x` goes.
        let mut p: usize = 0;
        while p < out.len() && text_le_exec(out[p].as_str(), x.as_str())
            invariant
                p <= out@.len(),
                forall|j: int| 0 <= j < p ==> text_le(#[trigger] out@[j]@, x@),
            decreases out@.len() - p,
        {
            p = p + 1;
        }
        let ghost before = out@;
        out.insert(p, x);
        proof {
            lemma_text_order_total();
            assert(texts(out@) =~= texts(before).insert(p as int, x@));
            vstd::seq_lib::to_multiset_insert(texts(before), p as int, x@);
            let s_new = all.skip(k - 1);
            assert(texts(s_new) =~= texts(all.skip(k as int)).insert(0, x@));
            vstd::seq_lib::to_multiset_insert(texts(all.skip(k as int)), 0, x@);
            assert forall|a: int, b: int| 0 <= a < b < texts(out@).len() implies #[trigger] text_order()(
                texts(out@)[a],
                texts(out@)[b],
            ) by {
                if b < p {
                } else if a < p && b == p {
                } else if a < p && b > p {
                    assert(text_le(before[a]@, x@));
                    if p < before.len() {
                        assert(!text_le(before[p as int]@, x@));
                        lemma_text_le_total(before[p as int]@, x@);
                        assert(text_order()(texts(before)[a], texts(before)[b - 1]));
                    }
                } else if a == p {
                    assert(!text_le(before[p as int]@, x@));
                    lemma_text_le_total(before[p as int]@, x@);
                    if b - 1 > p {
                        assert(text_order()(texts(before)[p as int], texts(before)[b - 1]));
                        lemma_text_le_transitive(x@, before[p as int]@, before[b - 1]@);
                    }
                } else {
                    assert(text_order()(texts(before)[a - 1], texts(before)[b - 1]));
                }
            }
        }
    }
    proof {
        assert(all.skip(0) =~= all);
        lemma_text_order_total();
        texts(all).lemma_sort_by_ensures(text_order());
        vstd::seq_lib::lemma_sorted_unique(texts(out@), texts(all).sort_by(text_order()), text_order());
    }
    out
}


/// Trimming trimmed text changes nothing.
pub proof fn lemma_trim_idempotent(s: Seq<char>)
    ensures
        trim(trim(s)) == trim(s),
{
    let t = trim(s);
    lemma_trim_ends(s);
    if t.len() > 0 {
        assert(!ws_pred()(t[0]));
        assert(run_end(t, 0, ws_pred()) == 0);
        assert(!ws_pred()(t[t.len() - 1]));
        assert(run_start_back(t, t.len() as int, ws_pred()) == t.len());
        assert(t.subrange(0, t.len() as int) =~= t);
    }
}

}
