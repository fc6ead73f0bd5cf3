//! Equality and ordering of characters and strings that ignore accents,
//! case, or both.

use vstd::prelude::*;
use std::cmp::Ordering;
use crate::text::{
    chars_of, compare_chars, lemma_lex_order_equal, lemma_lex_order_reverse, lex_order, same_chars,
    Order,
};
use crate::unicode::{lowercase, lowercase_of, transliterate, transliteration};

verus! {

/// The standard library's ordering value for an [`Order`].
pub open spec fn ordering_of(o: Order) -> Ordering {
    match o {
        Order::Less => Ordering::Less,
        Order::Equal => Ordering::Equal,
        Order::Greater => Ordering::Greater,
    }
}

/// Turns an [`Order`] into the standard library's ordering value.
pub fn to_ordering(o: Order) -> (res: Ordering)
    ensures
        res == ordering_of(o),
{
    match o {
        Order::Less => Ordering::Less,
        Order::Equal => Ordering::Equal,
        Order::Greater => Ordering::Greater,
    }
}

/// The lowercase mappings of the characters of `s`, one after the other.
pub open spec fn lower_all(s: Seq<char>) -> Seq<char>
    decreases s.len(),
{
    if s.len() == 0 {
        Seq::empty()
    } else {
        lower_all(s.drop_last()) + lowercase_of(s.last())
    }
}

/// Two characters are equal once accents are ignored: they are the same
/// character or have the same transliteration.
pub open spec fn char_eq_ai(a: char, b: char) -> bool {
    a == b || transliteration(a) == transliteration(b)
}

/// Two characters are equal once accents and case are ignored: their
/// transliterations are equal, or become equal when lowercased character by
/// character.
pub open spec fn char_eq_ai_ci(a: char, b: char) -> bool {
    a == b || transliteration(a) == transliteration(b) || lower_all(transliteration(a))
        == lower_all(transliteration(b))
}

/// Two characters are equal once case is ignored: they are the same
/// character or have the same lowercase mapping.
pub open spec fn char_eq_ci(a: char, b: char) -> bool {
    a == b || lowercase_of(a) == lowercase_of(b)
}

/// The order of two characters by their transliterations.
pub open spec fn char_order_ai(a: char, b: char) -> Order {
    lex_order(transliteration(a), transliteration(b))
}

/// The order of two characters by their lowercased transliterations.
pub open spec fn char_order_ai_ci(a: char, b: char) -> Order {
    lex_order(lower_all(transliteration(a)), lower_all(transliteration(b)))
}

/// The order of two characters by their lowercase mappings.
pub open spec fn char_order_ci(a: char, b: char) -> Order {
    lex_order(lowercase_of(a), lowercase_of(b))
}

/// The rule [`char_eq_ai`] as a value.
pub open spec fn rule_eq_ai() -> spec_fn(char, char) -> bool {
    |a: char, b: char| char_eq_ai(a, b)
}

/// The rule [`char_eq_ai_ci`] as a value.
pub open spec fn rule_eq_ai_ci() -> spec_fn(char, char) -> bool {
    |a: char, b: char| char_eq_ai_ci(a, b)
}

/// The rule [`char_eq_ci`] as a value.
pub open spec fn rule_eq_ci() -> spec_fn(char, char) -> bool {
    |a: char, b: char| char_eq_ci(a, b)
}

/// The rule [`char_order_ai`] as a value.
pub open spec fn rule_order_ai() -> spec_fn(char, char) -> Order {
    |a: char, b: char| char_order_ai(a, b)
}

/// The rule [`char_order_ai_ci`] as a value.
pub open spec fn rule_order_ai_ci() -> spec_fn(char, char) -> Order {
    |a: char, b: char| char_order_ai_ci(a, b)
}

/// The rule [`char_order_ci`] as a value.
pub open spec fn rule_order_ci() -> spec_fn(char, char) -> Order {
    |a: char, b: char| char_order_ci(a, b)
}

/// Two sequences are equal under a rule on characters: they have the same
/// length and the rule holds at every position.
pub open spec fn eq_by(l: Seq<char>, r: Seq<char>, rule: spec_fn(char, char) -> bool) -> bool {
    l.len() == r.len() && forall|i: int| 0 <= i < l.len() ==> rule(#[trigger] l[i], r[i])
}

/// The order of two sequences under a rule on characters: the rule's answer
/// at the first position where it is not `Equal`; where there is none, the
/// shorter sequence comes first.
pub open spec fn order_by(l: Seq<char>, r: Seq<char>, rule: spec_fn(char, char) -> Order) -> Order
    decreases l.len(),
{
    if l.len() == 0 {
        if r.len() == 0 {
            Order::Equal
        } else {
            Order::Less
        }
    } else if r.len() == 0 {
        Order::Greater
    } else if rule(l[0], r[0]) != Order::Equal {
        rule(l[0], r[0])
    } else {
        order_by(l.drop_first(), r.drop_first(), rule)
    }
}

/// Lowercases each character of `chars` and joins the results.
pub fn lower_each(chars: &[char]) -> (out: Vec<char>)
    ensures
        out@ == lower_all(chars@),
{
    let mut out: Vec<char> = Vec::new();
    let mut i: usize = 0;
    while i < chars.len()
        invariant
            i <= chars.len(),
            out@ == lower_all(chars@.take(i as int)),
        decreases chars.len() - i,
    {
        let mut low = lowercase(chars[i]);
        proof {
            assert(chars@.take(i + 1).drop_last() == chars@.take(i as int));
        }
        out.append(&mut low);
        i = i + 1;
    }
    assert(chars@.take(i as int) == chars@);
    out
}

/// Equality of strings and characters that ignores accents, case, or both.
pub trait EqExt<Rhs = Self> {
    /// What [`EqExt::eq_ai`] decides.
    spec fn accent_eq(self, other: Rhs) -> bool where Self: Sized;

    /// What [`EqExt::eq_ai_ci`] decides.
    spec fn accent_case_eq(self, other: Rhs) -> bool where Self: Sized;

    /// What [`EqExt::eq_ci`] decides.
    spec fn case_eq(self, other: Rhs) -> bool where Self: Sized;

    /// Accent insensitive equality.
    fn eq_ai(self, other: Rhs) -> (res: bool) where Self: Sized
        ensures
            res == self.accent_eq(other),
    ;

    /// Accent and case insensitive equality.
    fn eq_ai_ci(self, other: Rhs) -> (res: bool) where Self: Sized
        ensures
            res == self.accent_case_eq(other),
    ;

    /// Case insensitive equality.
    fn eq_ci(self, other: Rhs) -> (res: bool) where Self: Sized
        ensures
            res == self.case_eq(other),
    ;
}

impl EqExt for char {
    open spec fn accent_eq(self, other: char) -> bool {
        char_eq_ai(self, other)
    }

    open spec fn accent_case_eq(self, other: char) -> bool {
        char_eq_ai_ci(self, other)
    }

    open spec fn case_eq(self, other: char) -> bool {
        char_eq_ci(self, other)
    }

    fn eq_ai(self, r: char) -> (res: bool) {
        assert(self.accent_eq(r) == char_eq_ai(self, r));
        if self == r {
            return true;
        }
        let left = chars_of(transliterate(self));
        let right = chars_of(transliterate(r));
        same_chars(left.as_slice(), right.as_slice())
    }

    fn eq_ai_ci(self, r: char) -> (res: bool) {
        if self == r {
            return true;
        }
        let l = chars_of(transliterate(self));
        let r = chars_of(transliterate(r));
        if same_chars(l.as_slice(), r.as_slice()) {
            return true;
        }
        let l = lower_each(l.as_slice());
        let r = lower_each(r.as_slice());
        same_chars(l.as_slice(), r.as_slice())
    }

    fn eq_ci(self, r: char) -> (res: bool) {
        if self == r {
            return true;
        }
        let l = lowercase(self);
        let r = lowercase(r);
        same_chars(l.as_slice(), r.as_slice())
    }
}

/// Walks two slices in step and applies `f` to each pair of characters:
/// `false` at the first pair that `f` rejects or when one slice ends before
/// the other.
pub fn eq_chars<F: Fn(char, char) -> bool>(
    l: &[char],
    r: &[char],
    f: F,
    Ghost(rule): Ghost<spec_fn(char, char) -> bool>,
) -> (res: bool)
    requires
        forall|a: char, b: char| call_requires(f, (a, b)),
        forall|a: char, b: char, v: bool| call_ensures(f, (a, b), v) ==> v == rule(a, b),
    ensures
        res == eq_by(l@, r@, rule),
{
    let mut i: usize = 0;
    loop
        invariant
            i <= l.len(),
            i <= r.len(),
            forall|a: char, b: char| call_requires(f, (a, b)),
            forall|a: char, b: char, v: bool| call_ensures(f, (a, b), v) ==> v == rule(a, b),
            forall|k: int| 0 <= k < i ==> rule(#[trigger] l@[k], r@[k]),
        decreases l.len() - i,
    {
        if i == l.len() || i == r.len() {
            return i == l.len() && i == r.len();
        }
        if !f(l[i], r[i]) {
            assert(!rule(l@[i as int], r@[i as int]));
            return false;
        }
        i = i + 1;
    }
}

impl EqExt for &str {
    open spec fn accent_eq(self, other: &str) -> bool {
        eq_by(self@, other@, rule_eq_ai())
    }

    open spec fn accent_case_eq(self, other: &str) -> bool {
        eq_by(self@, other@, rule_eq_ai_ci())
    }

    open spec fn case_eq(self, other: &str) -> bool {
        eq_by(self@, other@, rule_eq_ci())
    }

    fn eq_ai(self, r: &str) -> (res: bool) {
        let l = chars_of(self);
        let r = chars_of(r);
        if same_chars(l.as_slice(), r.as_slice()) {
            return true;
        }
        let f = |a: char, b: char| -> (v: bool)
            ensures
                v == char_eq_ai(a, b),
            { a.eq_ai(b) };
        eq_chars(l.as_slice(), r.as_slice(), f, Ghost(rule_eq_ai()))
    }

    fn eq_ai_ci(self, r: &str) -> (res: bool) {
        let l = chars_of(self);
        let r = chars_of(r);
        if same_chars(l.as_slice(), r.as_slice()) {
            return true;
        }
        let f = |a: char, b: char| -> (v: bool)
            ensures
                v == char_eq_ai_ci(a, b),
            { a.eq_ai_ci(b) };
        eq_chars(l.as_slice(), r.as_slice(), f, Ghost(rule_eq_ai_ci()))
    }

    fn eq_ci(self, r: &str) -> (res: bool) {
        let l = chars_of(self);
        let r = chars_of(r);
        if same_chars(l.as_slice(), r.as_slice()) {
            return true;
        }
        let f = |a: char, b: char| -> (v: bool)
            ensures
                v == char_eq_ci(a, b),
            { a.eq_ci(b) };
        eq_chars(l.as_slice(), r.as_slice(), f, Ghost(rule_eq_ci()))
    }
}

impl EqExt<&str> for &String {
    open spec fn accent_eq(self, other: &str) -> bool {
        eq_by(self@, other@, rule_eq_ai())
    }

    open spec fn accent_case_eq(self, other: &str) -> bool {
        eq_by(self@, other@, rule_eq_ai_ci())
    }

    open spec fn case_eq(self, other: &str) -> bool {
        eq_by(self@, other@, rule_eq_ci())
    }

    fn eq_ai(self, r: &str) -> (res: bool) {
        self.as_str().eq_ai(r)
    }

    fn eq_ai_ci(self, r: &str) -> (res: bool) {
        self.as_str().eq_ai_ci(r)
    }

    fn eq_ci(self, r: &str) -> (res: bool) {
        self.as_str().eq_ci(r)
    }
}

/// Orders two characters by their transliterations.
pub fn order_ai(a: char, b: char) -> (res: Order)
    ensures
        res == char_order_ai(a, b),
{
    let l = chars_of(transliterate(a));
    let r = chars_of(transliterate(b));
    compare_chars(l.as_slice(), r.as_slice())
}

/// Orders two characters by their lowercased transliterations.
pub fn order_ai_ci(a: char, b: char) -> (res: Order)
    ensures
        res == char_order_ai_ci(a, b),
{
    let l = chars_of(transliterate(a));
    let r = chars_of(transliterate(b));
    let l = lower_each(l.as_slice());
    let r = lower_each(r.as_slice());
    compare_chars(l.as_slice(), r.as_slice())
}

/// Orders two characters by their lowercase mappings.
pub fn order_ci(a: char, b: char) -> (res: Order)
    ensures
        res == char_order_ci(a, b),
{
    let l = lowercase(a);
    let r = lowercase(b);
    compare_chars(l.as_slice(), r.as_slice())
}

/// Walks two slices in step and applies `f` to each pair of characters: the
/// first answer of `f` that is not `Equal`; where there is none, the slice
/// that ends first comes first.
pub fn ord_chars<F: Fn(char, char) -> Order>(
    l: &[char],
    r: &[char],
    f: F,
    Ghost(rule): Ghost<spec_fn(char, char) -> Order>,
) -> (res: Order)
    requires
        forall|a: char, b: char| call_requires(f, (a, b)),
        forall|a: char, b: char, v: Order| call_ensures(f, (a, b), v) ==> v == rule(a, b),
    ensures
        res == order_by(l@, r@, rule),
{
    let mut i: usize = 0;
    assert(l@.skip(0) == l@ && r@.skip(0) == r@);
    loop
        invariant
            i <= l.len(),
            i <= r.len(),
            forall|a: char, b: char| call_requires(f, (a, b)),
            forall|a: char, b: char, v: Order| call_ensures(f, (a, b), v) ==> v == rule(a, b),
            order_by(l@, r@, rule) == order_by(l@.skip(i as int), r@.skip(i as int), rule),
        decreases l.len() - i,
    {
        if i == l.len() {
            if i == r.len() {
                return Order::Equal;
            }
            return Order::Less;
        }
        if i == r.len() {
            return Order::Greater;
        }
        let v = f(l[i], r[i]);
        if v != Order::Equal {
            return v;
        }
        proof {
            assert(l@.skip(i as int).drop_first() == l@.skip(i + 1));
            assert(r@.skip(i as int).drop_first() == r@.skip(i + 1));
        }
        i = i + 1;
    }
}

/// Ordering of strings and characters that ignores accents, case, or both.
pub trait OrdExt<Rhs = Self> {
    /// What [`OrdExt::cmp_ai`] decides.
    spec fn accent_order(self, rhs: Rhs) -> Order where Self: Sized;

    /// What [`OrdExt::cmp_ai_ci`] decides.
    spec fn accent_case_order(self, rhs: Rhs) -> Order where Self: Sized;

    /// What [`OrdExt::cmp_ci`] decides.
    spec fn case_order(self, rhs: Rhs) -> Order where Self: Sized;

    /// Accent insensitive comparison.
    fn cmp_ai(self, rhs: Rhs) -> (res: Ordering) where Self: Sized
        ensures
            res == ordering_of(self.accent_order(rhs)),
    ;

    /// Accent and case insensitive comparison.
    fn cmp_ai_ci(self, rhs: Rhs) -> (res: Ordering) where Self: Sized
        ensures
            res == ordering_of(self.accent_case_order(rhs)),
    ;

    /// Case insensitive comparison.
    fn cmp_ci(self, rhs: Rhs) -> (res: Ordering) where Self: Sized
        ensures
            res == ordering_of(self.case_order(rhs)),
    ;
}

impl OrdExt<char> for char {
    open spec fn accent_order(self, rhs: char) -> Order {
        char_order_ai(self, rhs)
    }

    open spec fn accent_case_order(self, rhs: char) -> Order {
        char_order_ai_ci(self, rhs)
    }

    open spec fn case_order(self, rhs: char) -> Order {
        char_order_ci(self, rhs)
    }

    fn cmp_ai(self, r: char) -> (res: Ordering) {
        to_ordering(order_ai(self, r))
    }

    fn cmp_ai_ci(self, r: char) -> (res: Ordering) {
        to_ordering(order_ai_ci(self, r))
    }

    fn cmp_ci(self, r: char) -> (res: Ordering) {
        to_ordering(order_ci(self, r))
    }
}

impl OrdExt<&str> for &str {
    open spec fn accent_order(self, rhs: &str) -> Order {
        order_by(self@, rhs@, rule_order_ai())
    }

    open spec fn accent_case_order(self, rhs: &str) -> Order {
        order_by(self@, rhs@, rule_order_ai_ci())
    }

    open spec fn case_order(self, rhs: &str) -> Order {
        order_by(self@, rhs@, rule_order_ci())
    }

    fn cmp_ai(self, r: &str) -> (res: Ordering) {
        let l = chars_of(self);
        let r = chars_of(r);
        to_ordering(ord_chars(l.as_slice(), r.as_slice(), order_ai, Ghost(rule_order_ai())))
    }

    fn cmp_ai_ci(self, r: &str) -> (res: Ordering) {
        let l = chars_of(self);
        let r = chars_of(r);
        to_ordering(ord_chars(l.as_slice(), r.as_slice(), order_ai_ci, Ghost(rule_order_ai_ci())))
    }

    fn cmp_ci(self, r: &str) -> (res: Ordering) {
        let l = chars_of(self);
        let r = chars_of(r);
        to_ordering(ord_chars(l.as_slice(), r.as_slice(), order_ci, Ghost(rule_order_ci())))
    }
}

impl OrdExt<&str> for &String {
    open spec fn accent_order(self, rhs: &str) -> Order {
        order_by(self@, rhs@, rule_order_ai())
    }

    open spec fn accent_case_order(self, rhs: &str) -> Order {
        order_by(self@, rhs@, rule_order_ai_ci())
    }

    open spec fn case_order(self, rhs: &str) -> Order {
        order_by(self@, rhs@, rule_order_ci())
    }

    fn cmp_ai(self, r: &str) -> (res: Ordering) {
        self.as_str().cmp_ai(r)
    }

    fn cmp_ai_ci(self, r: &str) -> (res: Ordering) {
        self.as_str().cmp_ai_ci(r)
    }

    fn cmp_ci(self, r: &str) -> (res: Ordering) {
        self.as_str().cmp_ci(r)
    }
}

/// Case-insensitive equality of characters is symmetric.
pub proof fn lemma_char_eq_ci_symmetric(a: char, b: char)
    ensures
        a.case_eq(b) == b.case_eq(a),
{
}

/// Where an equality rule holds exactly when an order rule answers `Equal`,
/// two sequences are equal under the first exactly when they are `Equal`
/// under the second.
pub proof fn lemma_eq_by_iff_order_equal(
    s: Seq<char>,
    t: Seq<char>,
    eq: spec_fn(char, char) -> bool,
    ord: spec_fn(char, char) -> Order,
)
    requires
        forall|a: char, b: char| #[trigger] eq(a, b) <==> ord(a, b) == Order::Equal,
    ensures
        eq_by(s, t, eq) <==> order_by(s, t, ord) == Order::Equal,
    decreases s.len(),
{
    if s.len() > 0 && t.len() > 0 {
        let s1 = s.drop_first();
        let t1 = t.drop_first();
        lemma_eq_by_iff_order_equal(s1, t1, eq, ord);
        if eq_by(s, t, eq) {
            assert(eq(s[0], t[0]));
            assert forall|i: int| 0 <= i < s1.len() implies eq(#[trigger] s1[i], t1[i]) by {
                assert(eq(s[i + 1], t[i + 1]));
            }
        }
        if order_by(s, t, ord) == Order::Equal {
            assert(eq_by(s1, t1, eq));
            assert forall|i: int| 0 <= i < s.len() implies eq(#[trigger] s[i], t[i]) by {
                if i > 0 {
                    assert(eq(s1[i - 1], t1[i - 1]));
                }
            }
        }
    }
}

/// Where exchanging two characters reverses the answer of an order rule,
/// exchanging two sequences reverses their order under that rule.
pub proof fn lemma_order_by_reverse(s: Seq<char>, t: Seq<char>, ord: spec_fn(char, char) -> Order)
    requires
        forall|a: char, b: char| #[trigger] ord(b, a) == ord(a, b).reverse(),
    ensures
        order_by(t, s, ord) == order_by(s, t, ord).reverse(),
    decreases s.len(),
{
    if s.len() > 0 && t.len() > 0 {
        assert(ord(t[0], s[0]) == ord(s[0], t[0]).reverse());
        lemma_order_by_reverse(s.drop_first(), t.drop_first(), ord);
    }
}

/// Comparing two strings the other way round reverses the outcome, for each
/// of the three orders.
pub proof fn lemma_order_reverse(s: &str, t: &str)
    ensures
        t.accent_order(s) == s.accent_order(t).reverse(),
        t.accent_case_order(s) == s.accent_case_order(t).reverse(),
        t.case_order(s) == s.case_order(t).reverse(),
{
    assert forall|a: char, b: char| #[trigger] rule_order_ai()(b, a) == rule_order_ai()(
        a,
        b,
    ).reverse() by {
        lemma_lex_order_reverse(transliteration(a), transliteration(b));
    }
    lemma_order_by_reverse(s@, t@, rule_order_ai());
    assert forall|a: char, b: char| #[trigger] rule_order_ai_ci()(b, a) == rule_order_ai_ci()(
        a,
        b,
    ).reverse() by {
        lemma_lex_order_reverse(lower_all(transliteration(a)), lower_all(transliteration(b)));
    }
    lemma_order_by_reverse(s@, t@, rule_order_ai_ci());
    assert forall|a: char, b: char| #[trigger] rule_order_ci()(b, a) == rule_order_ci()(
        a,
        b,
    ).reverse() by {
        lemma_lex_order_reverse(lowercase_of(a), lowercase_of(b));
    }
    lemma_order_by_reverse(s@, t@, rule_order_ci());
}

/// Two strings are equal when accents are ignored exactly when they compare
/// as `Equal` when accents are ignored.
pub proof fn lemma_eq_ai_iff_order_equal(s: &str, t: &str)
    ensures
        s.accent_eq(t) <==> s.accent_order(t) == Order::Equal,
{
    assert forall|a: char, b: char| #[trigger] rule_eq_ai()(a, b) <==> rule_order_ai()(a, b)
        == Order::Equal by {
        lemma_lex_order_equal(transliteration(a), transliteration(b));
    }
    lemma_eq_by_iff_order_equal(s@, t@, rule_eq_ai(), rule_order_ai());
}

/// Two strings are equal when accents and case are ignored exactly when
/// they compare as `Equal` when accents and case are ignored.
pub proof fn lemma_eq_ai_ci_iff_order_equal(s: &str, t: &str)
    ensures
        s.accent_case_eq(t) <==> s.accent_case_order(t) == Order::Equal,
{
    assert forall|a: char, b: char| #[trigger] rule_eq_ai_ci()(a, b) <==> rule_order_ai_ci()(a, b)
        == Order::Equal by {
        lemma_lex_order_equal(lower_all(transliteration(a)), lower_all(transliteration(b)));
    }
    lemma_eq_by_iff_order_equal(s@, t@, rule_eq_ai_ci(), rule_order_ai_ci());
}

/// Two strings are equal when case is ignored exactly when they compare as
/// `Equal` when case is ignored.
pub proof fn lemma_eq_ci_iff_order_equal(s: &str, t: &str)
    ensures
        s.case_eq(t) <==> s.case_order(t) == Order::Equal,
{
    assert forall|a: char, b: char| #[trigger] rule_eq_ci()(a, b) <==> rule_order_ci()(a, b)
        == Order::Equal by {
        lemma_lex_order_equal(lowercase_of(a), lowercase_of(b));
    }
    lemma_eq_by_iff_order_equal(s@, t@, rule_eq_ci(), rule_order_ci());
}

} // verus!
