//! The filter-expression grammar, stated over character sequences.
//!
//! Each production reads the text `s` from position `i` and gives either the
//! value it recognised with the position after it, or the position at which it
//! failed. Alternatives are ordered: the first that succeeds wins, and when all
//! fail the failure of the last one is reported.
use vstd::prelude::*;

use crate::expr::{Cond, ExprView, Lit, Operator};
use crate::render::debug_quoted;

verus! {

/// What a production may yield: a value and the position after it, or the
/// position of the failure.
pub type Step<T> = Result<(T, int), int>;

pub open spec fn is_space(c: char) -> bool {
    c == ' ' || c == '\t' || c == '\r' || c == '\n'
}

pub open spec fn is_digit(c: char) -> bool {
    '0' <= c && c <= '9'
}

pub open spec fn is_ident_char(c: char) -> bool {
    ('a' <= c && c <= 'z') || ('A' <= c && c <= 'Z') || is_digit(c) || c == '_'
}

/// `c` is the upper-case form of the lower-case ASCII letter `lower`.
pub open spec fn is_upper_of(c: char, lower: char) -> bool {
    'a' <= lower && lower <= 'z' && (c as u32) + 32 == (lower as u32)
}

/// `c` matches `w`, ignoring ASCII case when `w` is a lower-case letter.
pub open spec fn same_letter(c: char, w: char) -> bool {
    c == w || is_upper_of(c, w)
}

pub open spec fn char_at(s: Seq<char>, i: int, c: char) -> bool {
    0 <= i < s.len() && s[i] == c
}

/// The text `w` stands at position `i` of `s`, ignoring the case of letters.
pub open spec fn word_at(s: Seq<char>, i: int, w: Seq<char>) -> bool {
    &&& 0 <= i
    &&& i + w.len() <= s.len()
    &&& forall|k: int| 0 <= k < w.len() ==> same_letter(s[i + k], #[trigger] w[k])
}

/// The position after the whitespace that starts at `i`.
pub open spec fn skip_spaces(s: Seq<char>, i: int) -> int
    decreases s.len() - i,
{
    if 0 <= i < s.len() && is_space(s[i]) {
        skip_spaces(s, i + 1)
    } else {
        i
    }
}

/// The position after the identifier characters that start at `i`.
pub open spec fn ident_end(s: Seq<char>, i: int) -> int
    decreases s.len() - i,
{
    if 0 <= i < s.len() && is_ident_char(s[i]) {
        ident_end(s, i + 1)
    } else {
        i
    }
}

/// The position after the decimal digits that start at `i`.
pub open spec fn digits_end(s: Seq<char>, i: int) -> int
    decreases s.len() - i,
{
    if 0 <= i < s.len() && is_digit(s[i]) {
        digits_end(s, i + 1)
    } else {
        i
    }
}

/// The first position from `i` on that holds `q`, or the length of `s`.
pub open spec fn find_char(s: Seq<char>, i: int, q: char) -> int
    decreases s.len() - i,
{
    if 0 <= i < s.len() && s[i] != q {
        find_char(s, i + 1, q)
    } else {
        i
    }
}

pub open spec fn digit_value(c: char) -> int {
    (c as int) - ('0' as int)
}

/// The number that a sequence of decimal digits denotes.
pub open spec fn digits_value(d: Seq<char>) -> int
    decreases d.len(),
{
    if d.len() == 0 {
        0
    } else {
        10 * digits_value(d.drop_last()) + digit_value(d.last())
    }
}

/// Whitespace that runs from `i` to `e` ends at `e`.
pub proof fn lemma_skip_spaces_to(s: Seq<char>, i: int, e: int)
    requires
        0 <= i <= e <= s.len(),
        forall|t: int| i <= t < e ==> is_space(#[trigger] s[t]),
        e == s.len() || !is_space(s[e]),
    ensures
        skip_spaces(s, i) == e,
    decreases e - i,
{
    if i < e {
        lemma_skip_spaces_to(s, i + 1, e);
    }
}

/// Identifier characters that run from `i` to `e` end at `e`.
pub proof fn lemma_ident_end_to(s: Seq<char>, i: int, e: int)
    requires
        0 <= i <= e <= s.len(),
        forall|t: int| i <= t < e ==> is_ident_char(#[trigger] s[t]),
        e == s.len() || !is_ident_char(s[e]),
    ensures
        ident_end(s, i) == e,
    decreases e - i,
{
    if i < e {
        lemma_ident_end_to(s, i + 1, e);
    }
}

/// Digits that run from `i` to `e` end at `e`.
pub proof fn lemma_digits_end_to(s: Seq<char>, i: int, e: int)
    requires
        0 <= i <= e <= s.len(),
        forall|t: int| i <= t < e ==> is_digit(#[trigger] s[t]),
        e == s.len() || !is_digit(s[e]),
    ensures
        digits_end(s, i) == e,
    decreases e - i,
{
    if i < e {
        lemma_digits_end_to(s, i + 1, e);
    }
}

/// The first `q` from `i` on stands at `e`.
pub proof fn lemma_find_char_to(s: Seq<char>, i: int, e: int, q: char)
    requires
        0 <= i <= e <= s.len(),
        forall|t: int| i <= t < e ==> #[trigger] s[t] != q,
        e == s.len() || s[e] == q,
    ensures
        find_char(s, i, q) == e,
    decreases e - i,
{
    if i < e {
        lemma_find_char_to(s, i + 1, e, q);
    }
}

/// The number that digits denote is never negative.
pub proof fn lemma_digits_value_nonneg(d: Seq<char>)
    requires
        forall|t: int| 0 <= t < d.len() ==> is_digit(#[trigger] d[t]),
    ensures
        digits_value(d) >= 0,
    decreases d.len(),
{
    if d.len() > 0 {
        let e = d.drop_last();
        assert forall|t: int| 0 <= t < e.len() implies is_digit(#[trigger] e[t]) by {
            assert(e[t] == d[t]);
        }
        lemma_digits_value_nonneg(e);
    }
}

/// More digits never denote a smaller number.
pub proof fn lemma_digits_value_prefix(d: Seq<char>, m: int)
    requires
        0 <= m <= d.len(),
        forall|t: int| 0 <= t < d.len() ==> is_digit(#[trigger] d[t]),
    ensures
        digits_value(d.subrange(0, m)) <= digits_value(d),
    decreases d.len(),
{
    if m == d.len() {
        assert(d.subrange(0, m) =~= d);
    } else {
        let e = d.drop_last();
        assert forall|t: int| 0 <= t < e.len() implies is_digit(#[trigger] e[t]) by {
            assert(e[t] == d[t]);
        }
        lemma_digits_value_prefix(e, m);
        assert(e.subrange(0, m) =~= d.subrange(0, m));
        lemma_digits_value_nonneg(e);
    }
}

/// The first operator of `ops` whose text stands at `i`.
pub open spec fn first_operator(s: Seq<char>, i: int, ops: Seq<Operator>) -> Step<Operator>
    decreases ops.len(),
{
    if ops.len() == 0 {
        Err(i)
    } else if word_at(s, i, ops[0].symbol()) {
        Ok((ops[0], i + ops[0].symbol().len()))
    } else {
        first_operator(s, i, ops.drop_first())
    }
}

/// The largest magnitude that an `i64` of the given sign can have.
pub open spec fn magnitude_limit(negative: bool) -> int {
    if negative {
        i64::MAX + 1
    } else {
        i64::MAX as int
    }
}

/// An integer: an optional `-` and one or more digits, within `i64`.
pub open spec fn integer_lit(s: Seq<char>, i: int) -> Step<Lit> {
    let negative = char_at(s, i, '-');
    let j = if negative { i + 1 } else { i };
    let k = digits_end(s, j);
    let v = digits_value(s.subrange(j, k));
    if k == j || v > magnitude_limit(negative) {
        Err(j)
    } else {
        Ok((Lit::Int(if negative { -v } else { v }), k))
    }
}

/// A string: text between two double quotes or two single quotes, taken as
/// it stands.
pub open spec fn string_lit(s: Seq<char>, i: int) -> Step<Lit> {
    if char_at(s, i, '"') || char_at(s, i, '\'') {
        let q = s[i];
        let k = find_char(s, i + 1, q);
        if k < s.len() {
            Ok((Lit::Str(s.subrange(i + 1, k)), k + 1))
        } else if q == '"' {
            Err(i)
        } else {
            Err(i + 1)
        }
    } else {
        Err(i)
    }
}

/// A string or, failing that, an integer.
pub open spec fn literal(s: Seq<char>, i: int) -> Step<Lit> {
    match string_lit(s, i) {
        Ok(r) => Ok(r),
        Err(_) => integer_lit(s, i),
    }
}

/// The literals that follow `p`, each after a comma with optional whitespace
/// around it, appended to `acc`.
pub open spec fn list_rest(s: Seq<char>, p: int, acc: Seq<Lit>) -> (Seq<Lit>, int)
    decreases s.len() - p,
{
    let q = skip_spaces(s, p);
    if char_at(s, q, ',') {
        match literal(s, skip_spaces(s, q + 1)) {
            Ok((l, e)) => if p < e <= s.len() {
                list_rest(s, e, acc.push(l))
            } else {
                (acc, p)
            },
            Err(_) => (acc, p),
        }
    } else {
        (acc, p)
    }
}

/// One or more literals separated by commas.
pub open spec fn value_list(s: Seq<char>, i: int) -> Step<Seq<Lit>> {
    match literal(s, i) {
        Ok((l, j)) => Ok(list_rest(s, j, seq![l])),
        Err(e) => Err(e),
    }
}

/// A parenthesised, non-empty list of literals.
pub open spec fn list_lit(s: Seq<char>, i: int) -> Step<Seq<Lit>> {
    if char_at(s, i, '(') {
        match value_list(s, i + 1) {
            Ok((ls, e)) => if char_at(s, e, ')') {
                Ok((ls, e + 1))
            } else {
                Err(e)
            },
            Err(e) => Err(e),
        }
    } else {
        Err(i)
    }
}

/// The four families of operators, each with the kind of value it takes.
#[derive(Clone, Copy, PartialEq, Eq, Structural)]
pub enum Family {
    /// `=` and `!=`, with a string or an integer.
    Equality,
    /// `>=`, `<=`, `<`, `>` and `&`, with an integer.
    Ordering,
    /// `like` and `not like`, with a string.
    Text,
    /// `in` and `not in`, with a list.
    Membership,
}

/// The operators of a family, in the order in which they are tried.
pub open spec fn family_ops(f: Family) -> Seq<Operator> {
    match f {
        Family::Equality => seq![Operator::Equals, Operator::NotEquals],
        Family::Ordering => seq![
            Operator::Min,
            Operator::Max,
            Operator::SmallerThan,
            Operator::GreaterThan,
            Operator::BitwiseAnd,
        ],
        Family::Text => seq![Operator::Like, Operator::NotLike],
        Family::Membership => seq![Operator::In, Operator::NotIn],
    }
}

/// The value that the operators of a family take.
pub open spec fn value_of(s: Seq<char>, i: int, f: Family) -> Step<Cond> {
    match f {
        Family::Equality => match literal(s, i) {
            Ok((l, k)) => Ok((Cond::One(l), k)),
            Err(e) => Err(e),
        },
        Family::Ordering => match integer_lit(s, i) {
            Ok((l, k)) => Ok((Cond::One(l), k)),
            Err(e) => Err(e),
        },
        Family::Text => match string_lit(s, i) {
            Ok((l, k)) => Ok((Cond::One(l), k)),
            Err(e) => Err(e),
        },
        Family::Membership => match list_lit(s, i) {
            Ok((ls, k)) => Ok((Cond::List(ls), k)),
            Err(e) => Err(e),
        },
    }
}

/// An operator of the family, optional whitespace, and its value.
pub open spec fn production(s: Seq<char>, i: int, f: Family) -> Step<(Operator, Cond)> {
    match first_operator(s, i, family_ops(f)) {
        Ok((op, j)) => match value_of(s, skip_spaces(s, j), f) {
            Ok((c, k)) => Ok(((op, c), k)),
            Err(e) => Err(e),
        },
        Err(e) => Err(e),
    }
}

/// The same as `production`, but the operator may be left out.
pub open spec fn optional_production(s: Seq<char>, i: int, f: Family) -> Step<
    (Option<Operator>, Cond),
> {
    let (op, j) = match first_operator(s, i, family_ops(f)) {
        Ok((op, j)) => (Some(op), j),
        Err(_) => (None, i),
    };
    match value_of(s, skip_spaces(s, j), f) {
        Ok((c, k)) => Ok(((op, c), k)),
        Err(e) => Err(e),
    }
}

/// The last resort for a bare value: an optional equality or text operator,
/// then all the remaining text, which must not be empty, as a string.
pub open spec fn raw_production(s: Seq<char>, i: int) -> Step<(Option<Operator>, Cond)> {
    let (op, j) = match first_operator(s, i, family_ops(Family::Equality)) {
        Ok((op, j)) => (Some(op), skip_spaces(s, j)),
        Err(_) => match first_operator(s, i, family_ops(Family::Text)) {
            Ok((op, j)) => (Some(op), skip_spaces(s, j)),
            Err(_) => (None, i),
        },
    };
    if j < s.len() {
        Ok(((op, Cond::One(Lit::Str(s.subrange(j, s.len() as int)))), s.len() as int))
    } else {
        Err(j)
    }
}

/// Operator and value of a full expression, the four families in order.
pub open spec fn op_right(s: Seq<char>, i: int) -> Step<(Operator, Cond)> {
    match production(s, i, Family::Equality) {
        Ok(r) => Ok(r),
        Err(_) => match production(s, i, Family::Ordering) {
            Ok(r) => Ok(r),
            Err(_) => match production(s, i, Family::Text) {
                Ok(r) => Ok(r),
                Err(_) => production(s, i, Family::Membership),
            },
        },
    }
}

/// Operator and value of a bare value: leading whitespace, the four families
/// with optional operators in order, then the raw string.
pub open spec fn op_right_only(s: Seq<char>) -> Step<(Option<Operator>, Cond)> {
    let i = skip_spaces(s, 0);
    match optional_production(s, i, Family::Equality) {
        Ok(r) => Ok(r),
        Err(_) => match optional_production(s, i, Family::Ordering) {
            Ok(r) => Ok(r),
            Err(_) => match optional_production(s, i, Family::Text) {
                Ok(r) => Ok(r),
                Err(_) => match optional_production(s, i, Family::Membership) {
                    Ok(r) => Ok(r),
                    Err(_) => raw_production(s, i),
                },
            },
        },
    }
}

/// A property name, optional whitespace, an operator and its value.
pub open spec fn full_expr(s: Seq<char>) -> Step<ExprView> {
    let e = ident_end(s, 0);
    if e == 0 {
        Err(0)
    } else {
        match op_right(s, skip_spaces(s, e)) {
            Ok(((op, right), k)) => Ok(
                (ExprView { property: s.subrange(0, e), op, right }, k),
            ),
            Err(p) => Err(p),
        }
    }
}

/// The operator that a bare value implies: `like` for a string with a `*`,
/// `in` for a list, `=` otherwise.
pub open spec fn implied_operator(c: Cond) -> Operator {
    match c {
        Cond::One(Lit::Str(t)) => if t.contains('*') {
            Operator::Like
        } else {
            Operator::Equals
        },
        Cond::List(_) => Operator::In,
        Cond::One(Lit::Int(_)) => Operator::Equals,
    }
}

/// A full expression that takes up the whole text, or where parsing stopped.
pub open spec fn parse_result(s: Seq<char>) -> Result<ExprView, int> {
    match full_expr(s) {
        Ok((x, k)) => if k == s.len() {
            Ok(x)
        } else {
            Err(k)
        },
        Err(p) => Err(p),
    }
}

/// A bare value for `property`, or where parsing stopped. The first
/// production that matches decides; text after the value it read is not
/// looked at. Only a text whose last resort, the raw string, is empty fails.
pub open spec fn parse_for_result(property: Seq<char>, s: Seq<char>) -> Result<ExprView, int> {
    match op_right_only(s) {
        Ok(((op, right), _)) => Ok(
            ExprView {
                property,
                op: match op {
                    Some(o) => o,
                    None => implied_operator(right),
                },
                right,
            },
        ),
        Err(p) => Err(p),
    }
}

/// The message for a failure at position `p` of `s`: it quotes what was left.
pub open spec fn failure_message(s: Seq<char>, p: int) -> Seq<char> {
    if s.len() == 0 {
        "failed to parse expression"@
    } else {
        "failed to parse "@ + debug_quoted(s.subrange(p, s.len() as int))
    }
}

/// What `parse` returns for `s`.
pub open spec fn parse_outcome(s: Seq<char>) -> Result<ExprView, Seq<char>> {
    match parse_result(s) {
        Ok(x) => Ok(x),
        Err(p) => Err(failure_message(s, p)),
    }
}

/// What `parse_for` returns for `property` and `s`.
pub open spec fn parse_for_outcome(property: Seq<char>, s: Seq<char>) -> Result<
    ExprView,
    Seq<char>,
> {
    match parse_for_result(property, s) {
        Ok(x) => Ok(x),
        Err(p) => Err(failure_message(s, p)),
    }
}

} // verus!
