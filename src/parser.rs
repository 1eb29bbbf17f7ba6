//! The parser: each function reads the text `s`, of `n` characters, from
//! position `i`, and does what the production of the same name in `grammar`
//! states.
use vstd::prelude::*;

use crate::expr::{lits_view, Condition, Expr, ExprView, Lit, Literal, Operator};
use crate::grammar;
use crate::grammar::{Family, Step};
use crate::render::debug_quote;

verus! {

/// The grammar's view of a parser's result.
pub open spec fn step_view<T: View>(r: Result<(T, usize), usize>) -> Step<T::V> {
    match r {
        Ok((t, k)) => Ok((t@, k as int)),
        Err(p) => Err(p as int),
    }
}

/// The grammar's view of a list parser's result.
pub open spec fn list_step(r: Result<(Vec<Literal>, usize), usize>) -> Step<Seq<Lit>> {
    match r {
        Ok((v, k)) => Ok((lits_view(v@), k as int)),
        Err(p) => Err(p as int),
    }
}

/// A parser that succeeds moves forward, and every position stays in the text.
pub open spec fn in_bounds<T>(r: Result<(T, usize), usize>, i: usize, n: usize) -> bool {
    match r {
        Ok((_, k)) => i < k <= n,
        Err(p) => p <= n,
    }
}

/// The view of what `parse` and `parse_for` return.
pub open spec fn outcome_view(r: Result<Expr, String>) -> Result<ExprView, Seq<char>> {
    match r {
        Ok(e) => Ok(e@),
        Err(m) => Err(m@),
    }
}

fn is_space(c: char) -> (r: bool)
    ensures
        r == grammar::is_space(c),
{
    c == ' ' || c == '\t' || c == '\r' || c == '\n'
}

fn is_digit(c: char) -> (r: bool)
    ensures
        r == grammar::is_digit(c),
{
    '0' <= c && c <= '9'
}

fn is_ident_char(c: char) -> (r: bool)
    ensures
        r == grammar::is_ident_char(c),
{
    ('a' <= c && c <= 'z') || ('A' <= c && c <= 'Z') || is_digit(c) || c == '_'
}

fn same_letter(c: char, w: char) -> (r: bool)
    ensures
        r == grammar::same_letter(c, w),
{
    c == w || ('a' <= w && w <= 'z' && (c as u32) + 32 == (w as u32))
}

fn skip_spaces(s: &str, n: usize, i: usize) -> (r: usize)
    requires
        n == s@.len(),
        i <= n,
    ensures
        r == grammar::skip_spaces(s@, i as int),
        i <= r <= n,
{
    let mut j = i;
    while j < n && is_space(s.get_char(j))
        invariant
            n == s@.len(),
            i <= j <= n,
            grammar::skip_spaces(s@, i as int) == grammar::skip_spaces(s@, j as int),
        decreases n - j,
    {
        j += 1;
    }
    j
}

fn ident_end(s: &str, n: usize, i: usize) -> (r: usize)
    requires
        n == s@.len(),
        i <= n,
    ensures
        r == grammar::ident_end(s@, i as int),
        i <= r <= n,
{
    let mut j = i;
    while j < n && is_ident_char(s.get_char(j))
        invariant
            n == s@.len(),
            i <= j <= n,
            grammar::ident_end(s@, i as int) == grammar::ident_end(s@, j as int),
        decreases n - j,
    {
        j += 1;
    }
    j
}

fn digits_end(s: &str, n: usize, i: usize) -> (r: usize)
    requires
        n == s@.len(),
        i <= n,
    ensures
        r == grammar::digits_end(s@, i as int),
        i <= r <= n,
        forall|t: int| i <= t < r ==> grammar::is_digit(#[trigger] s@[t]),
{
    let mut j = i;
    while j < n && is_digit(s.get_char(j))
        invariant
            n == s@.len(),
            i <= j <= n,
            grammar::digits_end(s@, i as int) == grammar::digits_end(s@, j as int),
            forall|t: int| i <= t < j ==> grammar::is_digit(#[trigger] s@[t]),
        decreases n - j,
    {
        j += 1;
    }
    j
}

fn find_char(s: &str, n: usize, i: usize, q: char) -> (r: usize)
    requires
        n == s@.len(),
        i <= n,
    ensures
        r == grammar::find_char(s@, i as int, q),
        i <= r <= n,
{
    let mut j = i;
    while j < n && s.get_char(j) != q
        invariant
            n == s@.len(),
            i <= j <= n,
            grammar::find_char(s@, i as int, q) == grammar::find_char(s@, j as int, q),
        decreases n - j,
    {
        j += 1;
    }
    j
}

fn word_at(s: &str, n: usize, i: usize, w: &str) -> (r: bool)
    requires
        n == s@.len(),
        i <= n,
    ensures
        r == grammar::word_at(s@, i as int, w@),
{
    let m = w.unicode_len();
    if m > n - i {
        return false;
    }
    let mut k: usize = 0;
    while k < m
        invariant
            n == s@.len(),
            m == w@.len(),
            i + m <= n,
            k <= m,
            forall|t: int| 0 <= t < k ==> grammar::same_letter(s@[i + t], #[trigger] w@[t]),
        decreases m - k,
    {
        if !same_letter(s.get_char(i + k), w.get_char(k)) {
            return false;
        }
        k += 1;
    }
    true
}

fn family_ops(f: Family) -> (r: Vec<Operator>)
    ensures
        r@ == grammar::family_ops(f),
{
    let v = match f {
        Family::Equality => vec![Operator::Equals, Operator::NotEquals],
        Family::Ordering => vec![
            Operator::Min,
            Operator::Max,
            Operator::SmallerThan,
            Operator::GreaterThan,
            Operator::BitwiseAnd,
        ],
        Family::Text => vec![Operator::Like, Operator::NotLike],
        Family::Membership => vec![Operator::In, Operator::NotIn],
    };
    assert(v@ =~= grammar::family_ops(f));
    v
}

fn first_operator(s: &str, n: usize, i: usize, ops: &Vec<Operator>) -> (r: Result<
    (Operator, usize),
    usize,
>)
    requires
        n == s@.len(),
        i <= n,
    ensures
        step_view(r) == grammar::first_operator(s@, i as int, ops@),
        in_bounds(r, i, n),
{
    let mut k: usize = 0;
    assert(ops@.subrange(0, ops@.len() as int) =~= ops@);
    while k < ops.len()
        invariant
            n == s@.len(),
            i <= n,
            k <= ops@.len(),
            grammar::first_operator(s@, i as int, ops@) == grammar::first_operator(
                s@,
                i as int,
                ops@.subrange(k as int, ops@.len() as int),
            ),
        decreases ops@.len() - k,
    {
        let op = ops[k];
        let w = op.as_str();
        let ghost rest = ops@.subrange(k as int, ops@.len() as int);
        assert(rest[0] == op);
        assert(rest.drop_first() =~= ops@.subrange(k + 1, ops@.len() as int));
        if word_at(s, n, i, w) {
            let m = w.unicode_len();
            assert(m > 0) by {
                assert(op.symbol().len() > 0);
            }
            return Ok((op, i + m));
        }
        k += 1;
    }
    Err(i)
}

fn integer_lit(s: &str, n: usize, i: usize) -> (r: Result<(Literal, usize), usize>)
    requires
        n == s@.len(),
        i <= n,
    ensures
        step_view(r) == grammar::integer_lit(s@, i as int),
        in_bounds(r, i, n),
{
    let negative = i < n && s.get_char(i) == '-';
    let j = if negative {
        i + 1
    } else {
        i
    };
    let k = digits_end(s, n, j);
    if k == j {
        return Err(j);
    }
    let ghost d = s@.subrange(j as int, k as int);
    assert forall|t: int| 0 <= t < d.len() implies grammar::is_digit(#[trigger] d[t]) by {
        assert(d[t] == s@[j + t]);
    }
    let last: u64 = if negative {
        8
    } else {
        7
    };
    let mut v: u64 = 0;
    let mut p = j;
    assert(s@.subrange(j as int, j as int) =~= Seq::<char>::empty());
    while p < k
        invariant
            n == s@.len(),
            i <= j < k <= n,
            j <= p <= k,
            negative == grammar::char_at(s@, i as int, '-'),
            j == if negative {
                i + 1
            } else {
                i as int
            },
            k == grammar::digits_end(s@, j as int),
            last == grammar::magnitude_limit(negative) - 10 * 922337203685477580,
            d == s@.subrange(j as int, k as int),
            forall|t: int| 0 <= t < d.len() ==> grammar::is_digit(#[trigger] d[t]),
            forall|t: int| j <= t < k ==> grammar::is_digit(#[trigger] s@[t]),
            v as int == grammar::digits_value(s@.subrange(j as int, p as int)),
            v <= grammar::magnitude_limit(negative),
        decreases k - p,
    {
        let c = s.get_char(p);
        let dv = (c as u32 - '0' as u32) as u64;
        let ghost next = s@.subrange(j as int, p + 1);
        assert(next.drop_last() =~= s@.subrange(j as int, p as int));
        assert(d.subrange(0, p + 1 - j) =~= next);
        assert(grammar::is_digit(s@[p as int]));
        assert(dv as int == grammar::digit_value(c));
        assert(grammar::digits_value(next) == 10 * v + dv);
        if v > 922337203685477580 || (v == 922337203685477580 && dv > last) {
            proof {
                grammar::lemma_digits_value_prefix(d, p + 1 - j);
            }
            return Err(j);
        }
        v = v * 10 + dv;
        p += 1;
    }
    assert(s@.subrange(j as int, p as int) == d);
    let value: i64 = if !negative {
        v as i64
    } else if v == 9223372036854775808 {
        i64::MIN
    } else {
        -(v as i64)
    };
    Ok((Literal::Integer(value), k))
}

fn string_lit(s: &str, n: usize, i: usize) -> (r: Result<(Literal, usize), usize>)
    requires
        n == s@.len(),
        i <= n,
    ensures
        step_view(r) == grammar::string_lit(s@, i as int),
        in_bounds(r, i, n),
{
    if i < n {
        let q = s.get_char(i);
        if q == '"' || q == '\'' {
            let k = find_char(s, n, i + 1, q);
            if k < n {
                let t = s.substring_char(i + 1, k);
                return Ok((Literal::String(String::from_str(t)), k + 1));
            } else if q == '"' {
                return Err(i);
            } else {
                return Err(i + 1);
            }
        }
    }
    Err(i)
}

fn literal(s: &str, n: usize, i: usize) -> (r: Result<(Literal, usize), usize>)
    requires
        n == s@.len(),
        i <= n,
    ensures
        step_view(r) == grammar::literal(s@, i as int),
        in_bounds(r, i, n),
{
    match string_lit(s, n, i) {
        Ok(r) => Ok(r),
        Err(_) => integer_lit(s, n, i),
    }
}

fn value_list(s: &str, n: usize, i: usize) -> (r: Result<(Vec<Literal>, usize), usize>)
    requires
        n == s@.len(),
        i <= n,
    ensures
        list_step(r) == grammar::value_list(s@, i as int),
        in_bounds(r, i, n),
{
    match literal(s, n, i) {
        Err(e) => Err(e),
        Ok((first, j)) => {
            let ghost head = seq![first@];
            let mut v: Vec<Literal> = Vec::new();
            v.push(first);
            assert(lits_view(v@) =~= head);
            let mut p = j;
            loop
                invariant
                    n == s@.len(),
                    i < p <= n,
                    grammar::list_rest(s@, j as int, head) == grammar::list_rest(
                        s@,
                        p as int,
                        lits_view(v@),
                    ),
                ensures
                    i < p <= n,
                    grammar::list_rest(s@, j as int, head) == (lits_view(v@), p as int),
                decreases n - p,
            {
                let q = skip_spaces(s, n, p);
                if q < n && s.get_char(q) == ',' {
                    let t = skip_spaces(s, n, q + 1);
                    match literal(s, n, t) {
                        Ok((l, e)) => {
                            assert(lits_view(v@.push(l)) =~= lits_view(v@).push(l@));
                            v.push(l);
                            p = e;
                        },
                        Err(_) => {
                            break ;
                        },
                    }
                } else {
                    break ;
                }
            }
            Ok((v, p))
        },
    }
}

fn list_lit(s: &str, n: usize, i: usize) -> (r: Result<(Vec<Literal>, usize), usize>)
    requires
        n == s@.len(),
        i <= n,
    ensures
        list_step(r) == grammar::list_lit(s@, i as int),
        in_bounds(r, i, n),
{
    if i < n && s.get_char(i) == '(' {
        match value_list(s, n, i + 1) {
            Ok((ls, e)) => {
                if e < n && s.get_char(e) == ')' {
                    Ok((ls, e + 1))
                } else {
                    Err(e)
                }
            },
            Err(e) => Err(e),
        }
    } else {
        Err(i)
    }
}

fn value_of(s: &str, n: usize, i: usize, f: Family) -> (r: Result<(Condition, usize), usize>)
    requires
        n == s@.len(),
        i <= n,
    ensures
        step_view(r) == grammar::value_of(s@, i as int, f),
        in_bounds(r, i, n),
{
    match f {
        Family::Equality => match literal(s, n, i) {
            Ok((l, k)) => Ok((Condition::Literal(l), k)),
            Err(e) => Err(e),
        },
        Family::Ordering => match integer_lit(s, n, i) {
            Ok((l, k)) => Ok((Condition::Literal(l), k)),
            Err(e) => Err(e),
        },
        Family::Text => match string_lit(s, n, i) {
            Ok((l, k)) => Ok((Condition::Literal(l), k)),
            Err(e) => Err(e),
        },
        Family::Membership => match list_lit(s, n, i) {
            Ok((ls, k)) => Ok((Condition::LiteralList(ls), k)),
            Err(e) => Err(e),
        },
    }
}

fn production(s: &str, n: usize, i: usize, f: Family) -> (r: Result<
    ((Operator, Condition), usize),
    usize,
>)
    requires
        n == s@.len(),
        i <= n,
    ensures
        step_view(r) == grammar::production(s@, i as int, f),
        in_bounds(r, i, n),
{
    let ops = family_ops(f);
    match first_operator(s, n, i, &ops) {
        Ok((op, j)) => {
            let t = skip_spaces(s, n, j);
            match value_of(s, n, t, f) {
                Ok((c, k)) => Ok(((op, c), k)),
                Err(e) => Err(e),
            }
        },
        Err(e) => Err(e),
    }
}

fn optional_production(s: &str, n: usize, i: usize, f: Family) -> (r: Result<
    ((Option<Operator>, Condition), usize),
    usize,
>)
    requires
        n == s@.len(),
        i <= n,
    ensures
        step_view(r) == grammar::optional_production(s@, i as int, f),
        in_bounds(r, i, n),
{
    let ops = family_ops(f);
    let (op, j) = match first_operator(s, n, i, &ops) {
        Ok((op, j)) => (Some(op), j),
        Err(_) => (None, i),
    };
    let t = skip_spaces(s, n, j);
    match value_of(s, n, t, f) {
        Ok((c, k)) => Ok(((op, c), k)),
        Err(e) => Err(e),
    }
}

fn raw_production(s: &str, n: usize, i: usize) -> (r: Result<
    ((Option<Operator>, Condition), usize),
    usize,
>)
    requires
        n == s@.len(),
        i <= n,
    ensures
        step_view(r) == grammar::raw_production(s@, i as int),
        in_bounds(r, i, n),
{
    let equality = family_ops(Family::Equality);
    let (op, j) = match first_operator(s, n, i, &equality) {
        Ok((op, j)) => (Some(op), skip_spaces(s, n, j)),
        Err(_) => {
            let text = family_ops(Family::Text);
            match first_operator(s, n, i, &text) {
                Ok((op, j)) => (Some(op), skip_spaces(s, n, j)),
                Err(_) => (None, i),
            }
        },
    };
    if j < n {
        let rest = String::from_str(s.substring_char(j, n));
        Ok(((op, Condition::Literal(Literal::String(rest))), n))
    } else {
        Err(j)
    }
}

fn op_right(s: &str, n: usize, i: usize) -> (r: Result<((Operator, Condition), usize), usize>)
    requires
        n == s@.len(),
        i <= n,
    ensures
        step_view(r) == grammar::op_right(s@, i as int),
        in_bounds(r, i, n),
{
    match production(s, n, i, Family::Equality) {
        Ok(r) => Ok(r),
        Err(_) => match production(s, n, i, Family::Ordering) {
            Ok(r) => Ok(r),
            Err(_) => match production(s, n, i, Family::Text) {
                Ok(r) => Ok(r),
                Err(_) => production(s, n, i, Family::Membership),
            },
        },
    }
}

fn op_right_only(s: &str, n: usize) -> (r: Result<((Option<Operator>, Condition), usize), usize>)
    requires
        n == s@.len(),
    ensures
        step_view(r) == grammar::op_right_only(s@),
        in_bounds(r, 0, n),
{
    let i = skip_spaces(s, n, 0);
    match optional_production(s, n, i, Family::Equality) {
        Ok(r) => Ok(r),
        Err(_) => match optional_production(s, n, i, Family::Ordering) {
            Ok(r) => Ok(r),
            Err(_) => match optional_production(s, n, i, Family::Text) {
                Ok(r) => Ok(r),
                Err(_) => match optional_production(s, n, i, Family::Membership) {
                    Ok(r) => Ok(r),
                    Err(_) => raw_production(s, n, i),
                },
            },
        },
    }
}

fn full_expr(s: &str, n: usize) -> (r: Result<(Expr, usize), usize>)
    requires
        n == s@.len(),
    ensures
        step_view(r) == grammar::full_expr(s@),
        in_bounds(r, 0, n),
{
    let e = ident_end(s, n, 0);
    if e == 0 {
        return Err(0);
    }
    let j = skip_spaces(s, n, e);
    match op_right(s, n, j) {
        Ok(((op, right), k)) => {
            let property = String::from_str(s.substring_char(0, e));
            Ok((Expr { property, op, right }, k))
        },
        Err(p) => Err(p),
    }
}

fn contains_star(t: &String) -> (r: bool)
    ensures
        r == t@.contains('*'),
{
    let s = t.as_str();
    let n = s.unicode_len();
    let mut k: usize = 0;
    while k < n
        invariant
            n == s@.len(),
            s@ == t@,
            k <= n,
            forall|j: int| 0 <= j < k ==> s@[j] != '*',
        decreases n - k,
    {
        if s.get_char(k) == '*' {
            return true;
        }
        k += 1;
    }
    false
}

fn implied_operator(c: &Condition) -> (r: Operator)
    ensures
        r == grammar::implied_operator(c@),
{
    match c {
        Condition::Literal(Literal::String(t)) => {
            if contains_star(t) {
                Operator::Like
            } else {
                Operator::Equals
            }
        },
        Condition::LiteralList(_) => Operator::In,
        Condition::Literal(Literal::Integer(_)) => Operator::Equals,
    }
}

fn failure(s: &str, n: usize, p: usize) -> (r: String)
    requires
        n == s@.len(),
        p <= n,
    ensures
        r@ == grammar::failure_message(s@, p as int),
{
    if n == 0 {
        String::from_str("failed to parse expression")
    } else {
        let mut m = String::from_str("failed to parse ");
        let quoted = debug_quote(s.substring_char(p, n));
        m.append(quoted.as_str());
        m
    }
}

/// Parses a full filter expression such as `id > 1`, `name like "foo*"` or
/// `id in (1, 2)`: a property name, an operator and its value, taking up the
/// whole text.
///
/// On failure the message quotes, with `{:?}`, the text that was left where
/// parsing stopped (`failed to parse "> a"`); an empty text gives
/// `failed to parse expression`. An empty list, as in `id in ()`, is refused.
pub fn parse(expr: &str) -> (r: Result<Expr, String>)
    ensures
        outcome_view(r) == grammar::parse_outcome(expr@),
{
    let n = expr.unicode_len();
    match full_expr(expr, n) {
        Ok((e, k)) => {
            if k == n {
                Ok(e)
            } else {
                Err(failure(expr, n, k))
            }
        },
        Err(p) => Err(failure(expr, n, p)),
    }
}

/// Parses the value of a filter on `prop`, with an optional leading operator
/// (`1`, `>1`, `foo*`, `not like *foo*`, `(1, 2)`). Without an operator, a
/// string with a `*` is matched with `like`, a list with `in`, and anything
/// else with `=`.
///
/// The productions are tried in order and the first that matches decides;
/// what follows the value it read is not looked at (`1 2` reads the integer
/// 1). When no typed value matches, the rest of the text is taken as a raw
/// string, so an empty list `()` reads as the string `"()"`. Only an empty
/// text (`failed to parse expression`) or an operator with nothing after it
/// (`failed to parse ""`) fails.
pub fn parse_for(prop: &str, expr: &str) -> (r: Result<Expr, String>)
    ensures
        outcome_view(r) == grammar::parse_for_outcome(prop@, expr@),
{
    let n = expr.unicode_len();
    match op_right_only(expr, n) {
        Ok(((op, right), _)) => {
            let op = match op {
                Some(o) => o,
                None => implied_operator(&right),
            };
            Ok(Expr { property: String::from_str(prop), op, right })
        },
        Err(p) => Err(failure(expr, n, p)),
    }
}

} // verus!
