//! Laws that relate the parser, its grammar and the text forms.
use vstd::prelude::*;

use crate::expr::{Cond, ExprView, Lit, Operator};
use crate::grammar::{
    char_at, first_operator, ident_end, same_letter, digits_value, family_ops, integer_lit, is_digit, is_ident_char, is_space, lemma_digits_end_to,
    lemma_ident_end_to, lemma_skip_spaces_to, implied_operator, list_lit, literal, raw_production, lemma_find_char_to, magnitude_limit, optional_production, parse_for_outcome, parse_outcome, parse_result, production, skip_spaces, string_lit, word_at,
    Family,
};
use crate::render::{cond_text, expr_text};

verus! {

/// An integer literal at `t` that runs to the end of `s` is read as a
/// literal of either kind, and to the end.
proof fn lemma_integer_to_end(s: Seq<char>, t: int, negative: bool, digits: Seq<char>)
    requires
        0 <= t < s.len(),
        s.subrange(t, s.len() as int) == (if negative {
            seq!['-']
        } else {
            Seq::<char>::empty()
        }) + digits,
        digits.len() > 0,
        forall|k: int| 0 <= k < digits.len() ==> is_digit(#[trigger] digits[k]),
        digits_value(digits) <= magnitude_limit(negative),
    ensures
        ({
            let v = digits_value(digits);
            let r = Ok::<(Lit, int), int>((Lit::Int(if negative { -v } else { v }), s.len() as int));
            &&& integer_lit(s, t) == r
            &&& literal(s, t) == r
        }),
{
    let sign: Seq<char> = if negative {
        seq!['-']
    } else {
        Seq::<char>::empty()
    };
    let rest = s.subrange(t, s.len() as int);
    assert(rest[0] == s[t]);
    let j = t + sign.len();
    assert(negative == char_at(s, t, '-')) by {
        if !negative {
            assert(s[t] == digits[0]);
        }
    }
    assert forall|k: int| j <= k < s.len() implies is_digit(#[trigger] s[k]) by {
        assert(s[k] == rest[k - t]);
        assert(rest[k - t] == digits[k - j]);
    }
    lemma_digits_end_to(s, j, s.len() as int);
    assert forall|k: int| 0 <= k < digits.len() implies #[trigger] s.subrange(
        j,
        s.len() as int,
    )[k] == digits[k] by {
        assert(s[j + k] == rest[j + k - t]);
    }
    assert(s.subrange(j, s.len() as int) =~= digits);
    assert(string_lit(s, t) is Err) by {
        if !negative {
            assert(s[t] == digits[0]);
        }
    }
}

/// `w` does not stand at `i` when its `k`-th character differs.
proof fn lemma_not_word_at(s: Seq<char>, i: int, w: Seq<char>, k: int)
    requires
        0 <= k < w.len(),
        0 <= i + k < s.len(),
        !same_letter(s[i + k], w[k]),
    ensures
        !word_at(s, i, w),
{
}

/// The first operator found at `j`, where the text of an equality or
/// ordering operator stands and a space follows it.
proof fn lemma_operator_at(s: Seq<char>, j: int, op: Operator)
    requires
        0 <= j,
        j + op.symbol().len() < s.len(),
        forall|k: int| 0 <= k < op.symbol().len() ==> s[j + k] == #[trigger] op.symbol()[k],
        s[j + op.symbol().len()] == ' ',
        op is Equals || op is NotEquals || op is Min || op is Max || op is SmallerThan
            || op is GreaterThan || op is BitwiseAnd,
    ensures
        op is Equals || op is NotEquals ==> first_operator(
            s,
            j,
            family_ops(Family::Equality),
        ) == Ok::<(Operator, int), int>((op, j + op.symbol().len())),
        !(op is Equals || op is NotEquals) ==> first_operator(
            s,
            j,
            family_ops(Family::Equality),
        ) is Err && first_operator(s, j, family_ops(Family::Ordering)) == Ok::<
            (Operator, int),
            int,
        >((op, j + op.symbol().len())),
{
    let sym = op.symbol();
    assert(sym[0] == s[j]);
    assert(word_at(s, j, sym));
    let eq = family_ops(Family::Equality);
    let ord = family_ops(Family::Ordering);
    let e1 = eq.drop_first();
    let o1 = ord.drop_first();
    let o2 = o1.drop_first();
    let o3 = o2.drop_first();
    let o4 = o3.drop_first();
    assert(eq[0] == Operator::Equals);
    assert(e1[0] == Operator::NotEquals);
    assert(ord[0] == Operator::Min);
    assert(o1[0] == Operator::Max);
    assert(o2[0] == Operator::SmallerThan);
    assert(o3[0] == Operator::GreaterThan);
    assert(o4[0] == Operator::BitwiseAnd);
    if op is Equals {
        return;
    }
    lemma_not_word_at(s, j, Operator::Equals.symbol(), 0);
    assert(first_operator(s, j, eq) == first_operator(s, j, e1));
    if op is NotEquals {
        return;
    }
    lemma_not_word_at(s, j, Operator::NotEquals.symbol(), 0);
    assert(e1.drop_first() =~= Seq::<Operator>::empty());
    assert(first_operator(s, j, e1) == first_operator(s, j, e1.drop_first()));
    if op is Min {
        return;
    }
    if op is GreaterThan {
        assert(s[j + 1] == ' ');
        lemma_not_word_at(s, j, Operator::Min.symbol(), 1);
    } else {
        lemma_not_word_at(s, j, Operator::Min.symbol(), 0);
    }
    assert(first_operator(s, j, ord) == first_operator(s, j, o1));
    if op is Max {
        return;
    }
    if op is SmallerThan {
        assert(s[j + 1] == ' ');
        lemma_not_word_at(s, j, Operator::Max.symbol(), 1);
    } else {
        lemma_not_word_at(s, j, Operator::Max.symbol(), 0);
    }
    assert(first_operator(s, j, o1) == first_operator(s, j, o2));
    if op is SmallerThan {
        return;
    }
    lemma_not_word_at(s, j, Operator::SmallerThan.symbol(), 0);
    assert(first_operator(s, j, o2) == first_operator(s, j, o3));
    if op is GreaterThan {
        return;
    }
    lemma_not_word_at(s, j, Operator::GreaterThan.symbol(), 0);
    assert(first_operator(s, j, o3) == first_operator(s, j, o4));
}

/// The parse of a text that holds, from position `a` on, a space, an
/// operator of the equality or ordering family, a space and an integer
/// literal that runs to the end.
proof fn lemma_comparison(s: Seq<char>, a: int, op: Operator, lit: Lit)
    requires
        0 < a,
        a + 1 + op.symbol().len() + 1 < s.len(),
        ident_end(s, 0) == a,
        skip_spaces(s, a) == a + 1,
        skip_spaces(s, a + 1 + op.symbol().len()) == a + 1 + op.symbol().len() + 1,
        forall|k: int|
            0 <= k < op.symbol().len() ==> s[a + 1 + k] == #[trigger] op.symbol()[k],
        s[a + 1 + op.symbol().len()] == ' ',
        op is Equals || op is NotEquals || op is Min || op is Max || op is SmallerThan
            || op is GreaterThan || op is BitwiseAnd,
        integer_lit(s, a + 1 + op.symbol().len() + 1) == Ok::<(Lit, int), int>(
            (lit, s.len() as int),
        ),
        literal(s, a + 1 + op.symbol().len() + 1) == Ok::<(Lit, int), int>((lit, s.len() as int)),
    ensures
        parse_result(s) == Ok::<ExprView, int>(
            ExprView { property: s.subrange(0, a), op, right: Cond::One(lit) },
        ),
{
    let j = a + 1;
    lemma_operator_at(s, j, op);
    if op is Equals || op is NotEquals {
        assert(production(s, j, Family::Equality) == Ok::<((Operator, Cond), int), int>(
            ((op, Cond::One(lit)), s.len() as int),
        ));
    } else {
        assert(production(s, j, Family::Equality) is Err);
        assert(production(s, j, Family::Ordering) == Ok::<((Operator, Cond), int), int>(
            ((op, Cond::One(lit)), s.len() as int),
        ));
    }
}

/// A comparison with an integer: for a property name `p`, an operator of the
/// equality or ordering family and an integer literal (an optional `-` and
/// digits, together within `i64`), the text `p op n` parses to that
/// property, that operator and that integer.
#[verifier::spinoff_prover]
#[verifier::rlimit(60)]
pub proof fn law_integer_comparison(p: Seq<char>, op: Operator, negative: bool, digits: Seq<char>)
    requires
        p.len() > 0,
        forall|k: int| 0 <= k < p.len() ==> is_ident_char(#[trigger] p[k]),
        op is Equals || op is NotEquals || op is Min || op is Max || op is SmallerThan
            || op is GreaterThan || op is BitwiseAnd,
        digits.len() > 0,
        forall|k: int| 0 <= k < digits.len() ==> is_digit(#[trigger] digits[k]),
        digits_value(digits) <= magnitude_limit(negative),
    ensures
        ({
            let sign = if negative {
                seq!['-']
            } else {
                Seq::<char>::empty()
            };
            let v = digits_value(digits);
            parse_outcome(p + seq![' '] + op.symbol() + seq![' '] + sign + digits) == Ok::<
                ExprView,
                Seq<char>,
            >(ExprView { property: p, op, right: Cond::One(Lit::Int(if negative { -v } else { v })) })
        }),
{
    let sign: Seq<char> = if negative {
        seq!['-']
    } else {
        Seq::<char>::empty()
    };
    let v = digits_value(digits);
    let sym = op.symbol();
    let s = p + seq![' '] + sym + seq![' '] + sign + digits;
    let a = p.len() as int;
    let m = sym.len() as int;
    let j = a + 1;
    let t = j + m + 1;
    assert forall|k: int| 0 <= k < a implies #[trigger] s[k] == p[k] by {}
    assert forall|k: int| 0 <= k < m implies s[j + k] == #[trigger] sym[k] by {}
    assert(s[a] == ' ');
    assert(s[j + m] == ' ');
    assert(s.subrange(t, s.len() as int) =~= sign + digits);
    assert(s.subrange(0, a) =~= p);
    lemma_ident_end_to(s, 0, a);
    assert(sym[0] == s[j]);
    lemma_skip_spaces_to(s, j, j);
    if negative {
        assert(s[t] == '-');
    } else {
        assert(s[t] == digits[0]);
    }
    lemma_skip_spaces_to(s, t, t);
    lemma_integer_to_end(s, t, negative, digits);
    lemma_comparison(s, a, op, Lit::Int(if negative { -v } else { v }));
}

/// No operator of `ops` stands at `i`.
proof fn lemma_no_operator(s: Seq<char>, i: int, ops: Seq<Operator>)
    requires
        forall|k: int| 0 <= k < ops.len() ==> !word_at(s, i, #[trigger] ops[k].symbol()),
    ensures
        first_operator(s, i, ops) == Err::<(Operator, int), int>(i),
    decreases ops.len(),
{
    if ops.len() > 0 {
        let rest = ops.drop_first();
        assert forall|k: int| 0 <= k < rest.len() implies !word_at(
            s,
            i,
            #[trigger] rest[k].symbol(),
        ) by {
            assert(rest[k] == ops[k + 1]);
        }
        lemma_no_operator(s, i, rest);
    }
}

/// Nothing of the equality, ordering or membership families, and no
/// literal, stands at the start of a text that starts with a letter of `like`
/// or `not like`, in either case.
proof fn lemma_word_start(s: Seq<char>)
    requires
        s.len() > 0,
        same_letter(s[0], 'l') || same_letter(s[0], 'n'),
    ensures
        optional_production(s, 0, Family::Equality) is Err,
        optional_production(s, 0, Family::Ordering) is Err,
        skip_spaces(s, 0) == 0,
{
    let eq = family_ops(Family::Equality);
    let ord = family_ops(Family::Ordering);
    assert forall|k: int| 0 <= k < eq.len() implies !word_at(s, 0, #[trigger] eq[k].symbol()) by {
        lemma_not_word_at(s, 0, eq[k].symbol(), 0);
    }
    assert forall|k: int| 0 <= k < ord.len() implies !word_at(s, 0, #[trigger] ord[k].symbol()) by {
        lemma_not_word_at(s, 0, ord[k].symbol(), 0);
    }
    lemma_no_operator(s, 0, eq);
    lemma_no_operator(s, 0, ord);
    lemma_skip_spaces_to(s, 0, 0);
    lemma_digits_end_to(s, 0, 0);
}

/// `like "t"` or `not like "t"`, its word written in any mix of cases, is
/// read as that operator with the string `t`.
proof fn lemma_word_operator(property: Seq<char>, op: Operator, u: Seq<char>, t: Seq<char>)
    requires
        op is Like || op is NotLike,
        u.len() == op.symbol().len(),
        forall|k: int| 0 <= k < u.len() ==> same_letter(u[k], #[trigger] op.symbol()[k]),
        forall|k: int| 0 <= k < t.len() ==> #[trigger] t[k] != '"',
    ensures
        parse_for_outcome(property, u + seq![' ', '"'] + t + seq!['"']) == Ok::<
            ExprView,
            Seq<char>,
        >(ExprView { property, op, right: Cond::One(Lit::Str(t)) }),
{
    let sym = op.symbol();
    let s = u + seq![' ', '"'] + t + seq!['"'];
    let m = u.len() as int;
    let n = s.len() as int;
    assert forall|k: int| 0 <= k < m implies #[trigger] s[k] == u[k] by {}
    assert(s[m] == ' ');
    assert(s[m + 1] == '"');
    assert forall|k: int| 0 <= k < t.len() implies #[trigger] s[m + 2 + k] == t[k] by {}
    assert(s[n - 1] == '"');
    assert(same_letter(u[0], sym[0]));
    lemma_word_start(s);
    let text = family_ops(Family::Text);
    assert(text[0] == Operator::Like);
    assert(text.drop_first()[0] == Operator::NotLike);
    assert forall|k: int| 0 <= k < sym.len() implies same_letter(s[0 + k], #[trigger] sym[k]) by {
        assert(s[k] == u[k]);
    }
    assert(word_at(s, 0, sym));
    if op is NotLike {
        lemma_not_word_at(s, 0, Operator::Like.symbol(), 0);
        assert(first_operator(s, 0, text) == first_operator(s, 0, text.drop_first()));
    }
    assert(first_operator(s, 0, text) == Ok::<(Operator, int), int>((op, m)));
    lemma_skip_spaces_to(s, m, m + 1);
    assert forall|k: int| m + 2 <= k < n - 1 implies #[trigger] s[k] != '"' by {
        assert(s[m + 2 + (k - m - 2)] == t[k - m - 2]);
    }
    lemma_find_char_to(s, m + 2, n - 1, '"');
    assert(s.subrange(m + 2, n - 1) =~= t);
    assert(optional_production(s, 0, Family::Text) == Ok::<
        ((Option<Operator>, Cond), int),
        int,
    >(((Some(op), Cond::One(Lit::Str(t))), n)));
}

/// Word operators ignore case: for `like` or `not like` written in any mix of
/// cases, followed by a space and a double-quoted string `t`, `parse_for`
/// reads the operator and `t`, just as for the lower-case word.
pub proof fn law_word_operator_case(property: Seq<char>, op: Operator, u: Seq<char>, t: Seq<char>)
    requires
        op is Like || op is NotLike,
        u.len() == op.symbol().len(),
        forall|k: int| 0 <= k < u.len() ==> same_letter(u[k], #[trigger] op.symbol()[k]),
        forall|k: int| 0 <= k < t.len() ==> #[trigger] t[k] != '"',
    ensures
        parse_for_outcome(property, u + seq![' ', '"'] + t + seq!['"']) == Ok::<
            ExprView,
            Seq<char>,
        >(ExprView { property, op, right: Cond::One(Lit::Str(t)) }),
        parse_for_outcome(property, u + seq![' ', '"'] + t + seq!['"']) == parse_for_outcome(
            property,
            op.symbol() + seq![' ', '"'] + t + seq!['"'],
        ),
{
    lemma_word_operator(property, op, u, t);
    lemma_word_operator(property, op, op.symbol(), t);
}

/// An empty list is refused: `(` directly followed by `)` is no list.
pub proof fn law_empty_list_refused(s: Seq<char>, i: int)
    requires
        char_at(s, i, '('),
        char_at(s, i + 1, ')'),
    ensures
        list_lit(s, i) is Err,
{
    lemma_digits_end_to(s, i + 1, i + 1);
}

/// A text that holds, from position `a` on, a space, `in`, a space and `()`
/// does not parse.
proof fn lemma_empty_membership(s: Seq<char>, a: int)
    requires
        0 < a,
        s.len() == a + 6,
        ident_end(s, 0) == a,
        s[a] == ' ',
        s[a + 1] == 'i',
        s[a + 2] == 'n',
        s[a + 3] == ' ',
        s[a + 4] == '(',
        s[a + 5] == ')',
    ensures
        parse_result(s) is Err,
{
    let j = a + 1;
    lemma_skip_spaces_to(s, j, j);
    lemma_skip_spaces_to(s, j + 2, j + 3);
    let eq = family_ops(Family::Equality);
    let ord = family_ops(Family::Ordering);
    let text = family_ops(Family::Text);
    let set = family_ops(Family::Membership);
    assert forall|k: int| 0 <= k < eq.len() implies !word_at(s, j, #[trigger] eq[k].symbol()) by {
        lemma_not_word_at(s, j, eq[k].symbol(), 0);
    }
    assert forall|k: int| 0 <= k < ord.len() implies !word_at(s, j, #[trigger] ord[k].symbol()) by {
        lemma_not_word_at(s, j, ord[k].symbol(), 0);
    }
    assert forall|k: int| 0 <= k < text.len() implies !word_at(
        s,
        j,
        #[trigger] text[k].symbol(),
    ) by {
        lemma_not_word_at(s, j, text[k].symbol(), 0);
    }
    lemma_no_operator(s, j, eq);
    lemma_no_operator(s, j, ord);
    lemma_no_operator(s, j, text);
    assert(set[0] == Operator::In);
    assert(word_at(s, j, Operator::In.symbol()));
    law_empty_list_refused(s, j + 3);
}

/// A membership test against an empty list does not parse: for a property
/// name `p`, `p in ()` is an error.
pub proof fn law_empty_membership_refused(p: Seq<char>)
    requires
        p.len() > 0,
        forall|k: int| 0 <= k < p.len() ==> is_ident_char(#[trigger] p[k]),
    ensures
        parse_outcome(p + seq![' ', 'i', 'n', ' ', '(', ')']) is Err,
{
    let s = p + seq![' ', 'i', 'n', ' ', '(', ')'];
    let a = p.len() as int;
    assert forall|k: int| 0 <= k < a implies #[trigger] s[k] == p[k] by {}
    assert(s[a] == ' ');
    lemma_ident_end_to(s, 0, a);
    lemma_empty_membership(s, a);
}

/// A bare value is always read: when the text after leading whitespace is not
/// empty and starts with no operator, `parse_for` succeeds, for the given
/// property, with the operator that the value implies.
pub proof fn law_bare_value_accepted(property: Seq<char>, s: Seq<char>)
    requires
        skip_spaces(s, 0) < s.len(),
        forall|f: Family| #[trigger] first_operator(s, skip_spaces(s, 0), family_ops(f)) is Err,
    ensures
        parse_for_outcome(property, s) is Ok,
        parse_for_outcome(property, s) matches Ok(e) ==> e.property == property && e.op
            == implied_operator(e.right),
{
    let i = skip_spaces(s, 0);
    assert(first_operator(s, i, family_ops(Family::Equality)) is Err);
    assert(first_operator(s, i, family_ops(Family::Ordering)) is Err);
    assert(first_operator(s, i, family_ops(Family::Text)) is Err);
    assert(first_operator(s, i, family_ops(Family::Membership)) is Err);
    assert(raw_production(s, i) is Ok);
}

/// The text form of an expression holds its property, then the operator's
/// canonical text, then the text form of its value, separated by spaces.
pub proof fn law_display_parts(e: ExprView)
    ensures
        ({
            let t = expr_text(e);
            let a = e.property.len() as int;
            let m = e.op.symbol().len() as int;
            let c = cond_text(e.right);
            &&& t.len() == a + 1 + m + 1 + c.len()
            &&& t.subrange(0, a) == e.property
            &&& t.subrange(a + 1, a + 1 + m) == e.op.symbol()
            &&& t.subrange(t.len() - c.len(), t.len() as int) == c
        }),
{
    let t = expr_text(e);
    let a = e.property.len() as int;
    let m = e.op.symbol().len() as int;
    let c = cond_text(e.right);
    reveal_strlit(" ");
    assert(t.subrange(0, a) =~= e.property);
    assert(t.subrange(a + 1, a + 1 + m) =~= e.op.symbol());
    assert(t.subrange(t.len() - c.len(), t.len() as int) =~= c);
}

} // verus!
