//! Text forms of literals, conditions and expressions, as shown to a user.
use vstd::prelude::*;

use crate::expr::{lits_view, Cond, Condition, Expr, ExprView, Lit, Literal, Operator};

verus! {

/// The text that `{:?}` gives for a string: quoted, with escapes.
pub uninterp spec fn debug_quoted(s: Seq<char>) -> Seq<char>;

/// Relies on `<str as Debug>::fmt`, which writes the text in double quotes
/// with quotes, backslashes and control characters escaped; the result depends
/// on the characters alone.
#[verifier::external_body]
pub(crate) fn debug_quote(s: &str) -> (r: String)
    ensures
        r@ == debug_quoted(s@),
{
    format!("{:?}", s)
}

pub open spec fn decimal_digits() -> Seq<char> {
    "0123456789"@
}

/// The decimal form of a natural number, without leading zeros.
pub open spec fn nat_text(v: nat) -> Seq<char>
    decreases v,
{
    if v < 10 {
        seq![decimal_digits()[v as int]]
    } else {
        nat_text(v / 10).push(decimal_digits()[(v % 10) as int])
    }
}

/// The decimal form of an integer, with a `-` when it is negative.
pub open spec fn int_text(v: int) -> Seq<char> {
    if v < 0 {
        "-"@ + nat_text((-v) as nat)
    } else {
        nat_text(v as nat)
    }
}

/// A literal as text: an integer in decimal, a string quoted.
pub open spec fn lit_text(l: Lit) -> Seq<char> {
    match l {
        Lit::Int(v) => int_text(v),
        Lit::Str(t) => debug_quoted(t),
    }
}

/// Literals as text, separated by `, `.
pub open spec fn list_text(ls: Seq<Lit>) -> Seq<char>
    decreases ls.len(),
{
    if ls.len() == 0 {
        Seq::empty()
    } else if ls.len() == 1 {
        lit_text(ls[0])
    } else {
        list_text(ls.drop_last()) + ", "@ + lit_text(ls.last())
    }
}

/// A condition as text; a list stands in parentheses.
pub open spec fn cond_text(c: Cond) -> Seq<char> {
    match c {
        Cond::One(l) => lit_text(l),
        Cond::List(ls) => "("@ + list_text(ls) + ")"@,
    }
}

/// An expression as text: property, operator and value, separated by spaces.
pub open spec fn expr_text(e: ExprView) -> Seq<char> {
    e.property + " "@ + e.op.symbol() + " "@ + cond_text(e.right)
}

fn push_nat(out: &mut String, v: u64)
    ensures
        final(out)@ == old(out)@ + nat_text(v as nat),
    decreases v,
{
    let ghost start = out@;
    if v >= 10 {
        push_nat(out, v / 10);
    }
    let digits = "0123456789";
    proof {
        reveal_strlit("0123456789");
    }
    let d = (v % 10) as usize;
    let digit = digits.substring_char(d, d + 1);
    assert(digit@ =~= seq![decimal_digits()[d as int]]);
    out.append(digit);
    if v >= 10 {
        assert(out@ =~= start + nat_text(v as nat));
    } else {
        assert(out@ =~= start + nat_text(v as nat));
    }
}

/// Appends the decimal form of `v`.
pub(crate) fn push_int(out: &mut String, v: i64)
    ensures
        final(out)@ == old(out)@ + int_text(v as int),
{
    let ghost start = out@;
    if v < 0 {
        out.append("-");
        let m: u64 = ((-(v + 1)) as u64) + 1;
        push_nat(out, m);
        assert(out@ =~= start + int_text(v as int));
    } else {
        push_nat(out, v as u64);
    }
}

fn push_literal(out: &mut String, l: &Literal)
    ensures
        final(out)@ == old(out)@ + lit_text(l@),
{
    match l {
        Literal::Integer(v) => push_int(out, *v),
        Literal::String(t) => {
            let quoted = debug_quote(t.as_str());
            out.append(quoted.as_str());
        },
    }
}

impl Operator {
    /// The canonical text of the operator.
    pub fn to_string(&self) -> (r: String)
        ensures
            r@ == self.symbol(),
    {
        String::from_str(self.as_str())
    }
}

impl Condition {
    /// The value as text: an integer in decimal, a string quoted, a list in
    /// parentheses with `, ` between its items.
    pub fn to_string(&self) -> (r: String)
        ensures
            r@ == cond_text(self@),
    {
        let mut out = String::new();
        self.push_text(&mut out);
        assert(out@ =~= cond_text(self@));
        out
    }

    fn push_text(&self, out: &mut String)
        ensures
            final(out)@ == old(out)@ + cond_text(self@),
    {
        match self {
            Condition::Literal(l) => push_literal(out, l),
            Condition::LiteralList(list) => {
                let ghost start = out@;
                let ghost ls = lits_view(list@);
                out.append("(");
                let mut k: usize = 0;
                assert(ls.subrange(0, 0) =~= Seq::<Lit>::empty());
                while k < list.len()
                    invariant
                        k <= list@.len(),
                        ls == lits_view(list@),
                        out@ == start + "("@ + list_text(ls.subrange(0, k as int)),
                    decreases list@.len() - k,
                {
                    let ghost before = out@;
                    let ghost prefix = ls.subrange(0, k + 1);
                    assert(prefix.drop_last() =~= ls.subrange(0, k as int));
                    assert(prefix.last() == list@[k as int]@);
                    if k > 0 {
                        out.append(", ");
                    }
                    push_literal(out, &list[k]);
                    if k > 0 {
                        assert(out@ =~= start + "("@ + list_text(prefix));
                    } else {
                        assert(out@ =~= start + "("@ + list_text(prefix));
                    }
                    k += 1;
                }
                assert(ls.subrange(0, k as int) =~= ls);
                out.append(")");
                assert(out@ =~= start + cond_text(self@));
            },
        }
    }
}

impl Expr {
    /// The expression as text: `property op value`.
    pub fn to_string(&self) -> (r: String)
        ensures
            r@ == expr_text(self@),
    {
        let mut out = String::from_str(self.property.as_str());
        out.append(" ");
        out.append(self.op.as_str());
        out.append(" ");
        self.right.push_text(&mut out);
        assert(out@ =~= expr_text(self@));
        out
    }
}

} // verus!
