//! Conversion of parsed expressions into the filter types of the mod.io
//! client.
use vstd::prelude::*;

use modio::filter::{OneOrMany, Operator as FilterOp};

use crate::expr::{Cond, Condition, Lit, Literal, Operator};
use crate::render::{int_text, push_int};

verus! {

/// Declares `modio::filter::Operator`, the client's filter operators: a
/// public enum of unit variants, which Verus reads from its definition.
#[verifier::external_type_specification]
pub struct ExFilterOp(FilterOp);

/// Declares `modio::filter::OneOrMany`, the client's filter value: a public
/// enum of one value (`One`) or a list of them (`Many`), which Verus reads
/// from its definition.
#[verifier::external_type_specification]
#[verifier::reject_recursive_types(T)]
pub struct ExOneOrMany<T: core::fmt::Display>(OneOrMany<T>);

/// The client's operator for each operator of an expression.
pub open spec fn filter_op(op: Operator) -> FilterOp {
    match op {
        Operator::Equals => FilterOp::Equals,
        Operator::NotEquals => FilterOp::Not,
        Operator::Like => FilterOp::Like,
        Operator::NotLike => FilterOp::NotLike,
        Operator::In => FilterOp::In,
        Operator::NotIn => FilterOp::NotIn,
        Operator::Min => FilterOp::Min,
        Operator::Max => FilterOp::Max,
        Operator::GreaterThan => FilterOp::GreaterThan,
        Operator::SmallerThan => FilterOp::SmallerThan,
        Operator::BitwiseAnd => FilterOp::BitwiseAnd,
    }
}

impl From<Operator> for FilterOp {
    fn from(op: Operator) -> (r: FilterOp) {
        match op {
            Operator::Equals => FilterOp::Equals,
            Operator::NotEquals => FilterOp::Not,
            Operator::Like => FilterOp::Like,
            Operator::NotLike => FilterOp::NotLike,
            Operator::In => FilterOp::In,
            Operator::NotIn => FilterOp::NotIn,
            Operator::Min => FilterOp::Min,
            Operator::Max => FilterOp::Max,
            Operator::GreaterThan => FilterOp::GreaterThan,
            Operator::SmallerThan => FilterOp::SmallerThan,
            Operator::BitwiseAnd => FilterOp::BitwiseAnd,
        }
    }
}

impl vstd::std_specs::convert::FromSpecImpl<Operator> for FilterOp {
    open spec fn obeys_from_spec() -> bool {
        true
    }

    open spec fn from_spec(op: Operator) -> FilterOp {
        filter_op(op)
    }
}

/// A literal as a query value: an integer in decimal, a string as it is.
pub open spec fn value_text(l: Lit) -> Seq<char> {
    match l {
        Lit::Int(v) => int_text(v),
        Lit::Str(t) => t,
    }
}

/// `r` holds the query values of the condition `c`.
pub open spec fn holds_values(r: OneOrMany<String>, c: Cond) -> bool {
    match (r, c) {
        (OneOrMany::One(s), Cond::One(l)) => s@ == value_text(l),
        (OneOrMany::Many(v), Cond::List(ls)) => v@.len() == ls.len() && forall|k: int|
            0 <= k < ls.len() ==> #[trigger] v@[k]@ == value_text(ls[k]),
        _ => false,
    }
}

fn literal_value(l: &Literal) -> (r: String)
    ensures
        r@ == value_text(l@),
{
    match l {
        Literal::Integer(i) => {
            let mut s = String::new();
            push_int(&mut s, *i);
            assert(s@ =~= value_text(l@));
            s
        },
        Literal::String(s) => s.clone(),
    }
}

impl Condition {
    /// The condition as query values: one for a literal, several for a list.
    pub fn into_value(self) -> (r: OneOrMany<String>)
        ensures
            holds_values(r, self@),
    {
        match self {
            Condition::Literal(l) => OneOrMany::One(literal_value(&l)),
            Condition::LiteralList(list) => {
                let mut values: Vec<String> = Vec::new();
                let mut k: usize = 0;
                while k < list.len()
                    invariant
                        k <= list@.len(),
                        values@.len() == k,
                        forall|j: int| 0 <= j < k ==> #[trigger] values@[j]@ == value_text(
                            list@[j]@,
                        ),
                    decreases list@.len() - k,
                {
                    values.push(literal_value(&list[k]));
                    k += 1;
                }
                OneOrMany::Many(values)
            },
        }
    }
}

} // verus!
