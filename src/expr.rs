use vstd::prelude::*;

pub use crate::parser::{parse, parse_for};

verus! {

/// A single value on the right-hand side of a filter expression.
#[derive(Debug, PartialEq, Eq)]
pub enum Literal {
    Integer(i64),
    String(String),
}

/// The right-hand side of a filter expression: one value or a list of them.
#[derive(Debug, PartialEq, Eq)]
pub enum Condition {
    Literal(Literal),
    LiteralList(Vec<Literal>),
}

/// The comparison a filter applies between a property and its value.
#[derive(Debug, Clone, Copy, PartialEq, Eq, Structural)]
pub enum Operator {
    Equals,
    NotEquals,
    Like,
    NotLike,
    In,
    NotIn,
    Min,
    Max,
    GreaterThan,
    SmallerThan,
    BitwiseAnd,
}

/// A parsed filter expression: `property op right`.
#[derive(Debug, PartialEq, Eq)]
pub struct Expr {
    pub property: String,
    pub op: Operator,
    pub right: Condition,
}

/// Mathematical value of a `Literal`.
pub enum Lit {
    Int(int),
    Str(Seq<char>),
}

/// Mathematical value of a `Condition`.
pub enum Cond {
    One(Lit),
    List(Seq<Lit>),
}

/// Mathematical value of an `Expr`.
pub struct ExprView {
    pub property: Seq<char>,
    pub op: Operator,
    pub right: Cond,
}

impl View for Operator {
    type V = Operator;

    open spec fn view(&self) -> Operator {
        *self
    }
}

impl View for Literal {
    type V = Lit;

    open spec fn view(&self) -> Lit {
        match self {
            Literal::Integer(i) => Lit::Int(*i as int),
            Literal::String(s) => Lit::Str(s@),
        }
    }
}

/// The values of a list of literals.
pub open spec fn lits_view(v: Seq<Literal>) -> Seq<Lit> {
    v.map_values(|l: Literal| l@)
}

impl View for Condition {
    type V = Cond;

    open spec fn view(&self) -> Cond {
        match self {
            Condition::Literal(l) => Cond::One(l@),
            Condition::LiteralList(v) => Cond::List(lits_view(v@)),
        }
    }
}

impl View for Expr {
    type V = ExprView;

    open spec fn view(&self) -> ExprView {
        ExprView { property: self.property@, op: self.op, right: self.right@ }
    }
}

impl Operator {
    /// The canonical text of the operator; word operators are lower case.
    pub open spec fn symbol(self) -> Seq<char> {
        match self {
            Operator::Equals => seq!['='],
            Operator::NotEquals => seq!['!', '='],
            Operator::Like => seq!['l', 'i', 'k', 'e'],
            Operator::NotLike => seq!['n', 'o', 't', ' ', 'l', 'i', 'k', 'e'],
            Operator::In => seq!['i', 'n'],
            Operator::NotIn => seq!['n', 'o', 't', ' ', 'i', 'n'],
            Operator::Min => seq!['>', '='],
            Operator::Max => seq!['<', '='],
            Operator::GreaterThan => seq!['>'],
            Operator::SmallerThan => seq!['<'],
            Operator::BitwiseAnd => seq!['&'],
        }
    }

    /// Returns the canonical text of the operator.
    pub fn as_str(&self) -> (r: &'static str)
        ensures
            r@ == self.symbol(),
    {
        match self {
            Operator::Equals => {
                proof { reveal_strlit("="); }
                assert("="@ =~= self.symbol());
                "="
            },
            Operator::NotEquals => {
                proof { reveal_strlit("!="); }
                assert("!="@ =~= self.symbol());
                "!="
            },
            Operator::Like => {
                proof { reveal_strlit("like"); }
                assert("like"@ =~= self.symbol());
                "like"
            },
            Operator::NotLike => {
                proof { reveal_strlit("not like"); }
                assert("not like"@ =~= self.symbol());
                "not like"
            },
            Operator::In => {
                proof { reveal_strlit("in"); }
                assert("in"@ =~= self.symbol());
                "in"
            },
            Operator::NotIn => {
                proof { reveal_strlit("not in"); }
                assert("not in"@ =~= self.symbol());
                "not in"
            },
            Operator::Min => {
                proof { reveal_strlit(">="); }
                assert(">="@ =~= self.symbol());
                ">="
            },
            Operator::Max => {
                proof { reveal_strlit("<="); }
                assert("<="@ =~= self.symbol());
                "<="
            },
            Operator::GreaterThan => {
                proof { reveal_strlit(">"); }
                assert(">"@ =~= self.symbol());
                ">"
            },
            Operator::SmallerThan => {
                proof { reveal_strlit("<"); }
                assert("<"@ =~= self.symbol());
                "<"
            },
            Operator::BitwiseAnd => {
                proof { reveal_strlit("&"); }
                assert("&"@ =~= self.symbol());
                "&"
            },
        }
    }
}

} // verus!
