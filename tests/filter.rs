use modio::filter::{OneOrMany, Operator as FilterOp};
use modiom::expr::{Condition, Literal, Operator};

#[test]
fn operators_map_to_client_operators() {
    let cases = [
        (Operator::Equals, FilterOp::Equals),
        (Operator::NotEquals, FilterOp::Not),
        (Operator::Like, FilterOp::Like),
        (Operator::NotLike, FilterOp::NotLike),
        (Operator::In, FilterOp::In),
        (Operator::NotIn, FilterOp::NotIn),
        (Operator::Min, FilterOp::Min),
        (Operator::Max, FilterOp::Max),
        (Operator::GreaterThan, FilterOp::GreaterThan),
        (Operator::SmallerThan, FilterOp::SmallerThan),
        (Operator::BitwiseAnd, FilterOp::BitwiseAnd),
    ];
    for (op, expected) in cases {
        assert_eq!(FilterOp::from(op), expected);
    }
}

#[test]
fn single_values_become_one_text() {
    match Condition::Literal(Literal::Integer(-120)).into_value() {
        OneOrMany::One(s) => assert_eq!(s, "-120"),
        OneOrMany::Many(_) => panic!("expected one value"),
    }
    match Condition::Literal(Literal::String(String::from("a b"))).into_value() {
        OneOrMany::One(s) => assert_eq!(s, "a b"),
        OneOrMany::Many(_) => panic!("expected one value"),
    }
}

#[test]
fn lists_become_many_texts() {
    let list = Condition::LiteralList(vec![
        Literal::Integer(0),
        Literal::String(String::from("x")),
        Literal::Integer(9223372036854775807),
    ]);
    match list.into_value() {
        OneOrMany::Many(v) => assert_eq!(v, vec!["0", "x", "9223372036854775807"]),
        OneOrMany::One(_) => panic!("expected a list"),
    }
}
