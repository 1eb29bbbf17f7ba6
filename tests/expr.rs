use modiom::expr::{parse, parse_for, Condition, Expr, Literal, Operator};

fn expr(property: &str, op: Operator, right: Condition) -> Expr {
    Expr {
        property: String::from(property),
        op,
        right,
    }
}

fn integer(v: i64) -> Condition {
    Condition::Literal(Literal::Integer(v))
}

fn text(s: &str) -> Condition {
    Condition::Literal(Literal::String(String::from(s)))
}

#[test]
fn test_parse() {
    assert_eq!(
        parse("id = 1"),
        Ok(Expr {
            property: String::from("id"),
            op: Operator::Equals,
            right: Condition::Literal(Literal::Integer(1)),
        }),
    );
    assert_eq!(
        parse("id = -1"),
        Ok(Expr {
            property: String::from("id"),
            op: Operator::Equals,
            right: Condition::Literal(Literal::Integer(-1)),
        }),
    );
    assert_eq!(
        parse("id > 1"),
        Ok(Expr {
            property: String::from("id"),
            op: Operator::GreaterThan,
            right: Condition::Literal(Literal::Integer(1)),
        }),
    );
    assert_eq!(
        parse("id in (1,2)"),
        Ok(Expr {
            property: String::from("id"),
            op: Operator::In,
            right: Condition::LiteralList(vec![Literal::Integer(1), Literal::Integer(2)]),
        }),
    );
    assert!(parse("id in ()").is_err());
    assert_eq!(
        parse("id > a"),
        Err(String::from("failed to parse \"> a\"")),
    );
}

#[test]
fn test_parse_for() {
    // An empty input has a message of its own.
    assert_eq!(
        parse_for("id", ""),
        Err(String::from("failed to parse expression")),
    );
    assert_eq!(
        parse_for("id", "1"),
        Ok(Expr {
            property: String::from("id"),
            op: Operator::Equals,
            right: Condition::Literal(Literal::Integer(1)),
        }),
    );
    assert_eq!(
        parse_for("id", "=1"),
        Ok(Expr {
            property: String::from("id"),
            op: Operator::Equals,
            right: Condition::Literal(Literal::Integer(1)),
        }),
    );
    assert!(parse_for("id", "= 1").is_ok());
    assert_eq!(
        parse_for("id", ">1"),
        Ok(Expr {
            property: String::from("id"),
            op: Operator::GreaterThan,
            right: Condition::Literal(Literal::Integer(1)),
        }),
    );
    assert_eq!(
        parse_for("id", "(1,2)"),
        Ok(Expr {
            property: String::from("id"),
            op: Operator::In,
            right: Condition::LiteralList(vec![Literal::Integer(1), Literal::Integer(2)]),
        }),
    );

    assert_eq!(
        parse_for("name", "'foobar'"),
        Ok(Expr {
            property: String::from("name"),
            op: Operator::Equals,
            right: Condition::Literal(Literal::String(String::from("foobar"))),
        }),
    );
    assert_eq!(
        parse_for("name", "='foobar'"),
        Ok(Expr {
            property: String::from("name"),
            op: Operator::Equals,
            right: Condition::Literal(Literal::String(String::from("foobar"))),
        }),
    );
    assert_eq!(
        parse_for("name", "!='foobar'"),
        Ok(Expr {
            property: String::from("name"),
            op: Operator::NotEquals,
            right: Condition::Literal(Literal::String(String::from("foobar"))),
        }),
    );
    assert_eq!(
        parse_for("name", "=foobar"),
        Ok(Expr {
            property: String::from("name"),
            op: Operator::Equals,
            right: Condition::Literal(Literal::String(String::from("foobar"))),
        }),
    );
    assert_eq!(
        parse_for("name", "!=foobar"),
        Ok(Expr {
            property: String::from("name"),
            op: Operator::NotEquals,
            right: Condition::Literal(Literal::String(String::from("foobar"))),
        }),
    );
    assert_eq!(
        parse_for("name", "'foobar*'"),
        Ok(Expr {
            property: String::from("name"),
            op: Operator::Like,
            right: Condition::Literal(Literal::String(String::from("foobar*"))),
        }),
    );
    assert_eq!(
        parse_for("name", "foobar*"),
        Ok(Expr {
            property: String::from("name"),
            op: Operator::Like,
            right: Condition::Literal(Literal::String(String::from("foobar*"))),
        }),
    );
    assert_eq!(
        parse_for("name", "like \"*foobar*\""),
        Ok(Expr {
            property: String::from("name"),
            op: Operator::Like,
            right: Condition::Literal(Literal::String(String::from("*foobar*"))),
        }),
    );
    assert_eq!(
        parse_for("name", "not like *foobar*"),
        Ok(Expr {
            property: String::from("name"),
            op: Operator::NotLike,
            right: Condition::Literal(Literal::String(String::from("*foobar*"))),
        }),
    );
    assert!(parse_for("name", "= ''").is_ok());
    assert!(parse_for("name", "!= ''").is_ok());
    assert!(parse_for("name", "= *foo*").is_ok());
    assert!(parse_for("name", "=").is_err());
}

#[test]
fn every_comparison_operator_reads_an_integer() {
    let cases = [
        ("=", Operator::Equals),
        ("!=", Operator::NotEquals),
        (">=", Operator::Min),
        ("<=", Operator::Max),
        ("<", Operator::SmallerThan),
        (">", Operator::GreaterThan),
        ("&", Operator::BitwiseAnd),
    ];
    for (symbol, op) in cases {
        let input = format!("prop {} 42", symbol);
        assert_eq!(parse(&input), Ok(expr("prop", op, integer(42))), "{}", input);
        let input = format!("prop {} -7", symbol);
        assert_eq!(parse(&input), Ok(expr("prop", op, integer(-7))), "{}", input);
    }
}

#[test]
fn quoted_and_bare_strings_read_alike() {
    let expected = Ok(expr("name", Operator::Equals, text("foobar")));
    assert_eq!(parse_for("name", "'foobar'"), expected);
    assert_eq!(parse_for("name", "\"foobar\""), expected);
    assert_eq!(parse_for("name", "foobar"), expected);
}

#[test]
fn wildcard_implies_like() {
    assert_eq!(
        parse_for("name", "foobar*"),
        Ok(expr("name", Operator::Like, text("foobar*"))),
    );
    assert_eq!(
        parse_for("name", "foo bar"),
        Ok(expr("name", Operator::Equals, text("foo bar"))),
    );
}

#[test]
fn list_implies_in_and_empty_list_is_rejected() {
    let list = || Condition::LiteralList(vec![Literal::Integer(1), Literal::Integer(2)]);
    assert_eq!(parse_for("id", "(1,2)"), Ok(expr("id", Operator::In, list())));
    assert_eq!(parse("id in (1,2)"), Ok(expr("id", Operator::In, list())));
    assert_eq!(parse("id not in (1 , 2)"), Ok(expr("id", Operator::NotIn, list())));
    assert_eq!(parse("id in ()"), Err(String::from("failed to parse \")\"")));
    // The list production refuses "()"; a bare value then falls back to raw text.
    assert_eq!(parse_for("id", "()"), Ok(expr("id", Operator::Equals, text("()"))));
    assert_eq!(
        parse_for("id", "in ()"),
        Ok(expr("id", Operator::Equals, text("in ()"))),
    );
    assert_eq!(
        parse_for("name", "IN (1, 'a', \"b\")"),
        Ok(expr(
            "name",
            Operator::In,
            Condition::LiteralList(vec![
                Literal::Integer(1),
                Literal::String(String::from("a")),
                Literal::String(String::from("b")),
            ]),
        )),
    );
}

#[test]
fn negative_integer_literal() {
    assert_eq!(parse("id = -1"), Ok(expr("id", Operator::Equals, integer(-1))));
    assert_eq!(parse("id>=-12"), Ok(expr("id", Operator::Min, integer(-12))));
}

#[test]
fn malformed_input_names_the_rest() {
    assert_eq!(parse("id > a"), Err(String::from("failed to parse \"> a\"")));
    assert_eq!(parse("= 1"), Err(String::from("failed to parse \"= 1\"")));
    assert_eq!(parse(""), Err(String::from("failed to parse expression")));
    assert_eq!(parse("id ~ 1"), Err(String::from("failed to parse \"~ 1\"")));
    assert_eq!(parse("id in x"), Err(String::from("failed to parse \"x\"")));
    assert_eq!(parse_for("id", "   "), Err(String::from("failed to parse \"\"")));
    assert_eq!(parse_for("name", "like"), Err(String::from("failed to parse \"\"")));
}

#[test]
fn trailing_text_fails_only_a_full_expression() {
    assert_eq!(parse("id = 1 x"), Err(String::from("failed to parse \" x\"")));
    assert_eq!(
        parse("name = \"a\"b"),
        Err(String::from("failed to parse \"b\"")),
    );
    // For a bare value, the first production that matches decides.
    assert_eq!(parse_for("id", "1 2"), Ok(expr("id", Operator::Equals, integer(1))));
    assert_eq!(parse_for("id", "5 "), Ok(expr("id", Operator::Equals, integer(5))));
    assert_eq!(parse_for("id", ">1 x"), Ok(expr("id", Operator::GreaterThan, integer(1))));
    assert_eq!(
        parse_for("name", "'a' b"),
        Ok(expr("name", Operator::Equals, text("a"))),
    );
    assert_eq!(
        parse_for("name", "abc def*"),
        Ok(expr("name", Operator::Like, text("abc def*"))),
    );
}

#[test]
fn integers_must_fit_in_i64() {
    assert_eq!(
        parse("id = 9223372036854775807"),
        Ok(expr("id", Operator::Equals, integer(i64::MAX))),
    );
    assert_eq!(
        parse("id = -9223372036854775807"),
        Ok(expr("id", Operator::Equals, integer(-i64::MAX))),
    );
    assert_eq!(
        parse("id = 9223372036854775808"),
        Err(String::from("failed to parse \"= 9223372036854775808\"")),
    );
    assert_eq!(
        parse_for("id", "9223372036854775808"),
        Ok(expr("id", Operator::Equals, text("9223372036854775808"))),
    );
    assert_eq!(parse("id = 007"), Ok(expr("id", Operator::Equals, integer(7))));
    assert_eq!(
        parse("id > -9223372036854775808"),
        Ok(expr("id", Operator::GreaterThan, integer(i64::MIN))),
    );
    assert_eq!(
        parse("id > -9223372036854775809"),
        Err(String::from("failed to parse \"> -9223372036854775809\"")),
    );
}

#[test]
fn word_operators_ignore_case() {
    let expected = Ok(expr("name", Operator::Like, text("*foo*")));
    assert_eq!(parse_for("name", "LIKE \"*foo*\""), expected);
    assert_eq!(parse_for("name", "like \"*foo*\""), expected);
    assert_eq!(parse_for("name", "LiKe \"*foo*\""), expected);
    assert_eq!(
        parse("name NOT LIKE 'x'"),
        Ok(expr("name", Operator::NotLike, text("x"))),
    );
}

#[test]
fn display_shows_property_operator_and_value() {
    let e = parse("id in (1,2)").unwrap();
    assert_eq!(e.to_string(), "id in (1, 2)");
    let e = parse_for("name", "not like 'a\"b*'").unwrap();
    assert_eq!(e.to_string(), "name not like \"a\\\"b*\"");
    let e = parse("id<=-3").unwrap();
    assert_eq!(e.to_string(), "id <= -3");
    assert_eq!(integer(i64::MIN).to_string(), "-9223372036854775808");
    assert_eq!(text("").to_string(), "\"\"");
    assert_eq!(Condition::LiteralList(vec![]).to_string(), "()");
}

#[test]
fn operator_texts() {
    let cases = [
        (Operator::Equals, "="),
        (Operator::NotEquals, "!="),
        (Operator::Like, "like"),
        (Operator::NotLike, "not like"),
        (Operator::In, "in"),
        (Operator::NotIn, "not in"),
        (Operator::Min, ">="),
        (Operator::Max, "<="),
        (Operator::GreaterThan, ">"),
        (Operator::SmallerThan, "<"),
        (Operator::BitwiseAnd, "&"),
    ];
    for (op, symbol) in cases {
        assert_eq!(op.to_string(), symbol);
        assert_eq!(op.as_str(), symbol);
    }
}
