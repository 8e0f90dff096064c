use strawberry::ast::{BinOp, Expr, Item, Statement};
use strawberry::error::ParserError;
use strawberry::parser::{
    parse_expression, parse_function, parse_program, parse_statement, Parser,
};
use strawberry::printer::{expr_to_source, program_to_source};

fn ident(name: &str) -> Expr {
    Expr::Identifier(name.to_string())
}

fn bin(op: BinOp, l: Expr, r: Expr) -> Expr {
    Expr::Binary(op, Box::new(l), Box::new(r))
}

#[test]
fn multiplication_binds_tighter_than_addition() {
    let e = parse_expression("1 + 2 * 3").unwrap();
    assert_eq!(
        e,
        bin(
            BinOp::Add,
            Expr::Integer(1),
            bin(BinOp::Mul, Expr::Integer(2), Expr::Integer(3)),
        )
    );
}

#[test]
fn assignment_is_right_associative() {
    let e = parse_expression("a = b = c").unwrap();
    assert_eq!(
        e,
        Expr::Assignment(
            Box::new(ident("a")),
            Box::new(Expr::Assignment(Box::new(ident("b")), Box::new(ident("c")))),
        )
    );
}

#[test]
fn addition_is_left_associative() {
    let e = parse_expression("1 + 2 + 3").unwrap();
    assert_eq!(
        e,
        bin(
            BinOp::Add,
            bin(BinOp::Add, Expr::Integer(1), Expr::Integer(2)),
            Expr::Integer(3),
        )
    );
}

#[test]
fn parentheses_override_precedence() {
    let e = parse_expression("(1 + 2) * 3").unwrap();
    assert_eq!(
        e,
        bin(
            BinOp::Mul,
            bin(BinOp::Add, Expr::Integer(1), Expr::Integer(2)),
            Expr::Integer(3),
        )
    );
}

#[test]
fn comparison_and_logical_operators() {
    let e = parse_expression("a < b && c ~= d").unwrap();
    assert_eq!(
        e,
        bin(
            BinOp::And,
            bin(BinOp::Lt, ident("a"), ident("b")),
            bin(BinOp::Ne, ident("c"), ident("d")),
        )
    );
}

#[test]
fn field_access_binds_tightest() {
    let e = parse_expression("a.b + c").unwrap();
    assert_eq!(
        e,
        bin(
            BinOp::Add,
            Expr::Dot(Box::new(ident("a")), Box::new(ident("b"))),
            ident("c"),
        )
    );
}

#[test]
fn call_with_arguments() {
    let e = parse_expression("foo(1, 2 + 3, bar)").unwrap();
    assert_eq!(
        e,
        Expr::FnCall(
            "foo".to_string(),
            vec![
                Expr::Integer(1),
                bin(BinOp::Add, Expr::Integer(2), Expr::Integer(3)),
                ident("bar"),
            ],
        )
    );
}

#[test]
fn call_with_no_arguments() {
    let e = parse_expression("foo()").unwrap();
    assert_eq!(e, Expr::FnCall("foo".to_string(), vec![]));
}

#[test]
fn boolean_and_float_literals() {
    assert_eq!(parse_expression("true").unwrap(), Expr::Boolean(true));
    assert_eq!(parse_expression("false").unwrap(), Expr::Boolean(false));
    assert_eq!(
        parse_expression("133.7").unwrap(),
        Expr::Float("133.7".to_string())
    );
}

#[test]
fn missing_right_paren_error() {
    assert_eq!(parse_expression("(1 + 2"), Err(ParserError::MissingRParen));
}

#[test]
fn missing_function_name_error() {
    assert_eq!(parse_function("func () end"), Err(ParserError::FnMissingName));
}

#[test]
fn missing_parameter_list_error() {
    assert_eq!(
        parse_function("func foo end"),
        Err(ParserError::FnMissingParameters)
    );
}

#[test]
fn unterminated_call_error() {
    assert_eq!(parse_expression("foo(1, 2"), Err(ParserError::MissingRParen));
}

#[test]
fn empty_input_error() {
    assert_eq!(parse_expression(""), Err(ParserError::OutOfInput));
}

#[test]
fn operator_in_operand_position_error() {
    assert_eq!(parse_expression("* 3"), Err(ParserError::UnknownOperator));
    assert_eq!(parse_expression("1 + * 3"), Err(ParserError::UnknownOperator));
}

#[test]
fn keyword_in_operand_position_error() {
    assert_eq!(parse_expression("end"), Err(ParserError::UnexpectedToken));
}

#[test]
fn invalid_character_error() {
    assert_eq!(parse_expression("$"), Err(ParserError::BadInput));
}

#[test]
fn bad_number_error() {
    assert_eq!(parse_expression("1.2.3"), Err(ParserError::BadNumber));
    assert_eq!(parse_expression("1 + 1.2.3"), Err(ParserError::BadNumber));
}

#[test]
fn exhausted_budget_error() {
    let mut p = Parser::new("1 + 1");
    assert_eq!(p.expression(0, 0), Err(ParserError::TooDeep));
}

#[test]
fn end_to_end_function() {
    let src = "\nfunc foo(x: int, y: int) -> int\n    return x + y\nend\n";
    let f = parse_function(src).unwrap();
    assert_eq!(f.name, "foo");
    assert_eq!(f.params.len(), 2);
    assert_eq!(f.params[0].name, "x");
    assert_eq!(f.params[0].ty, "int");
    assert_eq!(f.params[1].name, "y");
    assert_eq!(f.params[1].ty, "int");
    assert_eq!(f.ret, "int");
    assert_eq!(
        *f.body,
        Statement::Block(vec![Statement::ReturnWithVal(Box::new(bin(
            BinOp::Add,
            ident("x"),
            ident("y"),
        )))])
    );
}

#[test]
fn dotted_function_name() {
    let f = parse_function("func main.foo() end").unwrap();
    assert_eq!(f.name, "main.foo");
    assert_eq!(f.params.len(), 0);
    assert_eq!(f.ret, "");
}

#[test]
fn statements_if_and_unless() {
    let s = parse_statement("if a\n  b\nend").unwrap();
    assert_eq!(
        s,
        Statement::If(
            Box::new(ident("a")),
            Box::new(Statement::Block(vec![Statement::Expr(Box::new(ident("b")))])),
        )
    );
    let s = parse_statement("unless a\n  b\nelse\n  c\nend").unwrap();
    assert_eq!(
        s,
        Statement::UnlessElse(
            Box::new(ident("a")),
            Box::new(Statement::Block(vec![Statement::Expr(Box::new(ident("b")))])),
            Box::new(Statement::Block(vec![Statement::Expr(Box::new(ident("c")))])),
        )
    );
}

#[test]
fn bare_and_valued_return() {
    assert_eq!(parse_statement("return").unwrap(), Statement::Return);
    assert_eq!(
        parse_statement("return 1").unwrap(),
        Statement::ReturnWithVal(Box::new(Expr::Integer(1))),
    );
    // `end` does not start an expression, so the return stays bare.
    let s = parse_statement("if a\n  return\nend").unwrap();
    assert_eq!(
        s,
        Statement::If(
            Box::new(ident("a")),
            Box::new(Statement::Block(vec![Statement::Return])),
        )
    );
}

#[test]
fn empty_body_and_unterminated_if() {
    assert_eq!(
        parse_statement("if a\nend").unwrap(),
        Statement::If(Box::new(ident("a")), Box::new(Statement::Block(vec![]))),
    );
    assert_eq!(parse_statement("if a\n  b\n"), Err(ParserError::OutOfInput));
    assert_eq!(parse_statement("if a\n  b\nelse\n  c\n"), Err(ParserError::OutOfInput));
}

#[test]
fn unterminated_function_body() {
    assert_eq!(
        parse_function("func foo()\n  return 1\n"),
        Err(ParserError::OutOfInput)
    );
}

#[test]
fn program_with_function_and_statement() {
    let src = "func foo(x: int) -> int\n  return x\nend\nfoo = 1\n";
    let prog = parse_program(src).unwrap();
    assert_eq!(prog.items.len(), 2);
    match &prog.items[0] {
        Item::Function(f) => assert_eq!(f.name, "foo"),
        other => panic!("expected a function, got {:?}", other),
    }
    match &prog.items[1] {
        Item::Statement(Statement::Expr(e)) => assert_eq!(
            **e,
            Expr::Assignment(Box::new(ident("foo")), Box::new(Expr::Integer(1))),
        ),
        other => panic!("expected an assignment statement, got {:?}", other),
    }
}

fn to_text(v: Vec<char>) -> String {
    v.into_iter().collect()
}

#[test]
fn round_trip_expressions() {
    for src in ["1 + 2 * 3", "a = b = c", "foo(1, 2 + 3, bar)", "(1 + 2) * 3", "a.b.c && true"] {
        let first = parse_expression(src).unwrap();
        let printed = to_text(expr_to_source(&first));
        let second = parse_expression(&printed).unwrap();
        assert_eq!(first, second, "round trip changed {:?}", src);
    }
}

#[test]
fn round_trip_programs() {
    let sources = [
        "func foo(x: int, y: int) -> int\n  return x + y\nend\n",
        "func main.run()\n  if a < 10\n    step(a)\n  else\n    halt()\n  end\nend\nmain.run()\n",
        "unless done\n  work()\nend\n",
    ];
    for src in sources {
        let first = parse_program(src).unwrap();
        let printed = to_text(program_to_source(&first));
        let second = parse_program(&printed).unwrap();
        assert_eq!(first, second, "round trip changed {:?}", src);
    }
}
