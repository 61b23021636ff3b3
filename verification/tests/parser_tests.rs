use script_go::compiler::ast::{BinaryOperator, Expr, Program, Statement, Type};
use script_go::compiler::lexer::Lexer;
use script_go::compiler::parser::Parser;

fn parse(input: &str) -> Result<Program, String> {
    let mut lexer = Lexer::new(input);
    let tokens = lexer.tokenize().expect("Lexing failed");
    let mut parser = Parser::new(tokens);
    parser.parse()
}

fn lit(v: i64) -> Box<Expr> {
    Box::new(Expr::IntLiteral(v))
}

fn ident(n: &str) -> Box<Expr> {
    Box::new(Expr::Identifier(n.into()))
}

#[test]
fn test_operator_precedence() {
    let program = parse("let res: Int = 1 + 2 * 3;").unwrap();
    assert_eq!(program.statements.len(), 1);
    if let Statement::LetDecl(_, _, expr) = &program.statements[0] {
        let expected = Expr::BinaryOp(
            lit(1),
            BinaryOperator::Add,
            Box::new(Expr::BinaryOp(lit(2), BinaryOperator::Mul, lit(3))),
        );
        assert_eq!(*expr, expected);
    } else {
        panic!("Expected LetDecl statement");
    }
}

#[test]
fn test_operator_precedence_comparison_and_logical() {
    let program = parse("let cond: Int = a + b < c * d && x == y;").unwrap();
    if let Statement::LetDecl(_, _, expr) = &program.statements[0] {
        let left_add = Expr::BinaryOp(ident("a"), BinaryOperator::Add, ident("b"));
        let right_mul = Expr::BinaryOp(ident("c"), BinaryOperator::Mul, ident("d"));
        let cmp_lt = Expr::BinaryOp(Box::new(left_add), BinaryOperator::Lt, Box::new(right_mul));
        let cmp_eq = Expr::BinaryOp(ident("x"), BinaryOperator::Eq, ident("y"));
        let expected = Expr::BinaryOp(Box::new(cmp_lt), BinaryOperator::And, Box::new(cmp_eq));
        assert_eq!(*expr, expected);
    } else {
        panic!("Expected LetDecl statement");
    }
}

#[test]
fn test_enforce_mandatory_semicolons() {
    let res = parse("let x = 5 let y = 10;");
    assert!(res.is_err());
    let err = res.unwrap_err();
    assert!(err.contains("Expected ';'"));
    assert!(err.contains("line 1, column 11"));
}

#[test]
fn test_method_chaining_and_closing_paren_validation() {
    let program = parse("a.b(1).c(2);").unwrap();
    assert_eq!(program.statements.len(), 1);
    if let Statement::ExprStmt(expr) = &program.statements[0] {
        let inner_call = Expr::MethodCall(ident("a"), "b".into(), vec![Expr::IntLiteral(1)]);
        let expected = Expr::MethodCall(Box::new(inner_call), "c".into(), vec![Expr::IntLiteral(2)]);
        assert_eq!(*expr, expected);
    } else {
        panic!("Expected ExprStmt statement");
    }
    let res = parse("a.b(1, 2;");
    assert!(res.is_err());
    assert!(res.unwrap_err().contains("Expected ')'"));
}

#[test]
fn test_malformed_return_type_arrow_rejection() {
    let res = parse("fn foo() -> { return 1; }");
    assert!(res.is_err());
    assert!(res.unwrap_err().contains("Expected return type after '->'"));
}

#[test]
fn test_valid_function_declaration() {
    let program = parse("fn add(a: Int, b: Int) -> Int { return a + b; }").unwrap();
    assert_eq!(program.statements.len(), 1);
    if let Statement::FunctionDecl(name, args, ret_ty, body) = &program.statements[0] {
        assert_eq!(name, "add");
        assert_eq!(args, &vec![("a".into(), Type::Int), ("b".into(), Type::Int)]);
        assert_eq!(*ret_ty, Type::Int);
        assert_eq!(body.len(), 1);
    } else {
        panic!("Expected FunctionDecl statement");
    }
}

#[test]
fn test_function_return_type_arrow_no_double_advance() {
    let program1 = parse("fn test1() -> Int { let a = 10 - 1; return a; }").unwrap();
    if let Statement::FunctionDecl(name, args, ret_ty, body) = &program1.statements[0] {
        assert_eq!(name, "test1");
        assert!(args.is_empty());
        assert_eq!(*ret_ty, Type::Int);
        assert_eq!(body.len(), 2);
    } else {
        panic!("Expected FunctionDecl statement");
    }
    let program2 = parse("fn test2() - > Int { return 42; }").unwrap();
    if let Statement::FunctionDecl(name, args, ret_ty, body) = &program2.statements[0] {
        assert_eq!(name, "test2");
        assert!(args.is_empty());
        assert_eq!(*ret_ty, Type::Int);
        assert_eq!(body.len(), 1);
    } else {
        panic!("Expected FunctionDecl statement");
    }
}

#[test]
fn test_number_method_call_parsing() {
    let program = parse("123.foo();").expect("Parsing failed");
    assert_eq!(program.statements.len(), 1);
    if let Statement::ExprStmt(Expr::MethodCall(target, method_name, args)) = &program.statements[0] {
        assert_eq!(**target, Expr::IntLiteral(123));
        assert_eq!(method_name, "foo");
        assert!(args.is_empty());
    } else {
        panic!("Expected MethodCall on IntLiteral");
    }
}

#[test]
fn test_syntax_error_missing_semicolons() {
    let missing_semi_inputs = ["let x = 5 let y = 10;", "let x = 5", "x = 10", "return 42"];
    for input in missing_semi_inputs {
        let mut lexer = Lexer::new(input);
        if let Ok(tokens) = lexer.tokenize() {
            let mut parser = Parser::new(tokens);
            let res = parser.parse();
            assert!(res.is_err(), "Expected parser error for missing semicolon in: {}", input);
            let err = res.unwrap_err();
            assert!(err.contains("Expected ';'"), "Error message should mention Expected ';': {}", err);
        }
    }
}

#[test]
fn test_method_call_parsing_and_chaining() {
    let program = parse("123.foo().bar(456);").expect("Parsing failed");
    assert_eq!(program.statements.len(), 1);
    if let Statement::ExprStmt(Expr::MethodCall(target, method_name, args)) = &program.statements[0] {
        assert_eq!(method_name, "bar");
        assert_eq!(args.len(), 1);
        assert_eq!(args[0], Expr::IntLiteral(456));
        if let Expr::MethodCall(inner_target, inner_method, inner_args) = &**target {
            assert_eq!(**inner_target, Expr::IntLiteral(123));
            assert_eq!(inner_method, "foo");
            assert!(inner_args.is_empty());
        } else {
            panic!("Expected inner MethodCall target");
        }
    } else {
        panic!("Expected MethodCall ExprStmt");
    }
}

#[test]
fn parser_statements_and_macros() {
    let program = parse(
        "if a < 1 { x += 2; } else { x -= 1; } while i { i = i - 1; } return; spawn!(3); db.filter!(t, c); (1).m!();",
    )
    .unwrap();
    assert_eq!(program.statements.len(), 6);
    assert_eq!(
        program.statements[0],
        Statement::If(
            Expr::BinaryOp(ident("a"), BinaryOperator::Lt, lit(1)),
            vec![Statement::Assign("x".into(), Expr::BinaryOp(ident("x"), BinaryOperator::Add, lit(2)))],
            vec![Statement::Assign("x".into(), Expr::BinaryOp(ident("x"), BinaryOperator::Sub, lit(1)))],
        )
    );
    assert_eq!(
        program.statements[1],
        Statement::While(
            Expr::Identifier("i".into()),
            vec![Statement::Assign("i".into(), Expr::BinaryOp(ident("i"), BinaryOperator::Sub, lit(1)))],
        )
    );
    assert_eq!(program.statements[2], Statement::Return(None));
    assert_eq!(program.statements[3], Statement::ExprStmt(Expr::MacroCall("spawn".into(), vec![Expr::IntLiteral(3)])));
    assert_eq!(
        program.statements[4],
        Statement::ExprStmt(Expr::MacroCall(
            "db.filter".into(),
            vec![Expr::Identifier("t".into()), Expr::Identifier("c".into())]
        ))
    );
    assert_eq!(program.statements[5], Statement::ExprStmt(Expr::MacroCall("<expr>.m".into(), vec![])));
}

#[test]
fn parser_error_messages() {
    assert_eq!(parse("let = 1;").unwrap_err(), "Syntax error at line 1, column 5: Expected identifier after 'let'");
    assert_eq!(parse("let x: Bool = 1;").unwrap_err(), "Syntax error at line 1, column 8: Unknown type");
    assert_eq!(parse("1 = 2;").unwrap_err(), "Syntax error at line 1, column 5: Invalid assignment target");
    assert_eq!(parse("let x = ;").unwrap_err(), "Syntax error at line 1, column 9: Unexpected token in expression");
    assert_eq!(parse("if 1 { 2;").unwrap_err(), "Syntax error at line 1, column 10: Expected '}' at end of if block");
    assert_eq!(parse("fn f(a) {}").unwrap_err(), "Syntax error at line 1, column 7: Expected ':' after argument name");
    // Past the end of the tokens the position is line 1, column 1.
    let mut parser = Parser::new(vec![]);
    assert_eq!(parser.parse().unwrap().statements.len(), 0);
}
