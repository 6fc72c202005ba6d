use minicc::ast::{ASTNode, FunctionAST, PrimaryNodeKind};
use minicc::tokenizer::{text_tokenizer, OperationKind, ProgramText};

fn parse_single_function(text: &str) -> (ProgramText, FunctionAST) {
    let program = ProgramText::new(text);
    let lists = text_tokenizer(&program).unwrap();
    let mut list = lists.into_iter().next().unwrap();
    let function_ast = FunctionAST::make_function_ast(&mut list, &program).unwrap();
    (program, function_ast)
}

/// The statements of the function's body, which is one compound statement.
fn body_statements(function_ast: &FunctionAST) -> &Vec<ASTNode> {
    match function_ast.function_ast.root.as_deref() {
        Some(ASTNode::MultStmt(stmts)) => stmts,
        _ => panic!("function body must be a compound statement"),
    }
}

#[test]
fn function_header_is_recorded() {
    let (_, f) = parse_single_function("int add(int a, int b) { return a + b; }");
    assert_eq!(f.function_info.function_name, String::from("add"));
    assert_eq!(f.function_info.args_count, 2);
    assert_eq!(f.function_info.local_stack_size, 16);
}

#[test]
fn greater_than_becomes_less_than_with_swapped_operands() {
    let (_, f) = parse_single_function("int f() { int a; int b; return a > b; }");
    let stmts = body_statements(&f);
    match &stmts[2] {
        ASTNode::Return(value) => match value.as_ref() {
            ASTNode::Operation(OperationKind::Lt, left, right) => {
                // `a > b` is stored as `b < a`: the operands are swapped.
                assert!(matches!(
                    left.as_ref(),
                    ASTNode::Primary(PrimaryNodeKind::LocalVariable(16))
                ));
                assert!(matches!(
                    right.as_ref(),
                    ASTNode::Primary(PrimaryNodeKind::LocalVariable(8))
                ));
            }
            _ => panic!("a > b must parse to an Lt node"),
        },
        _ => panic!("expected a return statement"),
    }
}

#[test]
fn greater_equal_becomes_less_equal_with_swapped_operands() {
    let (_, f) = parse_single_function("int f() { int a; int b; return a >= b; }");
    let stmts = body_statements(&f);
    match &stmts[2] {
        ASTNode::Return(value) => {
            assert!(matches!(value.as_ref(), ASTNode::Operation(OperationKind::Le, _, _)));
        }
        _ => panic!("expected a return statement"),
    }
}

#[test]
fn no_gt_or_ge_nodes_anywhere() {
    fn check(node: &ASTNode) {
        match node {
            ASTNode::Primary(_) => {}
            ASTNode::Operation(op, l, r) => {
                assert!(*op != OperationKind::Gt && *op != OperationKind::Ge);
                check(l);
                check(r);
            }
            ASTNode::Assign(_, l, r) => {
                check(l);
                check(r);
            }
            ASTNode::Return(e) => check(e),
            ASTNode::If(c, t) => {
                check(c);
                check(t);
            }
            ASTNode::IfElse(c, t, e) => {
                check(c);
                check(t);
                check(e);
            }
            ASTNode::While(c, b) => {
                check(c);
                check(b);
            }
            ASTNode::For(init, cond, update, body) => {
                for slot in [init, cond, update] {
                    if let Some(n) = slot {
                        check(n);
                    }
                }
                check(body);
            }
            ASTNode::MultStmt(stmts) => stmts.iter().for_each(check),
            ASTNode::FunctionCall(_, args) => args.iter().for_each(check),
            ASTNode::Reference(_, e) => check(e),
            ASTNode::Dereference(_, e) => check(e),
        }
    }
    let (_, f) = parse_single_function(
        "int f() { int a; int b; if (a > b) return a >= b; while (b > 1) b = b - 1; return a; }",
    );
    check(f.function_ast.root.as_deref().unwrap());
}

#[test]
fn unary_minus_lowers_to_subtraction_from_zero() {
    let (_, f) = parse_single_function("int f() { return -5; }");
    let stmts = body_statements(&f);
    match &stmts[0] {
        ASTNode::Return(value) => match value.as_ref() {
            ASTNode::Operation(OperationKind::Sub, zero, operand) => {
                assert!(matches!(zero.as_ref(), ASTNode::Primary(PrimaryNodeKind::Number(0))));
                assert!(matches!(
                    operand.as_ref(),
                    ASTNode::Primary(PrimaryNodeKind::Number(5))
                ));
            }
            _ => panic!("-5 must parse to Sub(0, 5)"),
        },
        _ => panic!("expected a return statement"),
    }
}

#[test]
fn multiplication_binds_tighter_than_subtraction() {
    let (_, f) = parse_single_function("int f() { return 5 * 6 - 8; }");
    let stmts = body_statements(&f);
    match &stmts[0] {
        ASTNode::Return(value) => match value.as_ref() {
            ASTNode::Operation(OperationKind::Sub, left, right) => {
                match left.as_ref() {
                    ASTNode::Operation(OperationKind::Mul, five, six) => {
                        assert!(matches!(five.as_ref(), ASTNode::Primary(PrimaryNodeKind::Number(5))));
                        assert!(matches!(six.as_ref(), ASTNode::Primary(PrimaryNodeKind::Number(6))));
                    }
                    _ => panic!("5 * 6 must form the left operand of the subtraction"),
                }
                assert!(matches!(right.as_ref(), ASTNode::Primary(PrimaryNodeKind::Number(8))));
            }
            _ => panic!("5 * 6 - 8 must parse to Sub(Mul(5, 6), 8)"),
        },
        _ => panic!("expected a return statement"),
    }
}

#[test]
fn assignment_is_right_associative() {
    let (_, f) = parse_single_function("int f() { int a; int b; a = b = 1; return a; }");
    let stmts = body_statements(&f);
    match &stmts[2] {
        ASTNode::Assign(_, _, right) => {
            assert!(matches!(right.as_ref(), ASTNode::Assign(_, _, _)));
        }
        _ => panic!("expected an assignment"),
    }
}

#[test]
fn for_slots_may_be_absent() {
    let (_, f) = parse_single_function("int f() { int i; for (;;) i = 1; return i; }");
    let stmts = body_statements(&f);
    match &stmts[1] {
        ASTNode::For(init, cond, update, _) => {
            assert!(init.is_none());
            assert!(cond.is_none());
            assert!(update.is_none());
        }
        _ => panic!("expected a for statement"),
    }
}

#[test]
fn call_arguments_are_capped_at_six() {
    let program = ProgramText::new("int f() { return g(1, 2, 3, 4, 5, 6, 7); }");
    let lists = text_tokenizer(&program).unwrap();
    let mut list = lists.into_iter().next().unwrap();
    let err = FunctionAST::make_function_ast(&mut list, &program).unwrap_err();
    assert_eq!(err.message, "cannot take more than six arguments");
}

#[test]
fn seven_parameters_are_rejected() {
    let program =
        ProgramText::new("int f(int a, int b, int c, int d, int e, int g, int h) { return 0; }");
    let lists = text_tokenizer(&program).unwrap();
    let mut list = lists.into_iter().next().unwrap();
    let err = FunctionAST::make_function_ast(&mut list, &program).unwrap_err();
    assert_eq!(err.message, "too many arguments");
}

#[test]
fn missing_semicolon_is_reported() {
    let program = ProgramText::new("int f() { return 1 }");
    let lists = text_tokenizer(&program).unwrap();
    let mut list = lists.into_iter().next().unwrap();
    let err = FunctionAST::make_function_ast(&mut list, &program).unwrap_err();
    assert_eq!(err.message, "expect ; at end of statement");
}

#[test]
fn if_condition_must_be_parenthesized() {
    let program = ProgramText::new("int f() { if 1 return 2; return 3; }");
    let lists = text_tokenizer(&program).unwrap();
    let mut list = lists.into_iter().next().unwrap();
    let err = FunctionAST::make_function_ast(&mut list, &program).unwrap_err();
    assert_eq!(err.message, "if condition must start with (");
}
