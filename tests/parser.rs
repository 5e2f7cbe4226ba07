use mini_rustc::{expr, primary, program, stmt, tokenize, Node, OpKind, TokenIter, Variable};

#[test]
fn test_program_single_function() {
    let mut iter = TokenIter::new(tokenize("fn main() { 42; }").unwrap());
    let mut vars = Variable::new("".to_string(), 0, None);
    let node = program(&mut iter, &mut vars).unwrap();
    assert_eq!(
        node,
        Node::Function {
            name: "main".to_string(),
            args: vec![],
            body: Box::new(Node::Num { value: 42 }),
        }
    );
}

#[test]
fn test_program_two_functions() {
    let mut iter = TokenIter::new(tokenize("fn main() { 1; } fn foo() { 2; }").unwrap());
    let mut vars = Variable::new("".to_string(), 0, None);
    let node = program(&mut iter, &mut vars).unwrap();
    assert_eq!(
        node,
        Node::Sequence {
            first: Box::new(Node::Function {
                name: "main".to_string(),
                args: vec![],
                body: Box::new(Node::Num { value: 1 }),
            }),
            second: Box::new(Node::Function {
                name: "foo".to_string(),
                args: vec![],
                body: Box::new(Node::Num { value: 2 }),
            }),
        }
    );
}

#[test]
fn test_program_return_in_function() {
    let mut iter = TokenIter::new(tokenize("fn main() { return 3; }").unwrap());
    let mut vars = Variable::new("".to_string(), 0, None);
    let node = program(&mut iter, &mut vars).unwrap();
    assert_eq!(
        node,
        Node::Function {
            name: "main".to_string(),
            args: vec![],
            body: Box::new(Node::Return {
                expr: Box::new(Node::Num { value: 3 }),
            }),
        }
    );
}

#[test]
fn test_program_two_functions_with_return() {
    let mut iter = TokenIter::new(tokenize("fn mainA() { 1; } fn mainB() { return 2; }").unwrap());
    let mut vars = Variable::new("".to_string(), 0, None);
    let node = program(&mut iter, &mut vars).unwrap();
    assert_eq!(
        node,
        Node::Sequence {
            first: Box::new(Node::Function {
                name: "mainA".to_string(),
                args: vec![],
                body: Box::new(Node::Num { value: 1 }),
            }),
            second: Box::new(Node::Function {
                name: "mainB".to_string(),
                args: vec![],
                body: Box::new(Node::Return {
                    expr: Box::new(Node::Num { value: 2 }),
                }),
            }),
        }
    );
}

#[test]
fn test_error_fn_missing_ident() {
    let mut iter = TokenIter::new(tokenize("fn() {}").unwrap());
    let mut vars = Variable::new("".to_string(), 0, None);
    let err = program(&mut iter, &mut vars).unwrap_err();
    assert_eq!(err.msg, "expected identifier");
}

#[test]
fn test_error_fn_missing_lparen() {
    let mut iter = TokenIter::new(tokenize("fn main) { }").unwrap());
    let mut vars = Variable::new("".to_string(), 0, None);
    let err = program(&mut iter, &mut vars).unwrap_err();
    assert_eq!(err.msg, "expected LParen");
}

#[test]
fn test_error_fn_missing_rparen() {
    let mut iter = TokenIter::new(tokenize("fn main( {}").unwrap());
    let mut vars = Variable::new("".to_string(), 0, None);
    let err = program(&mut iter, &mut vars).unwrap_err();
    assert_eq!(err.msg, "expected RParen");
}

#[test]
fn test_error_fn_missing_lbrace() {
    let mut iter = TokenIter::new(tokenize("fn main() )").unwrap());
    let mut vars = Variable::new("".to_string(), 0, None);
    let err = program(&mut iter, &mut vars).unwrap_err();
    assert_eq!(err.msg, "expected LBrace");
}

#[test]
fn test_error_fn_missing_rbrace() {
    let mut iter = TokenIter::new(tokenize("fn main() { 1;").unwrap());
    let mut vars = Variable::new("".to_string(), 0, None);
    let err = program(&mut iter, &mut vars).unwrap_err();
    assert_eq!(err.msg, "expected RBrace");
}

#[test]
fn test_error_fn_args_missing_colon() {
    let mut iter = TokenIter::new(tokenize("fn foo(a i32) {}").unwrap());
    let mut vars = Variable::new("".to_string(), 0, None);
    let err = program(&mut iter, &mut vars).unwrap_err();
    assert_eq!(err.msg, "expected Colon");
}

#[test]
fn test_error_fn_args_missing_type() {
    let mut iter = TokenIter::new(tokenize("fn foo(a:)").unwrap());
    let mut vars = Variable::new("".to_string(), 0, None);
    let err = program(&mut iter, &mut vars).unwrap_err();
    assert_eq!(err.msg, "expected I32");
}

#[test]
fn test_stmt_if() {
    let mut iter = TokenIter::new(tokenize("if (1) 2;").unwrap());
    let mut vars = Variable::new("".to_string(), 0, None);
    let node = stmt(&mut iter, &mut vars).unwrap();
    assert_eq!(
        node,
        Node::If {
            cond: Box::new(Node::Num { value: 1 }),
            then_stmt: Box::new(Node::Num { value: 2 }),
            else_stmt: None,
        }
    );
}

#[test]
fn test_stmt_if_else() {
    let mut iter = TokenIter::new(tokenize("if (1) 2; else 3;").unwrap());
    let mut vars = Variable::new("".to_string(), 0, None);
    let node = stmt(&mut iter, &mut vars).unwrap();
    assert_eq!(
        node,
        Node::If {
            cond: Box::new(Node::Num { value: 1 }),
            then_stmt: Box::new(Node::Num { value: 2 }),
            else_stmt: Some(Box::new(Node::Num { value: 3 })),
        }
    );
}

#[test]
fn test_error_if_missing_lparen() {
    let mut iter = TokenIter::new(tokenize("if 1) 2;").unwrap());
    let mut vars = Variable::new("".to_string(), 0, None);
    let err = stmt(&mut iter, &mut vars).unwrap_err();
    assert_eq!(err.msg, "expected LParen");
}

#[test]
fn test_error_if_missing_rparen() {
    let mut iter = TokenIter::new(tokenize("if (1 2 3;").unwrap());
    let mut vars = Variable::new("".to_string(), 0, None);
    let err = stmt(&mut iter, &mut vars).unwrap_err();
    assert_eq!(err.msg, "expected RParen");
}

#[test]
fn test_error_if_missing_condition() {
    let mut iter = TokenIter::new(tokenize("if () 1;").unwrap());
    let mut vars = Variable::new("".to_string(), 0, None);
    let err = stmt(&mut iter, &mut vars).unwrap_err();
    assert_eq!(err.msg, "expected expression");
}

#[test]
fn test_error_if_missing_then_branch() {
    let mut iter = TokenIter::new(tokenize("if (1)").unwrap());
    let mut vars = Variable::new("".to_string(), 0, None);
    let err = stmt(&mut iter, &mut vars).unwrap_err();
    assert_eq!(err.msg, "expected statement");
}

#[test]
fn test_stmt_while() {
    let mut iter = TokenIter::new(tokenize("while (1) 2;").unwrap());
    let mut vars = Variable::new("".to_string(), 0, None);
    let node = stmt(&mut iter, &mut vars).unwrap();
    assert_eq!(
        node,
        Node::While {
            cond: Box::new(Node::Num { value: 1 }),
            body: Box::new(Node::Num { value: 2 }),
        }
    );
}

#[test]
fn test_error_while_missing_lparen() {
    let mut iter = TokenIter::new(tokenize("while 1) 2;").unwrap());
    let mut vars = Variable::new("".to_string(), 0, None);
    let err = stmt(&mut iter, &mut vars).unwrap_err();
    assert_eq!(err.msg, "expected LParen");
}

#[test]
fn test_error_while_missing_rparen() {
    let mut iter = TokenIter::new(tokenize("while (1 2;").unwrap());
    let mut vars = Variable::new("".to_string(), 0, None);
    let err = stmt(&mut iter, &mut vars).unwrap_err();
    assert_eq!(err.msg, "expected RParen");
}

#[test]
fn test_error_while_missing_condition() {
    let mut iter = TokenIter::new(tokenize("while () 2;").unwrap());
    let mut vars = Variable::new("".to_string(), 0, None);
    let err = stmt(&mut iter, &mut vars).unwrap_err();
    assert_eq!(err.msg, "expected expression");
}

#[test]
fn test_error_while_missing_body() {
    let mut iter = TokenIter::new(tokenize("while (1)").unwrap());
    let mut vars = Variable::new("".to_string(), 0, None);
    let err = stmt(&mut iter, &mut vars).unwrap_err();
    assert_eq!(err.msg, "expected statement");
}

#[test]
fn test_stmt_for() {
    let mut iter = TokenIter::new(tokenize("for (1;2;3) 4;").unwrap());
    let mut vars = Variable::new("".to_string(), 0, None);
    let node = stmt(&mut iter, &mut vars).unwrap();
    assert_eq!(
        node,
        Node::For {
            init: Box::new(Node::Num { value: 1 }),
            cond: Box::new(Node::Num { value: 2 }),
            update: Box::new(Node::Num { value: 3 }),
            body: Box::new(Node::Num { value: 4 }),
        }
    );
}

#[test]
fn test_error_for_missing_lparen() {
    let mut iter = TokenIter::new(tokenize("for 1;2;3) 4;").unwrap());
    let mut vars = Variable::new("".to_string(), 0, None);
    let err = stmt(&mut iter, &mut vars).unwrap_err();
    assert_eq!(err.msg, "expected LParen");
}

#[test]
fn test_error_for_missing_semicolon1() {
    let mut iter = TokenIter::new(tokenize("for (1 2;3) 4;").unwrap());
    let mut vars = Variable::new("".to_string(), 0, None);
    let err = stmt(&mut iter, &mut vars).unwrap_err();
    assert_eq!(err.msg, "expected Semicolon");
}

#[test]
fn test_error_for_missing_semicolon2() {
    let mut iter = TokenIter::new(tokenize("for (1;2 3) 4;").unwrap());
    let mut vars = Variable::new("".to_string(), 0, None);
    let err = stmt(&mut iter, &mut vars).unwrap_err();
    assert_eq!(err.msg, "expected Semicolon");
}

#[test]
fn test_error_for_missing_init() {
    let mut iter = TokenIter::new(tokenize("for (;2;3) 4;").unwrap());
    let mut vars = Variable::new("".to_string(), 0, None);
    let err = stmt(&mut iter, &mut vars).unwrap_err();
    assert_eq!(err.msg, "expected expression");
}

#[test]
fn test_error_for_missing_cond() {
    let mut iter = TokenIter::new(tokenize("for (1;;3) 4;").unwrap());
    let mut vars = Variable::new("".to_string(), 0, None);
    let err = stmt(&mut iter, &mut vars).unwrap_err();
    assert_eq!(err.msg, "expected expression");
}

#[test]
fn test_error_for_missing_update() {
    let mut iter = TokenIter::new(tokenize("for (1;2;) 4;").unwrap());
    let mut vars = Variable::new("".to_string(), 0, None);
    let err = stmt(&mut iter, &mut vars).unwrap_err();
    assert_eq!(err.msg, "expected expression");
}

#[test]
fn test_error_for_missing_rparen() {
    let mut iter = TokenIter::new(tokenize("for (1;2;3 4;").unwrap());
    let mut vars = Variable::new("".to_string(), 0, None);
    let err = stmt(&mut iter, &mut vars).unwrap_err();
    assert_eq!(err.msg, "expected RParen");
}

#[test]
fn test_error_for_missing_body() {
    let mut iter = TokenIter::new(tokenize("for (1;2;3)").unwrap());
    let mut vars = Variable::new("".to_string(), 0, None);
    let err = stmt(&mut iter, &mut vars).unwrap_err();
    assert_eq!(err.msg, "expected statement");
}

#[test]
fn test_primary() {
    let mut iter = TokenIter::new(tokenize("42").unwrap());
    let mut vars = Variable::new("".to_string(), 0, None);
    let node = primary(&mut iter, &mut vars).unwrap();
    assert_eq!(node, Node::Num { value: 42 });
}

#[test]
fn test_expr_add_sub() {
    let mut iter = TokenIter::new(tokenize("1+2").unwrap());
    let mut vars = Variable::new("".to_string(), 0, None);
    let node = expr(&mut iter, &mut vars).unwrap();
    assert_eq!(
        node,
        Node::BinaryOp {
            op: OpKind::Add,
            lhs: Box::new(Node::Num { value: 1 }),
            rhs: Box::new(Node::Num { value: 2 }),
        }
    );
}

#[test]
fn test_expr_precedence() {
    let mut iter = TokenIter::new(tokenize("1+2*3").unwrap());
    let mut vars = Variable::new("".to_string(), 0, None);
    let node = expr(&mut iter, &mut vars).unwrap();
    let expected = Node::BinaryOp {
        op: OpKind::Add,
        lhs: Box::new(Node::Num { value: 1 }),
        rhs: Box::new(Node::BinaryOp {
            op: OpKind::Mul,
            lhs: Box::new(Node::Num { value: 2 }),
            rhs: Box::new(Node::Num { value: 3 }),
        }),
    };
    assert_eq!(node, expected);
}

#[test]
fn test_expr_parens_mul() {
    let mut iter = TokenIter::new(tokenize("(1+2)*3").unwrap());
    let mut vars = Variable::new("".to_string(), 0, None);
    let node = expr(&mut iter, &mut vars).unwrap();
    let expected = Node::BinaryOp {
        op: OpKind::Mul,
        lhs: Box::new(Node::BinaryOp {
            op: OpKind::Add,
            lhs: Box::new(Node::Num { value: 1 }),
            rhs: Box::new(Node::Num { value: 2 }),
        }),
        rhs: Box::new(Node::Num { value: 3 }),
    };
    assert_eq!(node, expected);
}

#[test]
fn test_primary_parens() {
    let mut iter = TokenIter::new(tokenize("(42)").unwrap());
    let mut vars = Variable::new("".to_string(), 0, None);
    let node = primary(&mut iter, &mut vars).unwrap();
    assert_eq!(node, Node::Num { value: 42 });
}

#[test]
fn test_expr_nested_parens() {
    let mut iter = TokenIter::new(tokenize("((1+2))").unwrap());
    let mut vars = Variable::new("".to_string(), 0, None);
    let node = expr(&mut iter, &mut vars).unwrap();
    assert_eq!(
        node,
        Node::BinaryOp {
            op: OpKind::Add,
            lhs: Box::new(Node::Num { value: 1 }),
            rhs: Box::new(Node::Num { value: 2 }),
        }
    );
}

#[test]
fn test_expr_assign() {
    let mut iter = TokenIter::new(tokenize("1=2").unwrap());
    let mut vars = Variable::new("".to_string(), 0, None);
    let node = expr(&mut iter, &mut vars).unwrap();
    assert_eq!(
        node,
        Node::Assign {
            lhs: Box::new(Node::Num { value: 1 }),
            rhs: Box::new(Node::Num { value: 2 }),
        }
    );
}

#[test]
fn test_expr_eq_ne() {
    let mut it1 = TokenIter::new(tokenize("1==2").unwrap());
    let mut vars1 = Variable::new("".to_string(), 0, None);
    let n1 = expr(&mut it1, &mut vars1).unwrap();
    assert_eq!(
        n1,
        Node::BinaryOp {
            op: OpKind::Eq,
            lhs: Box::new(Node::Num { value: 1 }),
            rhs: Box::new(Node::Num { value: 2 }),
        }
    );
    let mut it2 = TokenIter::new(tokenize("1!=2").unwrap());
    let mut vars2 = Variable::new("".to_string(), 0, None);
    let n2 = expr(&mut it2, &mut vars2).unwrap();
    assert_eq!(
        n2,
        Node::BinaryOp {
            op: OpKind::Ne,
            lhs: Box::new(Node::Num { value: 1 }),
            rhs: Box::new(Node::Num { value: 2 }),
        }
    );
}

#[test]
fn test_expr_relational() {
    let mut vars = Variable::new("".to_string(), 0, None);
    let mut it_lt = TokenIter::new(tokenize("1<2").unwrap());
    assert_eq!(
        expr(&mut it_lt, &mut vars).unwrap(),
        Node::BinaryOp {
            op: OpKind::Lt,
            lhs: Box::new(Node::Num { value: 1 }),
            rhs: Box::new(Node::Num { value: 2 })
        }
    );
    let mut vars2 = Variable::new("".to_string(), 0, None);
    let mut it_gt = TokenIter::new(tokenize("2>1").unwrap());
    assert_eq!(
        expr(&mut it_gt, &mut vars2).unwrap(),
        Node::BinaryOp {
            op: OpKind::Gt,
            lhs: Box::new(Node::Num { value: 2 }),
            rhs: Box::new(Node::Num { value: 1 })
        }
    );
    let mut vars3 = Variable::new("".to_string(), 0, None);
    let mut it_le = TokenIter::new(tokenize("1<=1").unwrap());
    assert_eq!(
        expr(&mut it_le, &mut vars3).unwrap(),
        Node::BinaryOp {
            op: OpKind::Le,
            lhs: Box::new(Node::Num { value: 1 }),
            rhs: Box::new(Node::Num { value: 1 })
        }
    );
    let mut vars4 = Variable::new("".to_string(), 0, None);
    let mut it_ge = TokenIter::new(tokenize("2>=2").unwrap());
    assert_eq!(
        expr(&mut it_ge, &mut vars4).unwrap(),
        Node::BinaryOp {
            op: OpKind::Ge,
            lhs: Box::new(Node::Num { value: 2 }),
            rhs: Box::new(Node::Num { value: 2 })
        }
    );
}

#[test]
fn test_ident_offset() {
    let mut iter = TokenIter::new(tokenize("a").unwrap());
    let mut vars = Variable::new("".to_string(), 0, None);
    let node = primary(&mut iter, &mut vars).unwrap();
    assert_eq!(node, Node::Var { offset: 8 });
}

#[test]
fn test_ident_repeated_offset() {
    let mut iter = TokenIter::new(tokenize("a a").unwrap());
    let mut vars = Variable::new("".to_string(), 0, None);
    let first = primary(&mut iter, &mut vars).unwrap();
    let second = primary(&mut iter, &mut vars).unwrap();
    assert_eq!(first, Node::Var { offset: 8 });
    assert_eq!(second, Node::Var { offset: 8 });
}

#[test]
fn test_assign_ident() {
    let mut iter = TokenIter::new(tokenize("a=1").unwrap());
    let mut vars = Variable::new("".to_string(), 0, None);
    let node = expr(&mut iter, &mut vars).unwrap();
    assert_eq!(
        node,
        Node::Assign {
            lhs: Box::new(Node::Var { offset: 8 }),
            rhs: Box::new(Node::Num { value: 1 }),
        }
    );
}

#[test]
fn test_call_no_args() {
    let mut iter = TokenIter::new(tokenize("foo()").unwrap());
    let mut vars = Variable::new("".to_string(), 0, None);
    assert_eq!(
        primary(&mut iter, &mut vars).unwrap(),
        Node::Call {
            name: "foo".to_string(),
            args: vec![],
        }
    );
}

#[test]
fn test_call_one_arg() {
    let mut iter = TokenIter::new(tokenize("foo(42)").unwrap());
    let mut vars = Variable::new("".to_string(), 0, None);
    assert_eq!(
        primary(&mut iter, &mut vars).unwrap(),
        Node::Call {
            name: "foo".to_string(),
            args: vec![Node::Num { value: 42 }],
        }
    );
}

#[test]
fn test_call_multiple_args() {
    let mut iter = TokenIter::new(tokenize("foo(1,2)").unwrap());
    let mut vars = Variable::new("".to_string(), 0, None);
    assert_eq!(
        primary(&mut iter, &mut vars).unwrap(),
        Node::Call {
            name: "foo".to_string(),
            args: vec![Node::Num { value: 1 }, Node::Num { value: 2 }],
        }
    );
}

#[test]
fn test_error_primary_missing_rparen() {
    let mut iter = TokenIter::new(tokenize("(1+2").unwrap());
    let mut vars = Variable::new("".to_string(), 0, None);
    let err = primary(&mut iter, &mut vars).unwrap_err();
    assert_eq!(err.msg, "expected RParen");
}

#[test]
fn test_error_stmt_missing_semicolon() {
    let mut iter = TokenIter::new(tokenize("42").unwrap());
    let mut vars = Variable::new("".to_string(), 0, None);
    let err = stmt(&mut iter, &mut vars).unwrap_err();
    assert_eq!(err.msg, "expected Semicolon");
}

#[test]
fn test_unary_plus() {
    let mut iter = TokenIter::new(tokenize("+42").unwrap());
    let mut vars = Variable::new("".to_string(), 0, None);
    let node = expr(&mut iter, &mut vars).unwrap();
    assert_eq!(node, Node::Num { value: 42 });
}

#[test]
fn test_unary_minus() {
    let mut iter = TokenIter::new(tokenize("-42").unwrap());
    let mut vars = Variable::new("".to_string(), 0, None);
    let node = expr(&mut iter, &mut vars).unwrap();
    assert_eq!(
        node,
        Node::BinaryOp {
            op: OpKind::Sub,
            lhs: Box::new(Node::Num { value: 0 }),
            rhs: Box::new(Node::Num { value: 42 }),
        }
    );
}

#[test]
fn test_unary_deref() {
    let mut iter = TokenIter::new(tokenize("*42").unwrap());
    let mut vars = Variable::new("".to_string(), 0, None);
    let node = expr(&mut iter, &mut vars).unwrap();
    assert_eq!(
        node,
        Node::Deref {
            expr: Box::new(Node::Num { value: 42 }),
        }
    );
}

#[test]
fn test_unary_addr() {
    let mut iter = TokenIter::new(tokenize("&42").unwrap());
    let mut vars = Variable::new("".to_string(), 0, None);
    let node = expr(&mut iter, &mut vars).unwrap();
    assert_eq!(
        node,
        Node::Addr {
            expr: Box::new(Node::Num { value: 42 }),
        }
    );
}

#[test]
fn test_primary_string() {
    let mut iter = TokenIter::new(tokenize(r#""Hello, world!""#).unwrap());
    let mut vars = Variable::new("".to_string(), 0, None);
    let node = primary(&mut iter, &mut vars).unwrap();
    assert_eq!(
        node,
        Node::StringLiteral {
            value: "Hello, world!".to_string()
        }
    );
}

#[test]
fn test_array_assignment_and_indexing() {
    let mut iter = TokenIter::new(tokenize("fn main() { let arr = [1, 2, 3]; return arr[2]; }").unwrap());
    let mut vars = Variable::new("".to_string(), 0, None);
    let node = program(&mut iter, &mut vars).unwrap();
    assert_eq!(
        node,
        Node::Function {
            name: "main".to_string(),
            args: vec![],
            body: Box::new(Node::Sequence {
                first: Box::new(Node::ArrayAssign {
                    offset: 8,
                    elements: vec![
                        Node::Num { value: 1 },
                        Node::Num { value: 2 },
                        Node::Num { value: 3 },
                    ],
                }),
                second: Box::new(Node::Return {
                    expr: Box::new(Node::Deref {
                        expr: Box::new(Node::BinaryOp {
                            op: OpKind::Sub,
                            lhs: Box::new(Node::Addr {
                                expr: Box::new(Node::Var { offset: 8 }),
                            }),
                            rhs: Box::new(Node::BinaryOp {
                                op: OpKind::Mul,
                                lhs: Box::new(Node::Num { value: 2 }),
                                rhs: Box::new(Node::Num { value: 8 }),
                            }),
                        }),
                    }),
                }),
            }),
        }
    );
}

#[test]
fn assign_is_right_associative() {
    let mut iter = TokenIter::new(tokenize("a=b=2").unwrap());
    let mut vars = Variable::new("".to_string(), 0, None);
    let node = expr(&mut iter, &mut vars).unwrap();
    assert_eq!(
        node,
        Node::Assign {
            lhs: Box::new(Node::Var { offset: 8 }),
            rhs: Box::new(Node::Assign {
                lhs: Box::new(Node::Var { offset: 16 }),
                rhs: Box::new(Node::Num { value: 2 }),
            }),
        }
    );
}

#[test]
fn let_allocates_past_earlier_slots() {
    let mut iter = TokenIter::new(tokenize("fn main() { a; let b = 1; let c = [4, 5]; let d = 2; }").unwrap());
    let mut vars = Variable::new("".to_string(), 0, None);
    let node = program(&mut iter, &mut vars).unwrap();
    let expected_body = Node::Sequence {
        first: Box::new(Node::Sequence {
            first: Box::new(Node::Sequence {
                first: Box::new(Node::Var { offset: 8 }),
                second: Box::new(Node::Assign {
                    lhs: Box::new(Node::Var { offset: 16 }),
                    rhs: Box::new(Node::Num { value: 1 }),
                }),
            }),
            second: Box::new(Node::ArrayAssign {
                offset: 24,
                elements: vec![Node::Num { value: 4 }, Node::Num { value: 5 }],
            }),
        }),
        second: Box::new(Node::Assign {
            lhs: Box::new(Node::Var { offset: 40 }),
            rhs: Box::new(Node::Num { value: 2 }),
        }),
    };
    assert_eq!(
        node,
        Node::Function { name: "main".to_string(), args: vec![], body: Box::new(expected_body) }
    );
    assert_eq!(vars.find("c"), Some(24));
    assert_eq!(vars.find("d"), Some(40));
}

#[test]
fn let_rejects_redeclaration() {
    let mut iter = TokenIter::new(tokenize("fn main() { let x = 1; let x = 2; }").unwrap());
    let mut vars = Variable::new("".to_string(), 0, None);
    let err = program(&mut iter, &mut vars).unwrap_err();
    assert_eq!(err.msg, "variable already declared");
    assert_eq!(err.pos, 27);
}

#[test]
fn write_call_becomes_syscall() {
    let mut iter = TokenIter::new(tokenize("write(\"hi\")").unwrap());
    let mut vars = Variable::new("".to_string(), 0, None);
    let node = primary(&mut iter, &mut vars).unwrap();
    assert_eq!(
        node,
        Node::Syscall {
            name: "write".to_string(),
            args: vec![Node::StringLiteral { value: "hi".to_string() }],
        }
    );
}

#[test]
fn function_params_get_slots_and_empty_body_is_zero() {
    let mut iter = TokenIter::new(tokenize("fn f(a: i32, b: i32) -> i32 { }").unwrap());
    let mut vars = Variable::new("".to_string(), 0, None);
    let node = program(&mut iter, &mut vars).unwrap();
    assert_eq!(
        node,
        Node::Function {
            name: "f".to_string(),
            args: vec![Node::Var { offset: 8 }, Node::Var { offset: 16 }],
            body: Box::new(Node::Num { value: 0 }),
        }
    );
}

#[test]
fn empty_program_is_an_error() {
    let mut iter = TokenIter::new(tokenize("  ").unwrap());
    let mut vars = Variable::new("".to_string(), 0, None);
    let err = program(&mut iter, &mut vars).unwrap_err();
    assert_eq!(err.msg, "expected Fn");
    assert_eq!(err.pos, 2);
}

#[test]
fn missing_primary_is_an_error() {
    let mut iter = TokenIter::new(tokenize("1 + ;").unwrap());
    let mut vars = Variable::new("".to_string(), 0, None);
    let err = expr(&mut iter, &mut vars).unwrap_err();
    assert_eq!(err.msg, "expected expression");
    assert_eq!(err.pos, 4);
}

#[test]
fn slot_offset_overflow_is_an_error() {
    let mut iter = TokenIter::new(tokenize("a").unwrap());
    let mut vars = Variable::new("".to_string(), u64::MAX - 4, None);
    let err = primary(&mut iter, &mut vars).unwrap_err();
    assert_eq!(err.msg, "stack frame too large");
    assert_eq!(err.pos, 0);
}

#[test]
fn new_slot_goes_past_the_largest_offset() {
    let mut vars = Variable::new("".to_string(), 0, None);
    vars.push("a".to_string(), 40);
    vars.push("b".to_string(), 16);
    let mut iter = TokenIter::new(tokenize("c").unwrap());
    let node = primary(&mut iter, &mut vars).unwrap();
    assert_eq!(node, Node::Var { offset: 48 });
    assert_eq!(vars.find("b"), Some(16));
}
