use mew::{parse_program, BinaryOp, ErrorKind, Expr, Literal, MewLexer, Parser, Stmt, UnaryOp};

fn parse(src: &str) -> Vec<Stmt> {
    parse_program(src).expect("program should parse")
}

fn parse_error(src: &str) -> ErrorKind {
    match parse_program(src) {
        Ok(s) => panic!("expected an error, got {:?}", s),
        Err(e) => e.kind(),
    }
}

fn is_var(e: &Expr, name: &str) -> bool {
    matches!(e, Expr::Variable(n) if n == name)
}

fn is_num(e: &Expr, text: &str) -> bool {
    matches!(e, Expr::Literal(Literal::Number(n)) if n == text)
}

#[test]
fn constant_then_print() {
    let prog = parse("catst x = 1; purr(x + 1);");
    assert_eq!(prog.len(), 2);
    match &prog[0] {
        Stmt::VarDeclaration(n, Some(e), true) => {
            assert_eq!(n, "x");
            assert!(is_num(e, "1"));
        }
        other => panic!("{:?}", other),
    }
    match &prog[1] {
        Stmt::Print(Expr::Binary(l, BinaryOp::Add, r)) => {
            assert!(is_var(l, "x"));
            assert!(is_num(r, "1"));
        }
        other => panic!("{:?}", other),
    }
}

#[test]
fn counting_while_loop() {
    let prog = parse("catv i = 0; mewhile (i < 3) { purr(i); i = i + 1; }");
    assert!(matches!(&prog[0], Stmt::VarDeclaration(n, Some(_), false) if n == "i"));
    match &prog[1] {
        Stmt::While(Expr::Binary(l, BinaryOp::Lt, r), body) => {
            assert!(is_var(l, "i"));
            assert!(is_num(r, "3"));
            match &**body {
                Stmt::Block(v) => {
                    assert_eq!(v.len(), 2);
                    assert!(matches!(&v[0], Stmt::Print(e) if is_var(e, "i")));
                    assert!(matches!(&v[1], Stmt::Expression(Expr::Assignment(n, _)) if n == "i"));
                }
                other => panic!("{:?}", other),
            }
        }
        other => panic!("{:?}", other),
    }
}

#[test]
fn function_declaration_and_call() {
    let prog = parse("cat add(a,b) { return a + b; } purr(add(2,3));");
    match &prog[0] {
        Stmt::Function(n, params, body) => {
            assert_eq!(n, "add");
            assert_eq!(params, &vec!["a".to_string(), "b".to_string()]);
            assert!(matches!(&body[0], Stmt::Return(Some(Expr::Binary(_, BinaryOp::Add, _)))));
        }
        other => panic!("{:?}", other),
    }
    match &prog[1] {
        Stmt::Print(Expr::Call(callee, args)) => {
            assert!(is_var(callee, "add"));
            assert_eq!(args.len(), 2);
            assert!(is_num(&args[0], "2") && is_num(&args[1], "3"));
        }
        other => panic!("{:?}", other),
    }
}

#[test]
fn property_and_index_reads() {
    let prog = parse("purr({}.missing); purr([1,2][5]);");
    match &prog[0] {
        Stmt::Print(Expr::Get(obj, name)) => {
            assert!(matches!(&**obj, Expr::ObjectLiteral(p) if p.is_empty()));
            assert_eq!(name, "missing");
        }
        other => panic!("{:?}", other),
    }
    match &prog[1] {
        Stmt::Print(Expr::Index(arr, key)) => {
            assert!(matches!(&**arr, Expr::ArrayLiteral(v) if v.len() == 2));
            assert!(is_num(key, "5"));
        }
        other => panic!("{:?}", other),
    }
}

#[test]
fn precedence_of_operators() {
    let prog = parse("a = 1 + 2 * 3 < 4 == !b && c || d;");
    match &prog[0] {
        Stmt::Expression(Expr::Assignment(n, v)) => {
            assert_eq!(n, "a");
            match &**v {
                Expr::Binary(l, BinaryOp::Or, r) => {
                    assert!(is_var(r, "d"));
                    match &**l {
                        Expr::Binary(eq, BinaryOp::And, c) => {
                            assert!(is_var(c, "c"));
                            match &**eq {
                                Expr::Binary(lt, BinaryOp::Eq, not_b) => {
                                    assert!(matches!(&**not_b, Expr::Unary(UnaryOp::Not, b) if is_var(b, "b")));
                                    match &**lt {
                                        Expr::Binary(sum, BinaryOp::Lt, four) => {
                                            assert!(is_num(four, "4"));
                                            match &**sum {
                                                Expr::Binary(one, BinaryOp::Add, prod) => {
                                                    assert!(is_num(one, "1"));
                                                    assert!(matches!(&**prod, Expr::Binary(_, BinaryOp::Mul, _)));
                                                }
                                                other => panic!("{:?}", other),
                                            }
                                        }
                                        other => panic!("{:?}", other),
                                    }
                                }
                                other => panic!("{:?}", other),
                            }
                        }
                        other => panic!("{:?}", other),
                    }
                }
                other => panic!("{:?}", other),
            }
        }
        other => panic!("{:?}", other),
    }
}

#[test]
fn assignment_targets() {
    let prog = parse("o.k = 1; a[0] = 2; x = y = 3;");
    assert!(matches!(&prog[0], Stmt::Expression(Expr::SetField(o, k, _)) if is_var(o, "o") && k == "k"));
    assert!(matches!(&prog[1], Stmt::Expression(Expr::SetIndex(a, i, _)) if is_var(a, "a") && is_num(i, "0")));
    match &prog[2] {
        Stmt::Expression(Expr::Assignment(x, v)) => {
            assert_eq!(x, "x");
            assert!(matches!(&**v, Expr::Assignment(y, _) if y == "y"));
        }
        other => panic!("{:?}", other),
    }
    assert_eq!(parse_error("1 = 2;"), ErrorKind::Syntax);
    assert_eq!(parse_error("f() = 2;"), ErrorKind::Syntax);
}

#[test]
fn increments_prefix_and_postfix() {
    let prog = parse("++i; i--; o.n++; --a[1];");
    assert!(matches!(&prog[0], Stmt::Expression(Expr::Increment(t, true)) if is_var(t, "i")));
    assert!(matches!(&prog[1], Stmt::Expression(Expr::Decrement(t, false)) if is_var(t, "i")));
    assert!(matches!(&prog[2], Stmt::Expression(Expr::Increment(t, false)) if matches!(&**t, Expr::Get(..))));
    assert!(matches!(&prog[3], Stmt::Expression(Expr::Decrement(t, true)) if matches!(&**t, Expr::Index(..))));
    assert_eq!(parse_error("++1;"), ErrorKind::Syntax);
    assert_eq!(parse_error("f()++;"), ErrorKind::Syntax);
}

#[test]
fn literals_of_every_kind() {
    let prog = parse("purr([true, false, null, undefined, NaN, Infinity, 'hi', 2.5,]);");
    match &prog[0] {
        Stmt::Print(Expr::ArrayLiteral(v)) => {
            assert_eq!(v.len(), 8);
            assert!(matches!(&v[0], Expr::Literal(Literal::Bool(true))));
            assert!(matches!(&v[1], Expr::Literal(Literal::Bool(false))));
            assert!(matches!(&v[2], Expr::Literal(Literal::Null)));
            assert!(matches!(&v[3], Expr::Literal(Literal::Undefined)));
            assert!(matches!(&v[4], Expr::Literal(Literal::NaN)));
            assert!(matches!(&v[5], Expr::Literal(Literal::Infinity)));
            assert!(matches!(&v[6], Expr::Literal(Literal::Str(s)) if s == "hi"));
            assert!(is_num(&v[7], "2.5"));
        }
        other => panic!("{:?}", other),
    }
}

#[test]
fn object_literal_keys_in_order() {
    let prog = parse("purr({a: 1, 'b c': 2, a: 3});");
    match &prog[0] {
        Stmt::Print(Expr::ObjectLiteral(p)) => {
            let keys: Vec<&str> = p.iter().map(|(k, _)| k.as_str()).collect();
            assert_eq!(keys, vec!["a", "b c", "a"]);
        }
        other => panic!("{:?}", other),
    }
    assert_eq!(parse_error("purr({a 1});"), ErrorKind::Syntax);
    assert_eq!(parse_error("purr({1: 2});"), ErrorKind::Syntax);
}

#[test]
fn function_expressions() {
    let prog = parse("f = cat (x) => x * 2; g = cat named() { return 1; }; h = cat (a) => { return a; };");
    match &prog[0] {
        Stmt::Expression(Expr::Assignment(_, v)) => match &**v {
            Expr::Function(None, params, body) => {
                assert_eq!(params, &vec!["x".to_string()]);
                assert!(matches!(&body[0], Stmt::Return(Some(Expr::Binary(_, BinaryOp::Mul, _)))));
            }
            other => panic!("{:?}", other),
        },
        other => panic!("{:?}", other),
    }
    assert!(matches!(&prog[1], Stmt::Expression(Expr::Assignment(_, v)) if matches!(&**v, Expr::Function(Some(n), p, _) if n == "named" && p.is_empty())));
    assert!(matches!(&prog[2], Stmt::Expression(Expr::Assignment(_, v)) if matches!(&**v, Expr::Function(None, _, b) if b.len() == 1)));
}

#[test]
fn if_elseif_else_chain() {
    let prog = parse("meow? (a) purr(1); meowse? (b) purr(2); hiss purr(3);");
    match &prog[0] {
        Stmt::If(c, _, Some(other)) => {
            assert!(is_var(c, "a"));
            match &**other {
                Stmt::If(c2, _, Some(last)) => {
                    assert!(is_var(c2, "b"));
                    assert!(matches!(&**last, Stmt::Print(e) if is_num(e, "3")));
                }
                x => panic!("{:?}", x),
            }
        }
        other => panic!("{:?}", other),
    }
}

#[test]
fn three_clause_for_desugars_to_while() {
    let prog = parse("fur (catv i = 0; i < 3; i++) purr(i);");
    assert_eq!(prog.len(), 1);
    match &prog[0] {
        Stmt::Block(v) => {
            assert_eq!(v.len(), 2);
            assert!(matches!(&v[0], Stmt::VarDeclaration(n, Some(_), false) if n == "i"));
            match &v[1] {
                Stmt::While(Expr::Binary(_, BinaryOp::Lt, _), body) => match &**body {
                    Stmt::Block(b) => {
                        assert_eq!(b.len(), 2);
                        assert!(matches!(&b[0], Stmt::Print(_)));
                        assert!(matches!(&b[1], Stmt::Expression(Expr::Increment(t, false)) if is_var(t, "i")));
                    }
                    other => panic!("{:?}", other),
                },
                other => panic!("{:?}", other),
            }
        }
        other => panic!("{:?}", other),
    }
}

#[test]
fn empty_for_clauses_loop_on_true() {
    let prog = parse("fur (;;) clawt;");
    match &prog[0] {
        Stmt::While(Expr::Literal(Literal::Bool(true)), body) => assert!(matches!(&**body, Stmt::Break)),
        other => panic!("{:?}", other),
    }
}

#[test]
fn do_while_runs_body_then_loops() {
    let prog = parse("mewdo { i = i + 1; } mewhile (i < 3);");
    match &prog[0] {
        Stmt::Block(v) => {
            assert_eq!(v.len(), 2);
            assert!(matches!(&v[0], Stmt::Block(b) if b.len() == 1));
            assert!(matches!(&v[1], Stmt::While(_, b) if matches!(&**b, Stmt::Block(x) if x.len() == 1)));
        }
        other => panic!("{:?}", other),
    }
}

fn loop_parts(s: &Stmt) -> (&Vec<Stmt>, &Stmt) {
    match s {
        Stmt::Block(v) => match v.last() {
            Some(Stmt::While(_, body)) => match &**body {
                Stmt::Block(b) => (v, &b[0]),
                other => panic!("{:?}", other),
            },
            other => panic!("{:?}", other),
        },
        other => panic!("{:?}", other),
    }
}

#[test]
fn for_of_with_constant_binds_fresh_each_iteration() {
    let prog = parse("fur (catst x of items) { fns.push(cat () => x); }");
    let (outer, bind) = loop_parts(&prog[0]);
    assert_eq!(outer.len(), 4);
    assert!(matches!(&outer[0], Stmt::VarDeclaration(n, Some(e), false) if n == "__iterator_x" && is_var(e, "items")));
    assert!(matches!(&outer[1], Stmt::VarDeclaration(n, Some(e), false) if n == "__index_x" && is_num(e, "0")));
    match &outer[2] {
        Stmt::VarDeclaration(n, Some(Expr::Call(f, args)), false) => {
            assert_eq!(n, "__values_x");
            assert!(matches!(&**f, Expr::Get(o, m) if is_var(o, "Object") && m == "values"));
            assert!(is_var(&args[0], "__iterator_x"));
        }
        other => panic!("{:?}", other),
    }
    match bind {
        Stmt::VarDeclaration(n, Some(Expr::Index(c, i)), true) => {
            assert_eq!(n, "x");
            assert!(is_var(c, "__values_x") && is_var(i, "__index_x"));
        }
        other => panic!("{:?}", other),
    }
}

#[test]
fn for_in_with_variable_assigns_one_shared_binding() {
    let prog = parse("fur (catv k in obj) purr(k);");
    let (outer, bind) = loop_parts(&prog[0]);
    assert_eq!(outer.len(), 5);
    assert!(matches!(&outer[2], Stmt::VarDeclaration(n, Some(Expr::Call(f, _)), false)
        if n == "__keys_k" && matches!(&**f, Expr::Get(_, m) if m == "keys")));
    assert!(matches!(&outer[3], Stmt::VarDeclaration(n, None, false) if n == "k"));
    match bind {
        Stmt::Expression(Expr::Assignment(n, v)) => {
            assert_eq!(n, "k");
            assert!(matches!(&**v, Expr::Index(c, i) if is_var(c, "__keys_k") && is_var(i, "__index_k")));
        }
        other => panic!("{:?}", other),
    }
}

#[test]
fn switch_clauses_in_order() {
    let prog = parse("catwalk (x) { claw 1: purr('one'); clawt; default: purr('other'); claw 2: }");
    match &prog[0] {
        Stmt::Switch(subject, clauses) => {
            assert!(is_var(subject, "x"));
            assert_eq!(clauses.len(), 3);
            assert!(matches!(&clauses[0], (Some(e), b) if is_num(e, "1") && b.len() == 2));
            assert!(matches!(&clauses[1], (None, b) if b.len() == 1));
            assert!(matches!(&clauses[2], (Some(e), b) if is_num(e, "2") && b.is_empty()));
        }
        other => panic!("{:?}", other),
    }
    assert_eq!(parse_error("catwalk (x) { purr(1); }"), ErrorKind::Syntax);
}

#[test]
fn first_syntax_error_wins() {
    let e = parse_program("catv a = ;\ncatv b = ;").unwrap_err();
    assert_eq!(e.kind(), ErrorKind::Syntax);
    assert_eq!(e.location().unwrap().line, 1);
    assert_eq!(parse_error("purr(1)"), ErrorKind::Syntax);
    assert_eq!(parse_error("catv = 3;"), ErrorKind::Syntax);
    assert_eq!(parse_error("{ purr(1);"), ErrorKind::Syntax);
    assert_eq!(parse_error("purr(\"open);"), ErrorKind::Syntax);
}

#[test]
fn parameter_limit() {
    let params: Vec<String> = (0..256).map(|i| format!("p{}", i)).collect();
    let src = format!("cat f({}) {{}}", params.join(", "));
    assert_eq!(parse_error(&src), ErrorKind::Syntax);
    let ok = format!("cat f({}) {{}}", params[..255].join(", "));
    assert_eq!(parse(&ok).len(), 1);
}

#[test]
fn parser_over_lexer_tokens() {
    let tokens = MewLexer::new("purr(1); purr(2);").scan_tokens().unwrap();
    let mut p = Parser::new(tokens);
    assert_eq!(p.parse().unwrap().len(), 2);
}

#[test]
fn empty_program() {
    assert!(parse("").is_empty());
    assert!(parse("// nothing\n").is_empty());
}

#[test]
fn places_through_parentheses_and_chains() {
    let prog = parse("(x) = 1; a.b.c = 2; f(1)(2); m[0][1] = 3;");
    assert!(matches!(&prog[0], Stmt::Expression(Expr::Assignment(n, _)) if n == "x"));
    assert!(matches!(&prog[1], Stmt::Expression(Expr::SetField(o, c, _)) if c == "c" && matches!(&**o, Expr::Get(..))));
    assert!(matches!(&prog[2], Stmt::Expression(Expr::Call(f, a)) if a.len() == 1 && matches!(&**f, Expr::Call(..))));
    assert!(matches!(&prog[3], Stmt::Expression(Expr::SetIndex(o, _, _)) if matches!(&**o, Expr::Index(..))));
}

#[test]
fn non_places_are_refused() {
    assert_eq!(parse_error("x + 1 = 2;"), ErrorKind::Syntax);
    assert_eq!(parse_error("x++ ++;"), ErrorKind::Syntax);
    assert_eq!(parse_error("-x = 1;"), ErrorKind::Syntax);
    assert_eq!(parse_error("[1] = 1;"), ErrorKind::Syntax);
}

#[test]
fn argument_limit() {
    let args: Vec<String> = (0..256).map(|i| i.to_string()).collect();
    assert_eq!(parse_error(&format!("f({});", args.join(","))), ErrorKind::Syntax);
    assert_eq!(parse(&format!("f({});", args[..255].join(","))).len(), 1);
}

#[test]
fn break_continue_return_forms() {
    let prog = parse("mewhile (true) { clawt; meownext; return; return 1; }");
    match &prog[0] {
        Stmt::While(_, body) => match &**body {
            Stmt::Block(v) => {
                assert!(matches!(v[0], Stmt::Break));
                assert!(matches!(v[1], Stmt::Continue));
                assert!(matches!(v[2], Stmt::Return(None)));
                assert!(matches!(&v[3], Stmt::Return(Some(e)) if is_num(e, "1")));
            }
            other => panic!("{:?}", other),
        },
        other => panic!("{:?}", other),
    }
    assert_eq!(parse_error("clawt"), ErrorKind::Syntax);
}

#[test]
fn first_error_is_placed_at_its_token() {
    let e = parse_program("catv = 1; catv y 2;").unwrap_err();
    assert_eq!(e.kind(), ErrorKind::Syntax);
    let l = e.location().unwrap();
    assert_eq!((l.line, l.column), (1, 6));
    assert_eq!(e.message(), "Expected variable name.");
}

#[test]
fn precedence_and_left_association() {
    let prog = parse("1 + 2 * 3 - 4;");
    match &prog[0] {
        Stmt::Expression(Expr::Binary(l, BinaryOp::Sub, r)) => {
            assert!(is_num(r, "4"));
            match &**l {
                Expr::Binary(one, BinaryOp::Add, prod) => {
                    assert!(is_num(one, "1"));
                    assert!(matches!(&**prod, Expr::Binary(a, BinaryOp::Mul, b) if is_num(a, "2") && is_num(b, "3")));
                }
                other => panic!("{:?}", other),
            }
        }
        other => panic!("{:?}", other),
    }
}

#[test]
fn error_at_end_is_placed_at_the_end_token() {
    let e = parse_program("purr(1)").unwrap_err();
    let l = e.location().unwrap();
    assert_eq!((l.line, l.column), (1, 8));
}
