use lang::ast::{BlockItem, JumpStmt, Stmt};
use lang::lex::lex;
use lang::parse::{parse_stmt, ParseContext};

#[test]
fn test_simple_stmt() {
    let mut ctx = ParseContext::new();

    let tokens = lex(";").unwrap();
    let (stmt, p) = parse_stmt(&tokens, 0, &mut ctx).unwrap();
    assert_eq!(p, tokens.len());
    assert!(matches!(stmt, Stmt::EmptyStmt));

    let tokens = lex("{ }").unwrap();
    let (stmt, p) = parse_stmt(&tokens, 0, &mut ctx).unwrap();
    assert_eq!(p, tokens.len());
    match stmt {
        Stmt::Compound(c) => assert!(c.0.is_empty()),
        _ => panic!("expected a compound statement"),
    }

    let tokens = lex("a++;").unwrap();
    assert!(parse_stmt(&tokens, 0, &mut ctx).is_ok());

    let tokens = lex("{ a++; }").unwrap();
    assert!(parse_stmt(&tokens, 0, &mut ctx).is_ok());

    let tokens = lex("{ int a = 0; a++; }").unwrap();
    assert!(parse_stmt(&tokens, 0, &mut ctx).is_ok());
}

#[test]
fn parse_declaration_inside_block() {
    let mut ctx = ParseContext::new();
    let tokens = lex("{ int a = 0; a++; }").unwrap();
    let (stmt, _) = parse_stmt(&tokens, 0, &mut ctx).unwrap();
    match stmt {
        Stmt::Compound(c) => {
            assert_eq!(c.0.len(), 2);
            assert!(matches!(c.0[0], BlockItem::Declaration(_)));
            assert!(matches!(c.0[1], BlockItem::Statement(_)));
        }
        _ => panic!("expected a compound statement"),
    }
}

#[test]
fn parse_control_flow_forms() {
    let mut ctx = ParseContext::new();
    for src in [
        "if (1) ; else ;",
        "while (1) { a = a + 1; }",
        "do a--; while (a);",
        "for (i = 0; i < 10; i++) ;",
        "switch (x) { case 1: break; default: break; }",
        "goto out;",
        "return a * 2;",
        "lbl: return;",
    ] {
        let tokens = lex(src).unwrap();
        let r = parse_stmt(&tokens, 0, &mut ctx);
        assert!(r.is_ok(), "failed to parse: {}", src);
        let (_, p) = r.unwrap();
        assert_eq!(p, tokens.len(), "did not consume all of: {}", src);
    }
}

#[test]
fn parse_expression_forms() {
    let mut ctx = ParseContext::new();
    for src in [
        "a = b = 3;",
        "a += f(1, x);",
        "p->next.value[2]++;",
        "x = c ? 1 : 0;",
        "y = (int)2.5 + -z * !w;",
        "m = sizeof(int) + sizeof x;",
        "b = a << 2 | a >> 1 & 7 ^ 3;",
    ] {
        let tokens = lex(src).unwrap();
        let r = parse_stmt(&tokens, 0, &mut ctx);
        assert!(r.is_ok(), "failed to parse: {}", src);
    }
}

#[test]
fn parse_rejects_garbage() {
    let mut ctx = ParseContext::new();
    let tokens = lex("+ ;").unwrap();
    assert!(parse_stmt(&tokens, 0, &mut ctx).is_err());
    let tokens = lex("{ a++; ").unwrap();
    assert!(parse_stmt(&tokens, 0, &mut ctx).is_err());
}

#[test]
fn statement_wraps_its_variants() {
    let s = Stmt::from(JumpStmt::Break);
    assert!(matches!(s, Stmt::Jump(JumpStmt::Break)));
}
