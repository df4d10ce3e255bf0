use go_parser::ast::{
    AssignOp, BinaryOp, Block, Declaration, Else, Expression, Id, ImportName, LiteralKind, Node,
    SimpleStmt, Statement, TopLevelDecl, UnaryOp,
};
use go_parser::{lex, parse, parse_statement, Loc, ParseError, Parser, Token, TokenInfo};
use std::rc::Rc;

fn statement(source: &str) -> Statement {
    parse_statement(lex(source).unwrap()).unwrap()
}

fn name(e: &Rc<Expression>) -> &str {
    match &**e {
        Expression::Ident { ident, .. } => ident,
        other => panic!("not a name: {:?}", other),
    }
}

fn simple(source: &str) -> SimpleStmt {
    match statement(source) {
        Statement::Simple { simple, .. } => simple,
        other => panic!("not a simple statement: {:?}", other),
    }
}

fn expression(source: &str) -> Rc<Expression> {
    match simple(source) {
        SimpleStmt::Expr { expr, .. } => expr,
        other => panic!("not an expression: {:?}", other),
    }
}

fn shape(e: &Expression) -> String {
    match e {
        Expression::Ident { ident, .. } => ident.clone(),
        Expression::Literal { text, .. } => text.clone(),
        Expression::Rune { value, .. } => format!("{:?}", value),
        Expression::Str { value, .. } => format!("{:?}", String::from_utf8_lossy(value)),
        Expression::Paren { expr, .. } => format!("({})", shape(expr)),
        Expression::Selector { operand, name, .. } => format!("{}.{}", shape(operand), name.ident),
        Expression::Call { callee, args, .. } => {
            let args: Vec<String> = args.iter().map(|a| shape(a)).collect();
            format!("{}({})", shape(callee), args.join(", "))
        }
        Expression::Index { operand, index, .. } => format!("{}[{}]", shape(operand), shape(index)),
        Expression::Unary { op, operand, .. } => format!("[{:?} {}]", op, shape(operand)),
        Expression::Binary { op, lhs, rhs, .. } => {
            format!("[{} {:?} {}]", shape(lhs), op, shape(rhs))
        }
    }
}

fn error(tokens: Vec<Token>) -> (Token, &'static str) {
    match parse(tokens) {
        Err(ParseError::UnexpectedToken(token, expected)) => (token, expected),
        Ok(file) => panic!("parsed: {:?}", file),
    }
}

#[test]
fn package_clause_alone() {
    let file = parse(lex("package main").unwrap()).unwrap();
    let package = file.package.unwrap();
    assert_eq!(package.name.ident, "main");
    assert_eq!(package.name.loc, Loc::new(8..12));
    assert_eq!(package.loc, Loc::new(0..12));
    assert!(file.imports.is_empty());
    assert!(file.decls.is_empty());
    assert_eq!(file.loc, Loc::new(0..12));
}

#[test]
fn empty_file() {
    let file = parse(lex("").unwrap()).unwrap();
    assert_eq!(file.package, None);
    assert!(file.imports.is_empty());
    assert!(file.decls.is_empty());
    assert_eq!(file.loc, Loc::new(0..0));
}

#[test]
fn const_declaration() {
    let file = parse(lex("const x = 1").unwrap()).unwrap();
    assert_eq!(file.package, None);
    assert_eq!(file.decls.len(), 1);
    match &file.decls[0] {
        TopLevelDecl::Decl(Declaration::Const { loc, decl }) => {
            assert_eq!(*loc, Loc::new(0..11));
            assert_eq!(decl.specs.len(), 1);
            let spec = &decl.specs[0];
            assert_eq!(spec.idents, vec![Id { loc: Loc::new(6..7), ident: "x".to_string() }]);
            assert_eq!(spec.type_, None);
            assert_eq!(
                spec.exprs,
                vec![Rc::new(Expression::Literal {
                    loc: Loc::new(10..11),
                    kind: LiteralKind::Dec,
                    text: "1".to_string()
                })]
            );
            assert_eq!(spec.loc, Loc::new(6..11));
        }
        other => panic!("not a constant declaration: {:?}", other),
    }
}

#[test]
fn grouped_const_declaration() {
    let file = parse(lex("const (\n a, b int = 1, 2\n c\n)\n").unwrap()).unwrap();
    match &file.decls[0] {
        TopLevelDecl::Decl(Declaration::Const { decl, .. }) => {
            assert_eq!(decl.specs.len(), 2);
            assert_eq!(decl.specs[0].idents.len(), 2);
            assert_eq!(decl.specs[0].idents[1].ident, "b");
            assert_eq!(decl.specs[0].type_.as_ref().unwrap().name.ident, "int");
            assert_eq!(decl.specs[0].exprs.len(), 2);
            assert_eq!(decl.specs[1].idents[0].ident, "c");
            assert!(decl.specs[1].exprs.is_empty());
        }
        other => panic!("not a constant declaration: {:?}", other),
    }
}

#[test]
fn var_and_type_declarations() {
    let file = parse(lex("var x int\ntype T int\nvar (\n)\n").unwrap()).unwrap();
    assert_eq!(file.decls.len(), 3);
    match &file.decls[0] {
        TopLevelDecl::Decl(Declaration::Var { decl, .. }) => {
            assert_eq!(decl.specs[0].idents[0].ident, "x");
            assert_eq!(decl.specs[0].type_.as_ref().unwrap().name.ident, "int");
        }
        other => panic!("not a variable declaration: {:?}", other),
    }
    match &file.decls[1] {
        TopLevelDecl::Decl(Declaration::Type { decl, .. }) => {
            assert_eq!(decl.name.ident, "T");
            assert_eq!(decl.type_.name.ident, "int");
            assert_eq!(decl.loc, Loc::new(10..20));
        }
        other => panic!("not a type declaration: {:?}", other),
    }
    match &file.decls[2] {
        TopLevelDecl::Decl(Declaration::Var { decl, .. }) => assert!(decl.specs.is_empty()),
        other => panic!("not a variable declaration: {:?}", other),
    }
}

#[test]
fn imports() {
    let file = parse(
        lex("package p\nimport \"a\"\nimport (\n . \"b\"\n c \"d\"\n)\nimport x \"y\"\n").unwrap(),
    )
    .unwrap();
    assert_eq!(file.imports.len(), 4);
    assert_eq!(file.imports[0].name, None);
    assert_eq!(file.imports[0].path.value, b"a".to_vec());
    assert_eq!(file.imports[0].path.loc, Loc::new(17..20));
    assert!(matches!(file.imports[1].name, Some(ImportName::Dot { .. })));
    assert_eq!(file.imports[1].path.value, b"b".to_vec());
    match &file.imports[2].name {
        Some(ImportName::Name { name, .. }) => assert_eq!(name, "c"),
        other => panic!("not a name: {:?}", other),
    }
    assert_eq!(file.imports[2].path.value, b"d".to_vec());
    match &file.imports[3].name {
        Some(ImportName::Name { name, .. }) => assert_eq!(name, "x"),
        other => panic!("not a name: {:?}", other),
    }
    assert!(file.decls.is_empty());
}

#[test]
fn function_and_method_declarations() {
    let file =
        parse(lex("func f()\nfunc g() {\n x++\n}\nfunc (r T) m() {\n}\n").unwrap()).unwrap();
    assert_eq!(file.decls.len(), 3);
    match &file.decls[0] {
        TopLevelDecl::Func(decl) => {
            assert_eq!(decl.name.ident, "f");
            assert_eq!(decl.body, None);
            assert_eq!(*decl.loc(), Loc::new(0..8));
        }
        other => panic!("not a function: {:?}", other),
    }
    match &file.decls[1] {
        TopLevelDecl::Func(decl) => {
            assert_eq!(decl.name.ident, "g");
            let body = decl.body.as_ref().unwrap();
            assert_eq!(body.statements.len(), 1);
            assert!(matches!(
                &*body.statements[0],
                Statement::Simple { simple: SimpleStmt::Inc { .. }, .. }
            ));
        }
        other => panic!("not a function: {:?}", other),
    }
    match &file.decls[2] {
        TopLevelDecl::Method(decl) => {
            assert_eq!(decl.receiver.ident, "r");
            assert_eq!(decl.receiver_type.name.ident, "T");
            assert_eq!(decl.name.ident, "m");
            assert!(decl.body.as_ref().unwrap().statements.is_empty());
        }
        other => panic!("not a method: {:?}", other),
    }
    assert_eq!(*file.decls[2].loc(), Loc::new(27..45));
}

#[test]
fn if_without_leading_statement() {
    match statement("if x { }") {
        Statement::If { loc, if_ } => {
            assert_eq!(loc, Loc::new(0..8));
            assert_eq!(if_.stmt, None);
            assert_eq!(name(&if_.cond), "x");
            assert_eq!(if_.then_, Block { loc: Loc::new(5..8), statements: vec![] });
            assert_eq!(if_.else_, None);
        }
        other => panic!("not an if statement: {:?}", other),
    }
}

#[test]
fn if_with_leading_statement_and_else() {
    match statement("if x; y { } else { }") {
        Statement::If { if_, .. } => {
            match if_.stmt {
                Some(SimpleStmt::Expr { ref expr, .. }) => assert_eq!(name(expr), "x"),
                ref other => panic!("not an expression statement: {:?}", other),
            }
            assert_eq!(name(&if_.cond), "y");
            assert!(if_.then_.statements.is_empty());
            match if_.else_.as_deref() {
                Some(Else::Else { loc, else_ }) => {
                    assert_eq!(*loc, Loc::new(12..20));
                    assert_eq!(*else_, Block { loc: Loc::new(17..20), statements: vec![] });
                }
                other => panic!("not an else block: {:?}", other),
            }
        }
        other => panic!("not an if statement: {:?}", other),
    }
}

#[test]
fn else_if_chains() {
    match statement("if a { } else if b { } else { }") {
        Statement::If { if_, .. } => match if_.else_.as_deref() {
            Some(Else::If { if_: inner, .. }) => {
                assert_eq!(name(&inner.cond), "b");
                assert!(matches!(inner.else_.as_deref(), Some(Else::Else { .. })));
            }
            other => panic!("not an else-if: {:?}", other),
        },
        other => panic!("not an if statement: {:?}", other),
    }
}

#[test]
fn else_binds_to_the_nearest_if() {
    match statement("if a {\n if b {\n } else {\n }\n}") {
        Statement::If { if_, .. } => {
            assert_eq!(if_.else_, None);
            match &*if_.then_.statements[0] {
                Statement::If { if_: inner, .. } => assert!(inner.else_.is_some()),
                other => panic!("not an if statement: {:?}", other),
            }
        }
        other => panic!("not an if statement: {:?}", other),
    }
}

#[test]
fn if_needs_a_block() {
    let tokens = lex("if x y").unwrap();
    match parse_statement(tokens) {
        Err(ParseError::UnexpectedToken(token, expected)) => {
            assert_eq!(token.kind, TokenInfo::Identifier("y".to_string()));
            assert_eq!(expected, "expected '{'");
        }
        other => panic!("parsed: {:?}", other),
    }
    let tokens = lex("if x { } else y").unwrap();
    match parse_statement(tokens) {
        Err(ParseError::UnexpectedToken(token, expected)) => {
            assert_eq!(token.loc, Loc::new(14..15));
            assert_eq!(expected, "expected '{'");
        }
        other => panic!("parsed: {:?}", other),
    }
}

#[test]
fn if_with_a_statement_that_is_no_condition() {
    match parse_statement(lex("if x++ { }").unwrap()) {
        Err(ParseError::UnexpectedToken(token, expected)) => {
            assert_eq!(token.kind, TokenInfo::LBrace);
            assert_eq!(expected, "expected ';'");
        }
        other => panic!("parsed: {:?}", other),
    }
}

#[test]
fn statement_ending_in_increment() {
    match simple("x++") {
        SimpleStmt::Inc { loc, lhs } => {
            assert_eq!(loc, Loc::new(0..3));
            assert_eq!(name(&lhs), "x");
        }
        other => panic!("not an increment: {:?}", other),
    }
    let file = parse(lex("func f() {\n x++\n}").unwrap()).unwrap();
    assert_eq!(file.decls.len(), 1);
}

#[test]
fn simple_statements() {
    assert!(matches!(simple("x--"), SimpleStmt::Dec { .. }));
    match simple("ch <- v") {
        SimpleStmt::Send { chan, value, .. } => {
            assert_eq!(name(&chan), "ch");
            assert_eq!(name(&value), "v");
        }
        other => panic!("not a send: {:?}", other),
    }
    match simple("a, b = b, a") {
        SimpleStmt::Assign { lhs, op, rhs, loc } => {
            assert_eq!(lhs.len(), 2);
            assert_eq!(op, None);
            assert_eq!(rhs.len(), 2);
            assert_eq!(name(&rhs[0]), "b");
            assert_eq!(loc, Loc::new(0..11));
        }
        other => panic!("not an assignment: {:?}", other),
    }
    match simple("a := 1") {
        SimpleStmt::ShortVarDecl { lhs, op, rhs, .. } => {
            assert_eq!(name(&lhs[0]), "a");
            assert_eq!(op, None);
            assert_eq!(rhs.len(), 1);
        }
        other => panic!("not a short variable declaration: {:?}", other),
    }
}

#[test]
fn assignment_operators() {
    for (source, want) in [
        ("a += 1", AssignOp::Add),
        ("a -= 1", AssignOp::Sub),
        ("a *= 1", AssignOp::Mul),
        ("a /= 1", AssignOp::Div),
        ("a %= 1", AssignOp::Rem),
        ("a &= 1", AssignOp::And),
        ("a |= 1", AssignOp::Or),
        ("a ^= 1", AssignOp::Xor),
        ("a <<= 1", AssignOp::Shl),
        ("a >>= 1", AssignOp::Shr),
        ("a &^= 1", AssignOp::AndNot),
    ] {
        match simple(source) {
            SimpleStmt::Assign { op, .. } => assert_eq!(op, Some(want), "{}", source),
            other => panic!("not an assignment: {:?}", other),
        }
    }
}

#[test]
fn several_expressions_need_an_assignment() {
    match parse_statement(lex("a, b").unwrap()) {
        Err(ParseError::UnexpectedToken(token, expected)) => {
            assert_eq!(token.kind, TokenInfo::Semicolon);
            assert_eq!(expected, "expected assignment");
        }
        other => panic!("parsed: {:?}", other),
    }
}

#[test]
fn labeled_statement() {
    match statement("l: m: x++") {
        Statement::Labeled { loc, label, stmt } => {
            assert_eq!(loc, Loc::new(0..9));
            assert_eq!(label, Id { loc: Loc::new(0..1), ident: "l".to_string() });
            match &*stmt {
                Statement::Labeled { label, stmt, .. } => {
                    assert_eq!(label.ident, "m");
                    assert_eq!(*stmt.loc(), Loc::new(6..9));
                }
                other => panic!("not labeled: {:?}", other),
            }
        }
        other => panic!("not labeled: {:?}", other),
    }
}

#[test]
fn declaration_as_statement() {
    match statement("var x = 1") {
        Statement::Decl { loc, decl: Declaration::Var { decl, .. } } => {
            assert_eq!(loc, Loc::new(0..9));
            assert_eq!(decl.specs.len(), 1);
        }
        other => panic!("not a declaration: {:?}", other),
    }
}

#[test]
fn block_statements_end_in_semicolons() {
    let file = parse(lex("func f() {\n a = 1;\n b = 2\n}").unwrap()).unwrap();
    match &file.decls[0] {
        TopLevelDecl::Func(decl) => assert_eq!(decl.body.as_ref().unwrap().statements.len(), 2),
        other => panic!("not a function: {:?}", other),
    }
    let (token, expected) = error(lex("func f() { a = 1 }").unwrap());
    assert_eq!(token.kind, TokenInfo::RBrace);
    assert_eq!(expected, "expected ';'");
}

#[test]
fn operators_by_precedence() {
    assert_eq!(shape(&expression("a + b * c")), "[a Add [b Mul c]]");
    assert_eq!(shape(&expression("a * b + c")), "[[a Mul b] Add c]");
    assert_eq!(shape(&expression("a - b - c")), "[[a Sub b] Sub c]");
    assert_eq!(
        shape(&expression("a || b && c == d + e * f")),
        "[a LogicalOr [b LogicalAnd [c Eq [d Add [e Mul f]]]]]"
    );
    assert_eq!(shape(&expression("a * b == c || d")), "[[[a Mul b] Eq c] LogicalOr d]");
    assert_eq!(shape(&expression("(a + b) * c")), "[([a Add b]) Mul c]");
    assert_eq!(shape(&expression("-a + !b")), "[[Minus a] Add [Not b]]");
    assert_eq!(shape(&expression("- -a")), "[Minus [Minus a]]");
    assert_eq!(shape(&expression("a << 1 &^ b")), "[[a Shl 1] AndNot b]");
    assert_eq!(shape(&expression("a < b")), "[a Lt b]");
}

#[test]
fn every_operator_is_recognised() {
    for (source, want) in [
        ("a || b", BinaryOp::LogicalOr),
        ("a && b", BinaryOp::LogicalAnd),
        ("a == b", BinaryOp::Eq),
        ("a != b", BinaryOp::NotEq),
        ("a < b", BinaryOp::Lt),
        ("a <= b", BinaryOp::LtEq),
        ("a > b", BinaryOp::Gt),
        ("a >= b", BinaryOp::GtEq),
        ("a + b", BinaryOp::Add),
        ("a - b", BinaryOp::Sub),
        ("a | b", BinaryOp::Or),
        ("a ^ b", BinaryOp::Xor),
        ("a * b", BinaryOp::Mul),
        ("a / b", BinaryOp::Div),
        ("a % b", BinaryOp::Rem),
        ("a << b", BinaryOp::Shl),
        ("a >> b", BinaryOp::Shr),
        ("a & b", BinaryOp::And),
        ("a &^ b", BinaryOp::AndNot),
    ] {
        match &*expression(source) {
            Expression::Binary { op, .. } => assert_eq!(*op, want, "{}", source),
            other => panic!("not binary: {:?}", other),
        }
    }
    for (source, want) in [
        ("+a", UnaryOp::Plus),
        ("-a", UnaryOp::Minus),
        ("!a", UnaryOp::Not),
        ("^a", UnaryOp::Xor),
        ("*a", UnaryOp::Deref),
        ("&a", UnaryOp::Addr),
        ("<-a", UnaryOp::Recv),
    ] {
        match &*expression(source) {
            Expression::Unary { op, .. } => assert_eq!(*op, want, "{}", source),
            other => panic!("not unary: {:?}", other),
        }
    }
}

#[test]
fn operands() {
    assert_eq!(
        *expression("'a'"),
        Expression::Rune { loc: Loc::new(0..3), value: 'a' }
    );
    assert_eq!(
        *expression("\"a\\n\""),
        Expression::Str { loc: Loc::new(0..5), value: b"a\n".to_vec() }
    );
    for (source, kind) in [
        ("12", LiteralKind::Dec),
        ("012", LiteralKind::Oct),
        ("0x12", LiteralKind::Hex),
        ("1.2", LiteralKind::Float),
        ("12i", LiteralKind::Imaginary),
    ] {
        assert_eq!(
            *expression(source),
            Expression::Literal { loc: Loc::new(0..source.len()), kind, text: source.to_string() }
        );
    }
    match &*expression("(x)") {
        Expression::Paren { loc, expr } => {
            assert_eq!(*loc, Loc::new(0..3));
            assert_eq!(name(expr), "x");
        }
        other => panic!("not in parentheses: {:?}", other),
    }
}

#[test]
fn selectors_calls_and_indexes() {
    assert_eq!(shape(&expression("a.b")), "a.b");
    assert_eq!(shape(&expression("f()")), "f()");
    assert_eq!(shape(&expression("f(x, 1)")), "f(x, 1)");
    assert_eq!(shape(&expression("a[i]")), "a[i]");
    assert_eq!(shape(&expression("a.b.c(1, x)[i]()")), "a.b.c(1, x)[i]()");
    assert_eq!(shape(&expression("(a)(b)")), "(a)(b)");
    assert_eq!(shape(&expression("-a.b")), "[Minus a.b]");
    assert_eq!(shape(&expression("f(x) + g(y)[0] * 2")), "[f(x) Add [g(y)[0] Mul 2]]");
    assert_eq!(shape(&expression("f(g(h(1)))")), "f(g(h(1)))");
    assert_eq!(shape(&expression("a[i + 1]")), "a[[i Add 1]]");
    match &*expression("pkg.Name(x)") {
        Expression::Call { loc, callee, args } => {
            assert_eq!(*loc, Loc::new(0..11));
            assert_eq!(args.len(), 1);
            match &**callee {
                Expression::Selector { loc, operand, name } => {
                    assert_eq!(*loc, Loc::new(0..8));
                    assert_eq!(name.ident, "Name");
                    assert_eq!(name.loc, Loc::new(4..8));
                    assert_eq!(*operand.loc(), Loc::new(0..3));
                }
                other => panic!("not a selector: {:?}", other),
            }
        }
        other => panic!("not a call: {:?}", other),
    }
    match &*expression("a[i]") {
        Expression::Index { loc, operand, index } => {
            assert_eq!(*loc, Loc::new(0..4));
            assert_eq!(name(operand), "a");
            assert_eq!(name(index), "i");
        }
        other => panic!("not an index: {:?}", other),
    }
}

#[test]
fn selectors_calls_and_indexes_must_be_closed() {
    for (source, kind, expected) in [
        ("f(x", TokenInfo::Semicolon, "expected ')'"),
        ("f(x,", TokenInfo::Eof, "expected expression"),
        ("f(", TokenInfo::Eof, "expected expression"),
        ("a[1", TokenInfo::Semicolon, "expected ']'"),
        ("a[", TokenInfo::Eof, "expected expression"),
        ("a.", TokenInfo::Eof, "expected identifier"),
        ("a.1", TokenInfo::Float(".1".to_string()), "expected end of input"),
    ] {
        match parse_statement(lex(source).unwrap()) {
            Err(ParseError::UnexpectedToken(token, what)) => {
                assert_eq!(token.kind, kind, "{}", source);
                assert_eq!(what, expected, "{}", source);
            }
            other => panic!("parsed: {:?}", other),
        }
    }
}

#[test]
fn statements_with_calls() {
    match simple("x.y = f(1)") {
        SimpleStmt::Assign { lhs, rhs, .. } => {
            assert_eq!(shape(&lhs[0]), "x.y");
            assert_eq!(shape(&rhs[0]), "f(1)");
        }
        other => panic!("not an assignment: {:?}", other),
    }
    match statement("if ok(x) {\n log.Print(x)\n}") {
        Statement::If { if_, .. } => {
            assert_eq!(shape(&if_.cond), "ok(x)");
            assert_eq!(if_.then_.statements.len(), 1);
        }
        other => panic!("not an if statement: {:?}", other),
    }
}

#[test]
fn expression_locations_join_first_and_last_token() {
    let e = expression("ab + cd * ef");
    assert_eq!(*e.loc(), Loc::new(0..12));
    match &*e {
        Expression::Binary { rhs, .. } => assert_eq!(*rhs.loc(), Loc::new(5..12)),
        other => panic!("not binary: {:?}", other),
    }
    assert_eq!(*expression("-x").loc(), Loc::new(0..2));
}

#[test]
fn unexpected_token_is_reported_with_what_was_expected() {
    let (token, expected) = error(lex("package 1").unwrap());
    assert_eq!(token, Token { loc: Loc::new(8..9), kind: TokenInfo::DecInt("1".to_string()) });
    assert_eq!(expected, "expected identifier");

    let (token, expected) = error(lex("package p q").unwrap());
    assert_eq!(token.kind, TokenInfo::Identifier("q".to_string()));
    assert_eq!(expected, "expected ';'");

    let (token, expected) = error(lex("x").unwrap());
    assert_eq!(token.kind, TokenInfo::Identifier("x".to_string()));
    assert_eq!(expected, "expected declaration");

    let (token, expected) = error(lex("const x = ").unwrap());
    assert_eq!(token, Token { loc: Loc::new(10..10), kind: TokenInfo::Eof });
    assert_eq!(expected, "expected expression");

    let (token, expected) = error(lex("const x = (1").unwrap());
    assert_eq!(token, Token { loc: Loc::new(12..12), kind: TokenInfo::Semicolon });
    assert_eq!(expected, "expected ')'");

    let (token, expected) = error(lex("import x").unwrap());
    assert_eq!(token.kind, TokenInfo::Semicolon);
    assert_eq!(expected, "expected string literal");

    let (token, expected) = error(lex("func f(x)").unwrap());
    assert_eq!(token.kind, TokenInfo::Identifier("x".to_string()));
    assert_eq!(expected, "expected ')'");

    let (token, expected) = error(lex("func f() {").unwrap());
    assert_eq!(token.kind, TokenInfo::Eof);
    assert_eq!(expected, "expected '}'");

    let (token, expected) = error(lex("type T").unwrap());
    assert_eq!(token.kind, TokenInfo::Semicolon);
    assert_eq!(expected, "expected type");
}

#[test]
fn a_stream_without_end_of_input_ends_where_its_last_token_ends() {
    let mut tokens = lex("const x =").unwrap();
    tokens.pop();
    let (token, expected) = error(tokens);
    assert_eq!(token, Token { loc: Loc::new(9..9), kind: TokenInfo::Eof });
    assert_eq!(expected, "expected expression");

    let (token, expected) = error(vec![Token { loc: Loc::new(0..7), kind: TokenInfo::Package }]);
    assert_eq!(token, Token { loc: Loc::new(7..7), kind: TokenInfo::Eof });
    assert_eq!(expected, "expected identifier");

    assert!(parse(vec![]).unwrap().decls.is_empty());
}

#[test]
fn tokens_behind_a_statement_are_an_error() {
    match parse_statement(lex("x; y").unwrap()) {
        Err(ParseError::UnexpectedToken(token, expected)) => {
            assert_eq!(token.kind, TokenInfo::Identifier("y".to_string()));
            assert_eq!(expected, "expected end of input");
        }
        other => panic!("parsed: {:?}", other),
    }
}

#[test]
fn parser_gives_what_parse_gives() {
    let source = "package p\nimport \"a\"\nconst x = 1\nfunc f() {\n if x { }\n}\n";
    let by_parser = Parser::new(lex(source).unwrap()).parse();
    assert_eq!(by_parser, parse(lex(source).unwrap()));
    assert!(by_parser.is_ok());
    let broken = "package";
    assert_eq!(Parser::new(lex(broken).unwrap()).parse(), parse(lex(broken).unwrap()));
}
