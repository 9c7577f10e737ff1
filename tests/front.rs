use frontend::front::{parse_source, FrontError};
use frontend::parser::{Expr, ParseErrorKind, Parser, Stmt};
use frontend::token::{Kind, Token, TokenType};
use frontend::tokenizer::{lower_string, LexErrorKind, Tokenizer};

fn lex(src: &str) -> Vec<Token> {
    let mut t = Tokenizer::new(src);
    t.tokenize().expect("tokenizing failed");
    t.tokens.into_vec()
}

fn kinds(src: &str) -> Vec<Kind> {
    lex(src).iter().map(|t| t.t_type.kind()).collect()
}

fn parse(src: &str) -> Vec<Stmt> {
    let mut p = Parser::new(lex(src));
    assert!(p.parse().is_ok());
    p.parse_tree.stmts
}

fn text(t: &TokenType) -> String {
    t.payload().expect("payload").clone()
}

fn int_text(e: &Expr) -> String {
    match e {
        Expr::ExprInt(s) => s.clone(),
        _ => panic!("not an integer literal"),
    }
}

#[test]
fn lines_count_newlines_before_token() {
    let toks = lex("decl\n\nx\r`a\nb` y");
    let lines: Vec<usize> = toks.iter().map(|t| t.line).collect();
    assert_eq!(lines, vec![1, 3, 5, 5, 5]);
}

#[test]
fn keyword_and_longer_word() {
    assert_eq!(kinds("return"), vec![Kind::Ret, Kind::Eof]);
    let toks = lex("returns");
    assert_eq!(toks[0].t_type.kind(), Kind::Var);
    assert_eq!(text(&toks[0].t_type), "returns");
    assert_eq!(kinds("if_"), vec![Kind::Var, Kind::Eof]);
    assert_eq!(kinds("use1"), vec![Kind::Var, Kind::Eof]);
}

#[test]
fn less_than_after_use_is_a_path() {
    let toks = lex("use<stdio>;");
    assert_eq!(toks.iter().map(|t| t.t_type.kind()).collect::<Vec<_>>(), vec![Kind::Use, Kind::Path, Kind::Semi, Kind::Eof]);
    assert_eq!(text(&toks[1].t_type), "stdio");
    let toks = lex("x<y;");
    assert_eq!(toks.iter().map(|t| t.t_type.kind()).collect::<Vec<_>>(), vec![Kind::Var, Kind::Lt, Kind::Var, Kind::Semi, Kind::Eof]);
    assert_eq!(text(&toks[0].t_type), "x");
    assert_eq!(text(&toks[2].t_type), "y");
}

#[test]
fn prefix_operators_get_a_zero() {
    let toks = lex("!x");
    assert_eq!(toks.iter().map(|t| t.t_type.kind()).collect::<Vec<_>>(), vec![Kind::Int, Kind::Ex, Kind::Var, Kind::Eof]);
    assert_eq!(text(&toks[0].t_type), "0");
    let toks = lex("@x");
    assert_eq!(toks.iter().map(|t| t.t_type.kind()).collect::<Vec<_>>(), vec![Kind::Int, Kind::At, Kind::Var, Kind::Eof]);
    assert_eq!(text(&toks[0].t_type), "0");
}

fn ret_expr(src: &str) -> Expr {
    match parse(src).into_iter().next() {
        Some(Stmt::StmtRet(r)) => r.expr,
        _ => panic!("expected a return statement"),
    }
}

fn bin(e: Expr) -> (Kind, Expr, Expr) {
    match e {
        Expr::ExprBinOp(b) => (b.op.kind(), *b.lhs, *b.rhs),
        _ => panic!("expected a binary operation"),
    }
}

#[test]
fn multiplication_binds_tighter_than_addition() {
    let (op, l, r) = bin(ret_expr("return 1 + 2 * 3;"));
    assert_eq!(op, Kind::Plus);
    assert_eq!(int_text(&l), "1");
    let (op2, l2, r2) = bin(r);
    assert_eq!(op2, Kind::Star);
    assert_eq!(int_text(&l2), "2");
    assert_eq!(int_text(&r2), "3");
}

#[test]
fn subtraction_is_left_associative() {
    let (op, l, r) = bin(ret_expr("return 1 - 2 - 3;"));
    assert_eq!(op, Kind::Dash);
    assert_eq!(int_text(&r), "3");
    let (op2, l2, r2) = bin(l);
    assert_eq!(op2, Kind::Dash);
    assert_eq!(int_text(&l2), "1");
    assert_eq!(int_text(&r2), "2");
}

#[test]
fn equality_binds_tighter_than_and() {
    let (op, l, r) = bin(ret_expr("return 1 == 2 && 3;"));
    assert_eq!(op, Kind::DAmp);
    assert_eq!(int_text(&r), "3");
    let (op2, l2, r2) = bin(l);
    assert_eq!(op2, Kind::DEq);
    assert_eq!(int_text(&l2), "1");
    assert_eq!(int_text(&r2), "2");
}

#[test]
fn parenthesised_expression_groups() {
    let (op, l, r) = bin(ret_expr("return (1 + 2) * 3;"));
    assert_eq!(op, Kind::Star);
    assert_eq!(int_text(&r), "3");
    assert_eq!(bin(l).0, Kind::Plus);
}

#[test]
fn call_and_reference() {
    match ret_expr("return f(1);") {
        Expr::ExprCall(c) => {
            assert_eq!(c.name.name, "f");
            assert_eq!(int_text(&c.arg), "1");
        },
        _ => panic!("expected a call"),
    }
    match ret_expr("return f;") {
        Expr::ExprId(i) => {
            assert_eq!(i.name, "f");
            assert_eq!(i.line, 1);
        },
        _ => panic!("expected a reference"),
    }
}

#[test]
fn if_block_is_closed() {
    let stmts = parse("if 1 { decl x = 1; }");
    assert_eq!(stmts.len(), 1);
    match &stmts[0] {
        Stmt::StmtIf(i) => {
            assert_eq!(int_text(&i.expr), "1");
            assert_eq!(i.stmts.len(), 1);
            match &i.stmts[0] {
                Stmt::StmtDecl(d) => {
                    assert_eq!(d.var.name, "x");
                    assert_eq!(int_text(&d.expr), "1");
                },
                _ => panic!("expected a declaration"),
            }
        },
        _ => panic!("expected a conditional"),
    }
}

#[test]
fn unterminated_block_fails() {
    let mut p = Parser::new(lex("if 1 { decl x = 1;"));
    let e = p.parse().err().expect("an error");
    assert_eq!(e.kind, ParseErrorKind::Unexpected);
    assert_eq!(e.token.t_type.kind(), Kind::Eof);
}

#[test]
fn bare_semicolon_is_blank() {
    let stmts = parse(";");
    assert_eq!(stmts.len(), 1);
    assert!(matches!(stmts[0], Stmt::StmtBlank));
}

#[test]
fn fixed_texts_tokenize_back() {
    let all = [
        TokenType::Ret, TokenType::Exit, TokenType::Decl, TokenType::If, TokenType::Func,
        TokenType::For, TokenType::Mac, TokenType::Use, TokenType::Semi, TokenType::Eq,
        TokenType::DEq, TokenType::DPipe, TokenType::DAmp, TokenType::Star, TokenType::Plus,
        TokenType::Dash, TokenType::Slash, TokenType::Per, TokenType::LPar, TokenType::RPar,
        TokenType::LBr, TokenType::RBr, TokenType::Amp, TokenType::Hash, TokenType::Dot,
        TokenType::Lt, TokenType::Gt, TokenType::QMark,
    ];
    for t in all.iter() {
        let toks = lex(&t.to_text());
        assert_eq!(toks.len(), 2);
        assert!(toks[0].t_type == *t);
        assert_eq!(toks[1].t_type.kind(), Kind::Eof);
    }
}

#[test]
fn unterminated_backtick_fails() {
    let mut t = Tokenizer::new("exit 1;\n`mov rax");
    let e = t.tokenize().err().expect("an error");
    assert_eq!(e.kind, LexErrorKind::UnexpectedEnd);
    assert_eq!(e.line, 2);
}

#[test]
fn for_missing_second_semicolon_fails() {
    let mut p = Parser::new(lex("for decl i = 0; i x = i + 1; { }"));
    let e = p.parse().err().expect("an error");
    assert_eq!(e.kind, ParseErrorKind::Unexpected);
    assert_eq!(e.token.t_type.kind(), Kind::Var);
    assert_eq!(text(&e.token.t_type), "x");
    assert_eq!(e.token.line, 1);
}

#[test]
fn for_loop_parses() {
    let stmts = parse("for decl i = 0; i; i = i + 1; { exit i; }");
    match &stmts[0] {
        Stmt::StmtFor(f) => {
            assert_eq!(f.init.var.name, "i");
            assert_eq!(f.iter.var.name, "i");
            assert_eq!(f.iter.assign.kind(), Kind::Eq);
            assert_eq!(f.stmts.len(), 1);
        },
        _ => panic!("expected a for loop"),
    }
}

#[test]
fn function_and_raw_code() {
    let stmts = parse("func f(a) { return a; }\n`nop`");
    assert_eq!(stmts.len(), 2);
    match &stmts[0] {
        Stmt::StmtFunc(f) => {
            assert_eq!(f.ident.name, "f");
            assert_eq!(f.arg.name, "a");
            assert_eq!(f.stmts.len(), 1);
        },
        _ => panic!("expected a function"),
    }
    match &stmts[1] {
        Stmt::StmtAsm(a) => assert_eq!(a.code, "nop"),
        _ => panic!("expected raw code"),
    }
}

#[test]
fn missing_close_paren() {
    let mut p = Parser::new(lex("return (1 + 2;"));
    let e = p.parse().err().expect("an error");
    assert_eq!(e.kind, ParseErrorKind::MissingRPar);
    assert_eq!(e.token.t_type.kind(), Kind::Semi);
}

#[test]
fn lone_pipe_fails() {
    let mut t = Tokenizer::new("a |b");
    let e = t.tokenize().err().expect("an error");
    assert_eq!(e.kind, LexErrorKind::UnexpectedChar('|'));
    assert_eq!(e.line, 1);
}

#[test]
fn unknown_character_fails() {
    let mut t = Tokenizer::new("x\n\n$");
    let e = t.tokenize().err().expect("an error");
    assert_eq!(e.kind, LexErrorKind::UnexpectedChar('$'));
    assert_eq!(e.line, 3);
}

#[test]
fn string_literal_is_lowered() {
    let toks = lex("\"hi\"");
    assert_eq!(toks[0].t_type.kind(), Kind::Asm);
    let expected = "    mov rax, 9\n    mov rsi, 11\n    mov rdx, 3\n    mov r10, 33\n    mov r8, 255\n    mov r9, 0\n    syscall\n    mov QWORD [rax], 2\n    mov byte [rax + 8], 104\n    mov byte [rax + 9], 105\n    mov byte [rax + 10], 0\n";
    assert_eq!(text(&toks[0].t_type), expected);
    assert_eq!(lower_string(&vec!['h', 'i']), expected);
}

#[test]
fn string_escapes() {
    let toks = lex("\"a\\\"b\\n\"");
    let code = text(&toks[0].t_type);
    assert!(code.contains("mov QWORD [rax], 5\n"));
    assert!(code.contains("mov byte [rax + 9], 34\n"));
    assert!(code.contains("mov byte [rax + 11], 92\n"));
    assert!(code.contains("mov byte [rax + 12], 110\n"));
}

#[test]
fn unterminated_string_fails() {
    let mut t = Tokenizer::new("\"abc\n");
    let e = t.tokenize().err().expect("an error");
    assert_eq!(e.kind, LexErrorKind::UnexpectedEnd);
    assert_eq!(e.line, 2);
}

#[test]
fn comments_and_operators() {
    assert_eq!(
        kinds("a = b == c && d & e || f / g // rest\nh"),
        vec![
            Kind::Var, Kind::Eq, Kind::Var, Kind::DEq, Kind::Var, Kind::DAmp, Kind::Var, Kind::Amp,
            Kind::Var, Kind::DPipe, Kind::Var, Kind::Slash, Kind::Var, Kind::Var, Kind::Eof,
        ]
    );
    assert_eq!(lex("// only\nx")[0].line, 2);
}

#[test]
fn numbers_keep_their_digits() {
    let toks = lex("007 12ab");
    assert_eq!(text(&toks[0].t_type), "007");
    assert_eq!(text(&toks[1].t_type), "12");
    assert_eq!(text(&toks[2].t_type), "ab");
}

#[test]
fn equality_ignores_payload() {
    assert!(TokenType::Var("a".to_string()) == TokenType::Var("b".to_string()));
    assert!(TokenType::Int("1".to_string()) != TokenType::Var("1".to_string()));
}

#[test]
fn display_texts() {
    assert_eq!(TokenType::Asm("nop".to_string()).to_text(), "`nop`");
    assert_eq!(TokenType::Path("io".to_string()).to_text(), "<io>");
    assert_eq!(TokenType::Var("v".to_string()).to_text(), "v");
    assert_eq!(TokenType::Eof.to_text(), "end of file");
    assert_eq!(TokenType::DAmp.to_text(), "&&");
}

#[test]
fn end_of_input_line() {
    let toks = lex("a\nb\n");
    assert_eq!(toks[2].t_type.kind(), Kind::Eof);
    assert_eq!(toks[2].line, 3);
}

#[test]
fn source_to_program() {
    let prog = parse_source("decl x = 1;\nexit x;").ok().expect("a program");
    assert_eq!(prog.stmts.len(), 2);
    match &prog.stmts[1] {
        Stmt::StmtExit(e) => match &e.expr {
            Expr::ExprId(i) => {
                assert_eq!(i.name, "x");
                assert_eq!(i.line, 2);
            },
            _ => panic!("expected a reference"),
        },
        _ => panic!("expected an exit"),
    }
}

#[test]
fn source_with_lexical_error() {
    match parse_source("decl x = $;") {
        Err(FrontError::Lex(e)) => {
            assert_eq!(e.kind, LexErrorKind::UnexpectedChar('$'));
            assert_eq!(e.line, 1);
        },
        _ => panic!("expected a lexical error"),
    }
}

#[test]
fn source_with_syntax_error() {
    match parse_source("\ndecl = 1;") {
        Err(FrontError::Parse(e)) => {
            assert_eq!(e.kind, ParseErrorKind::Unexpected);
            assert_eq!(e.token.t_type.kind(), Kind::Eq);
            assert_eq!(e.token.line, 2);
        },
        _ => panic!("expected a syntax error"),
    }
}
