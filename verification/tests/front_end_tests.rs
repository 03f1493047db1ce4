use monkey::ast::{Node, Statement};
use monkey::lexer::Lexer;
use monkey::parser::{Parser, ParserError};
use monkey::token::{lookup_ident, Token, TokenType};

fn tokenize(input: &str) -> Vec<Token> {
    let mut l = Lexer::new(input.to_string().into_bytes());
    let mut toks = Vec::new();
    loop {
        let tok = l.next_token();
        let done = tok.t_type == TokenType::EOF;
        toks.push(tok);
        if done {
            return toks;
        }
    }
}

fn parse(input: &str) -> (monkey::ast::Program, Vec<ParserError>) {
    let l = Lexer::new(input.to_string().into_bytes());
    let mut p = Parser::new(l);
    let program = p.parse_program().expect("parse_program returned Err");
    (program, p.errors)
}

#[test]
fn let_binding_tokenizes_exactly() {
    let toks = tokenize("let x = 5;");
    let expected: Vec<(TokenType, &str)> = vec![
        (TokenType::LET, "let"),
        (TokenType::IDENT, "x"),
        (TokenType::ASSIGN, "="),
        (TokenType::INT, "5"),
        (TokenType::SEMICOLON, ";"),
        (TokenType::EOF, ""),
    ];
    assert_eq!(toks.len(), expected.len());
    for (tok, (kind, literal)) in toks.iter().zip(expected.iter()) {
        assert!(tok.t_type == *kind);
        assert_eq!(tok.literal.as_slice(), literal.as_bytes());
    }
}

#[test]
fn two_character_operators_are_one_token() {
    let eq_toks = tokenize("10 == 10;");
    assert!(eq_toks[1].t_type == TokenType::EQ);
    assert_eq!(eq_toks[1].literal.as_slice(), b"==");
    assert_eq!(eq_toks.len(), 5);

    let neq_toks = tokenize("10 != 9;");
    assert!(neq_toks[1].t_type == TokenType::NOT_EQ);
    assert_eq!(neq_toks[1].literal.as_slice(), b"!=");
    assert_eq!(neq_toks.len(), 5);
}

#[test]
fn end_marker_is_idempotent() {
    let mut l = Lexer::new(b"x".to_vec());
    let first = l.next_token();
    assert!(first.t_type == TokenType::IDENT);
    for _ in 0..4 {
        let tok = l.next_token();
        assert!(tok.t_type == TokenType::EOF);
        assert!(tok.literal.is_empty());
    }
}

#[test]
fn end_marker_on_whitespace_only_input() {
    let mut l = Lexer::new(b" \t\r\n ".to_vec());
    for _ in 0..3 {
        let tok = l.next_token();
        assert!(tok.t_type == TokenType::EOF);
        assert!(tok.literal.is_empty());
    }
}

#[test]
fn round_trip_drops_only_whitespace() {
    let input = "let add = fn(x, y) {\n\tx + y;\n};";
    let mut concatenated: Vec<u8> = Vec::new();
    for tok in tokenize(input) {
        concatenated.extend_from_slice(&tok.literal);
    }
    let significant: Vec<u8> = input
        .bytes()
        .filter(|c| !matches!(c, b' ' | b'\t' | b'\n' | b'\r'))
        .collect();
    assert_eq!(concatenated, significant);
}

#[test]
fn unrecognized_bytes_become_illegal_tokens() {
    let toks = tokenize("@");
    assert!(toks[0].t_type == TokenType::ILLEGAL);
    assert_eq!(toks[0].literal.as_slice(), b"@");
    assert_eq!(toks.len(), 2);

    let mut l = Lexer::new(vec![0xFFu8, b';']);
    let first = l.next_token();
    assert!(first.t_type == TokenType::ILLEGAL);
    assert_eq!(first.literal.as_slice(), &[0xFFu8]);
    let second = l.next_token();
    assert!(second.t_type == TokenType::SEMICOLON);

    // A zero byte inside the input is not the end of it.
    let mut l = Lexer::new(vec![0u8, b'+']);
    let first = l.next_token();
    assert!(first.t_type == TokenType::ILLEGAL);
    assert_eq!(first.literal.as_slice(), &[0u8]);
    let second = l.next_token();
    assert!(second.t_type == TokenType::PLUS);
}

#[test]
fn keyword_table_classifies_reserved_words() {
    let cases: Vec<(&str, TokenType)> = vec![
        ("fn", TokenType::FUNCTION),
        ("let", TokenType::LET),
        ("true", TokenType::TRUE),
        ("false", TokenType::FALSE),
        ("if", TokenType::IF),
        ("else", TokenType::ELSE),
        ("return", TokenType::RETURN),
        ("lets", TokenType::IDENT),
        ("Fn", TokenType::IDENT),
        ("_foo", TokenType::IDENT),
        ("", TokenType::IDENT),
    ];
    for (word, kind) in cases {
        assert!(
            lookup_ident(&word.as_bytes().to_vec()) == kind,
            "wrong classification for {}",
            word
        );
    }
}

#[test]
fn identifiers_take_the_maximal_run() {
    let toks = tokenize("foo_bar baz");
    assert!(toks[0].t_type == TokenType::IDENT);
    assert_eq!(toks[0].literal.as_slice(), b"foo_bar");
    assert!(toks[1].t_type == TokenType::IDENT);
    assert_eq!(toks[1].literal.as_slice(), b"baz");
}

#[test]
fn integers_take_the_maximal_run() {
    let toks = tokenize("838383 5");
    assert!(toks[0].t_type == TokenType::INT);
    assert_eq!(toks[0].literal.as_slice(), b"838383");
    assert!(toks[1].t_type == TokenType::INT);
    assert_eq!(toks[1].literal.as_slice(), b"5");
}

#[test]
fn default_token_is_the_end_marker() {
    let tok = Token::default();
    assert!(tok.t_type == TokenType::EOF);
    assert!(tok.literal.is_empty());
}

#[test]
fn duplicate_keeps_kind_and_literal() {
    let tok = Token::new(TokenType::IDENT, b"five".to_vec());
    let copy = tok.duplicate();
    assert!(copy.t_type == tok.t_type);
    assert_eq!(copy.literal, tok.literal);
}

#[test]
fn token_type_names() {
    assert_eq!(TokenType::ILLEGAL.name(), "ILLEGAL");
    assert_eq!(TokenType::EOF.name(), "EOF");
    assert_eq!(TokenType::IDENT.name(), "IDENT");
    assert_eq!(TokenType::ASSIGN.name(), "ASSIGN");
    assert_eq!(TokenType::EQ.name(), "EQ");
    assert_eq!(TokenType::NOT_EQ.name(), "NOT_EQ");
}

#[test]
fn three_bindings_in_source_order() {
    let (program, errors) = parse("let x = 5; let y = 10; let foobar = 838383;");
    assert!(errors.is_empty(), "unexpected errors: {:?}", errors);
    assert_eq!(program.statements.len(), 3);
    let names: Vec<&str> = vec!["x", "y", "foobar"];
    for (stmt, name) in program.statements.iter().zip(names.iter()) {
        match stmt {
            Statement::Let(ls) => {
                assert_eq!(ls.token_literal().as_slice(), b"let");
                assert_eq!(ls.name.value.as_slice(), name.as_bytes());
                assert_eq!(ls.name.token_literal().as_slice(), name.as_bytes());
            }
            _ => panic!("expected a binding statement, got {:?}", stmt),
        }
    }
}

#[test]
fn three_returns_in_order() {
    let (program, errors) = parse("return 5; return 10; return 993322;");
    assert!(errors.is_empty(), "unexpected errors: {:?}", errors);
    assert_eq!(program.statements.len(), 3);
    for stmt in program.statements.iter() {
        match stmt {
            Statement::Return(ret) => {
                assert_eq!(ret.token_literal().as_slice(), b"return");
                assert!(ret.return_value.expression_node().is_empty());
            }
            _ => panic!("expected a return statement, got {:?}", stmt),
        }
    }
}

#[test]
fn missing_identifier_reports_one_error() {
    let (program, errors) = parse("let = 5;");
    assert_eq!(program.statements.len(), 0);
    assert_eq!(errors.len(), 1);
    assert!(
        errors[0]
            == ParserError::ExpectedToken {
                expected: TokenType::IDENT,
                got: TokenType::ASSIGN,
            }
    );
}

#[test]
fn missing_assignment_reports_one_error() {
    let (program, errors) = parse("let x 5;");
    assert_eq!(program.statements.len(), 0);
    assert_eq!(errors.len(), 1);
    assert!(
        errors[0]
            == ParserError::ExpectedToken {
                expected: TokenType::ASSIGN,
                got: TokenType::INT,
            }
    );
}

#[test]
fn unrecognized_statement_is_dropped_without_error() {
    let (program, errors) = parse("5;");
    assert_eq!(program.statements.len(), 0);
    assert!(errors.is_empty());
}

#[test]
fn failed_statement_does_not_stop_the_parse() {
    let (program, errors) = parse("let x 5; return 7;");
    assert_eq!(program.statements.len(), 1);
    assert!(matches!(program.statements[0], Statement::Return(_)));
    assert_eq!(errors.len(), 1);
    assert!(
        errors[0]
            == ParserError::ExpectedToken {
                expected: TokenType::ASSIGN,
                got: TokenType::INT,
            }
    );
}

#[test]
fn empty_input_parses_to_the_empty_program() {
    let (program, errors) = parse("");
    assert_eq!(program.statements.len(), 0);
    assert!(errors.is_empty());
    assert!(program.token_literal().is_empty());
}

#[test]
fn binding_without_terminator_stops_at_the_end_marker() {
    let (program, errors) = parse("let x = 5");
    assert_eq!(program.statements.len(), 1);
    assert!(errors.is_empty());
    match &program.statements[0] {
        Statement::Let(ls) => {
            assert_eq!(ls.name.value.as_slice(), b"x");
            assert!(ls.value.expression_node().is_empty());
        }
        _ => panic!("expected a binding statement"),
    }
}

#[test]
fn placeholder_expression_echoes_its_literal() {
    let e = monkey::ast::Expression::Placeholder {
        literal: b"5".to_vec(),
    };
    assert_eq!(e.expression_node().as_slice(), b"5");
    assert_eq!(e.token_literal().as_slice(), b"5");
}

#[test]
fn fresh_statement_nodes_carry_blank_placeholders() {
    let ls = monkey::ast::LetStatement::new(Token::new(TokenType::LET, b"let".to_vec()));
    assert_eq!(ls.token_literal().as_slice(), b"let");
    assert!(ls.name.value.is_empty());
    assert!(ls.name.token.t_type == TokenType::EOF);
    assert!(ls.value.expression_node().is_empty());

    let rs = monkey::ast::ReturnStatement::new(Token::new(TokenType::RETURN, b"return".to_vec()));
    assert_eq!(rs.token_literal().as_slice(), b"return");
    assert!(rs.return_value.expression_node().is_empty());

    let program = monkey::ast::Program::new();
    assert!(program.statements.is_empty());
    assert!(program.token_literal().is_empty());
}

#[test]
fn lookahead_at_the_end_of_input() {
    let toks = tokenize("=");
    assert!(toks[0].t_type == TokenType::ASSIGN);
    assert_eq!(toks.len(), 2);

    let toks = tokenize("!");
    assert!(toks[0].t_type == TokenType::BANG);
    assert_eq!(toks.len(), 2);

    let toks = tokenize("=!");
    assert!(toks[0].t_type == TokenType::ASSIGN);
    assert!(toks[1].t_type == TokenType::BANG);
    assert_eq!(toks.len(), 3);

    let toks = tokenize("==");
    assert!(toks[0].t_type == TokenType::EQ);
    assert_eq!(toks[0].literal.as_slice(), b"==");
    assert_eq!(toks.len(), 2);
}
