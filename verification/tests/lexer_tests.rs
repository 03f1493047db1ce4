use monkey::lexer::Lexer;
use monkey::token::TokenType;

struct ExpectedToken {
    expected_type: TokenType,
    expected_literal: String,
}

impl ExpectedToken {
    fn new<P: Into<String>>(expected_type: TokenType, expected_literal: P) -> Self {
        ExpectedToken {
            expected_type,
            expected_literal: expected_literal.into(),
        }
    }
}

#[test]
fn test_next_token() {
    let input = r#"let five = 5;
let ten = 10;

let add = fn(x, y) {
  x + y;
};

let result = add(five, ten);
!-/*5;
5 < 10 > 5;
if (5 < 10) {
    return true;
} else {
    return false;
}

10 == 10;
10 != 9;
"#;
    let tests = vec![
        ExpectedToken::new(TokenType::LET, "let"),
        ExpectedToken::new(TokenType::IDENT, "five"),
        ExpectedToken::new(TokenType::ASSIGN, "="),
        ExpectedToken::new(TokenType::INT, "5"),
        ExpectedToken::new(TokenType::SEMICOLON, ";"),
        ExpectedToken::new(TokenType::LET, "let"),
        ExpectedToken::new(TokenType::IDENT, "ten"),
        ExpectedToken::new(TokenType::ASSIGN, "="),
        ExpectedToken::new(TokenType::INT, "10"),
        ExpectedToken::new(TokenType::SEMICOLON, ";"),
        ExpectedToken::new(TokenType::LET, "let"),
        ExpectedToken::new(TokenType::IDENT, "add"),
        ExpectedToken::new(TokenType::ASSIGN, "="),
        ExpectedToken::new(TokenType::FUNCTION, "fn"),
        ExpectedToken::new(TokenType::LPAREN, "("),
        ExpectedToken::new(TokenType::IDENT, "x"),
        ExpectedToken::new(TokenType::COMMA, ","),
        ExpectedToken::new(TokenType::IDENT, "y"),
        ExpectedToken::new(TokenType::RPAREN, ")"),
        ExpectedToken::new(TokenType::LBRACE, "{"),
        ExpectedToken::new(TokenType::IDENT, "x"),
        ExpectedToken::new(TokenType::PLUS, "+"),
        ExpectedToken::new(TokenType::IDENT, "y"),
        ExpectedToken::new(TokenType::SEMICOLON, ";"),
        ExpectedToken::new(TokenType::RBRACE, "}"),
        ExpectedToken::new(TokenType::SEMICOLON, ";"),
        ExpectedToken::new(TokenType::LET, "let"),
        ExpectedToken::new(TokenType::IDENT, "result"),
        ExpectedToken::new(TokenType::ASSIGN, "="),
        ExpectedToken::new(TokenType::IDENT, "add"),
        ExpectedToken::new(TokenType::LPAREN, "("),
        ExpectedToken::new(TokenType::IDENT, "five"),
        ExpectedToken::new(TokenType::COMMA, ","),
        ExpectedToken::new(TokenType::IDENT, "ten"),
        ExpectedToken::new(TokenType::RPAREN, ")"),
        ExpectedToken::new(TokenType::SEMICOLON, ";"),
        ExpectedToken::new(TokenType::BANG, "!"),
        ExpectedToken::new(TokenType::MINUS, "-"),
        ExpectedToken::new(TokenType::SLASH, "/"),
        ExpectedToken::new(TokenType::ASTERISK, "*"),
        ExpectedToken::new(TokenType::INT, "5"),
        ExpectedToken::new(TokenType::SEMICOLON, ";"),
        ExpectedToken::new(TokenType::INT, "5"),
        ExpectedToken::new(TokenType::LT, "<"),
        ExpectedToken::new(TokenType::INT, "10"),
        ExpectedToken::new(TokenType::GT, ">"),
        ExpectedToken::new(TokenType::INT, "5"),
        ExpectedToken::new(TokenType::SEMICOLON, ";"),
        ExpectedToken::new(TokenType::IF, "if"),
        ExpectedToken::new(TokenType::LPAREN, "("),
        ExpectedToken::new(TokenType::INT, "5"),
        ExpectedToken::new(TokenType::LT, "<"),
        ExpectedToken::new(TokenType::INT, "10"),
        ExpectedToken::new(TokenType::RPAREN, ")"),
        ExpectedToken::new(TokenType::LBRACE, "{"),
        ExpectedToken::new(TokenType::RETURN, "return"),
        ExpectedToken::new(TokenType::TRUE, "true"),
        ExpectedToken::new(TokenType::SEMICOLON, ";"),
        ExpectedToken::new(TokenType::RBRACE, "}"),
        ExpectedToken::new(TokenType::ELSE, "else"),
        ExpectedToken::new(TokenType::LBRACE, "{"),
        ExpectedToken::new(TokenType::RETURN, "return"),
        ExpectedToken::new(TokenType::FALSE, "false"),
        ExpectedToken::new(TokenType::SEMICOLON, ";"),
        ExpectedToken::new(TokenType::RBRACE, "}"),
        ExpectedToken::new(TokenType::INT, "10"),
        ExpectedToken::new(TokenType::EQ, "=="),
        ExpectedToken::new(TokenType::INT, "10"),
        ExpectedToken::new(TokenType::SEMICOLON, ";"),
        ExpectedToken::new(TokenType::INT, "10"),
        ExpectedToken::new(TokenType::NOT_EQ, "!="),
        ExpectedToken::new(TokenType::INT, "9"),
        ExpectedToken::new(TokenType::SEMICOLON, ";"),
        ExpectedToken::new(TokenType::EOF, ""),
    ];

    let mut l = Lexer::new(input.to_string().into_bytes());

    for (i, tt) in tests.iter().enumerate() {
        let tok = l.next_token();
        assert!(
            tok.t_type == tt.expected_type,
            "tests[{}] - tokentype wrong. expected={}, got {}",
            i,
            tt.expected_type.name(),
            tok.t_type.name(),
        );
        assert!(
            tok.literal.as_slice() == tt.expected_literal.as_bytes(),
            "tests[{}] - literal wrong. expected={}, got={}",
            i,
            tt.expected_literal,
            String::from_utf8_lossy(&tok.literal),
        )
    }
}
