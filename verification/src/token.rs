//! Tokens: the atomic classified units produced by lexical scanning.
//!
//! A token pairs a *kind* (a closed enumeration) with a *literal*, the exact
//! source bytes it was derived from. Keyword recognition is table-driven:
//! an identifier's bytes are looked up in a fixed mapping of reserved words,
//! and unmatched identifiers default to the generic identifier kind.
use vstd::prelude::*;

verus! {

/// The closed enumeration of token kinds.
#[allow(non_camel_case_types)]
#[derive(Clone, Copy, Debug, PartialEq, Eq, Structural)]
pub enum TokenType {
    ILLEGAL,
    EOF,
    IDENT,
    INT,
    ASSIGN,
    PLUS,
    MINUS,
    BANG,
    SLASH,
    ASTERISK,
    LT,
    GT,
    COMMA,
    SEMICOLON,
    RPAREN,
    LPAREN,
    RBRACE,
    LBRACE,
    FUNCTION,
    LET,
    TRUE,
    FALSE,
    IF,
    ELSE,
    RETURN,
    EQ,
    NOT_EQ,
}

/// The kind that the fixed keyword table assigns to an identifier literal:
/// one of the seven reserved words maps to its keyword kind, and every other
/// literal stays a generic identifier.
pub open spec fn spec_lookup_ident(lit: Seq<u8>) -> TokenType {
    if lit.len() == 2 && lit[0] == 'f' as u8 && lit[1] == 'n' as u8 {
        TokenType::FUNCTION
    } else if lit.len() == 3 && lit[0] == 'l' as u8 && lit[1] == 'e' as u8 && lit[2] == 't' as u8 {
        TokenType::LET
    } else if lit.len() == 4 && lit[0] == 't' as u8 && lit[1] == 'r' as u8 && lit[2] == 'u' as u8 && lit[3]
        == 'e' as u8 {
        TokenType::TRUE
    } else if lit.len() == 5 && lit[0] == 'f' as u8 && lit[1] == 'a' as u8 && lit[2] == 'l' as u8 && lit[3] == 's' as u8
        && lit[4] == 'e' as u8 {
        TokenType::FALSE
    } else if lit.len() == 2 && lit[0] == 'i' as u8 && lit[1] == 'f' as u8 {
        TokenType::IF
    } else if lit.len() == 4 && lit[0] == 'e' as u8 && lit[1] == 'l' as u8 && lit[2] == 's' as u8 && lit[3]
        == 'e' as u8 {
        TokenType::ELSE
    } else if lit.len() == 6 && lit[0] == 'r' as u8 && lit[1] == 'e' as u8 && lit[2] == 't' as u8 && lit[3] == 'u' as u8
        && lit[4] == 'r' as u8 && lit[5] == 'n' as u8 {
        TokenType::RETURN
    } else {
        TokenType::IDENT
    }
}

/// Classify an identifier literal through the keyword table.
pub fn lookup_ident(ident: &Vec<u8>) -> (t: TokenType)
    ensures
        t == spec_lookup_ident(ident@),
{
    if ident.len() == 2 && ident[0] == 'f' as u8 && ident[1] == 'n' as u8 {
        TokenType::FUNCTION
    } else if ident.len() == 3 && ident[0] == 'l' as u8 && ident[1] == 'e' as u8 && ident[2] == 't' as u8 {
        TokenType::LET
    } else if ident.len() == 4 && ident[0] == 't' as u8 && ident[1] == 'r' as u8 && ident[2] == 'u' as u8
        && ident[3] == 'e' as u8 {
        TokenType::TRUE
    } else if ident.len() == 5 && ident[0] == 'f' as u8 && ident[1] == 'a' as u8 && ident[2] == 'l' as u8
        && ident[3] == 's' as u8 && ident[4] == 'e' as u8 {
        TokenType::FALSE
    } else if ident.len() == 2 && ident[0] == 'i' as u8 && ident[1] == 'f' as u8 {
        TokenType::IF
    } else if ident.len() == 4 && ident[0] == 'e' as u8 && ident[1] == 'l' as u8 && ident[2] == 's' as u8
        && ident[3] == 'e' as u8 {
        TokenType::ELSE
    } else if ident.len() == 6 && ident[0] == 'r' as u8 && ident[1] == 'e' as u8 && ident[2] == 't' as u8
        && ident[3] == 'u' as u8 && ident[4] == 'r' as u8 && ident[5] == 'n' as u8 {
        TokenType::RETURN
    } else {
        TokenType::IDENT
    }
}

/// The mathematical value of a token: its kind and the bytes of its literal.
pub struct TokenView {
    pub t_type: TokenType,
    pub literal: Seq<u8>,
}

/// A classified lexical unit: a kind and the exact source bytes backing it.
/// Tokens are produced once by the tokenizer and never mutated.
#[derive(Debug)]
pub struct Token {
    pub t_type: TokenType,
    pub literal: Vec<u8>,
}

impl View for Token {
    type V = TokenView;

    open spec fn view(&self) -> TokenView {
        TokenView { t_type: self.t_type, literal: self.literal@ }
    }
}

impl Token {
    /// Build a token from a kind and its literal bytes.
    pub fn new(t_type: TokenType, literal: Vec<u8>) -> (t: Token)
        ensures
            t.t_type == t_type,
            t.literal@ == literal@,
    {
        Token { t_type, literal }
    }

    /// A fresh token with the same kind and the same literal bytes.
    pub fn duplicate(&self) -> (t: Token)
        ensures
            t@ == self@,
    {
        let mut literal: Vec<u8> = Vec::new();
        let mut i: usize = 0;
        while i < self.literal.len()
            invariant
                i <= self.literal.len(),
                literal@ == self.literal@.subrange(0, i as int),
            decreases self.literal.len() - i,
        {
            literal.push(self.literal[i]);
            i = i + 1;
            proof {
                assert(literal@ =~= self.literal@.subrange(0, i as int));
            }
        }
        proof {
            assert(literal@ =~= self.literal@);
        }
        Token { t_type: self.t_type, literal }
    }
}

impl Default for Token {
    /// The default token is the end-marker with an empty literal.
    fn default() -> (t: Token)
        ensures
            t.t_type == TokenType::EOF,
            t.literal@ == Seq::<u8>::empty(),
    {
        Token { t_type: TokenType::EOF, literal: Vec::new() }
    }
}

impl TokenType {
    /// The printable name of a token kind.
    pub fn name(&self) -> (r: &'static str)
        ensures
            r@ == self.spec_name(),
    {
        match self {
            TokenType::ILLEGAL => "ILLEGAL",
            TokenType::EOF => "EOF",
            TokenType::IDENT => "IDENT",
            TokenType::INT => "INT",
            TokenType::ASSIGN => "ASSIGN",
            TokenType::PLUS => "PLUS",
            TokenType::MINUS => "MINUS",
            TokenType::BANG => "BANG",
            TokenType::SLASH => "SLASH",
            TokenType::ASTERISK => "ASTERISK",
            TokenType::LT => "LT",
            TokenType::GT => "GT",
            TokenType::COMMA => "COMMA",
            TokenType::SEMICOLON => "SEMICOLON",
            TokenType::RPAREN => "RPAREN",
            TokenType::LPAREN => "LPAREN",
            TokenType::RBRACE => "RBRACE",
            TokenType::LBRACE => "LBRACE",
            TokenType::FUNCTION => "FUNCTION",
            TokenType::LET => "LET",
            TokenType::TRUE => "TRUE",
            TokenType::FALSE => "FALSE",
            TokenType::IF => "IF",
            TokenType::ELSE => "ELSE",
            TokenType::RETURN => "RETURN",
            TokenType::EQ => "EQ",
            TokenType::NOT_EQ => "NOT_EQ",
        }
    }

    /// The characters of the printable name of a token kind.
    pub open spec fn spec_name(self) -> Seq<char> {
        match self {
            TokenType::ILLEGAL => "ILLEGAL"@,
            TokenType::EOF => "EOF"@,
            TokenType::IDENT => "IDENT"@,
            TokenType::INT => "INT"@,
            TokenType::ASSIGN => "ASSIGN"@,
            TokenType::PLUS => "PLUS"@,
            TokenType::MINUS => "MINUS"@,
            TokenType::BANG => "BANG"@,
            TokenType::SLASH => "SLASH"@,
            TokenType::ASTERISK => "ASTERISK"@,
            TokenType::LT => "LT"@,
            TokenType::GT => "GT"@,
            TokenType::COMMA => "COMMA"@,
            TokenType::SEMICOLON => "SEMICOLON"@,
            TokenType::RPAREN => "RPAREN"@,
            TokenType::LPAREN => "LPAREN"@,
            TokenType::RBRACE => "RBRACE"@,
            TokenType::LBRACE => "LBRACE"@,
            TokenType::FUNCTION => "FUNCTION"@,
            TokenType::LET => "LET"@,
            TokenType::TRUE => "TRUE"@,
            TokenType::FALSE => "FALSE"@,
            TokenType::IF => "IF"@,
            TokenType::ELSE => "ELSE"@,
            TokenType::RETURN => "RETURN"@,
            TokenType::EQ => "EQ"@,
            TokenType::NOT_EQ => "NOT_EQ"@,
        }
    }
}

} // verus!
