//! The syntax tree: a program is an ordered sequence of statement nodes.
//!
//! Two statement variants carry real structure: a binding statement and a
//! return statement. Expression parsing is not implemented, so both carry a
//! placeholder expression, a dedicated variant whose only behaviour is to
//! echo back the literal it was constructed with; it must never be mistaken
//! for a parsed expression.
use crate::token::{Token, TokenType, TokenView};
use vstd::prelude::*;

verus! {

/// A node of the syntax tree hands out the literal of the token it was
/// derived from.
pub trait Node {
    /// The literal this node answers with.
    spec fn spec_token_literal(&self) -> Seq<u8>;

    /// The exact source bytes of the token this node was derived from.
    fn token_literal(&self) -> (r: Vec<u8>)
        ensures
            r@ == self.spec_token_literal(),
    ;
}

/// The mathematical value of an expression node.
pub enum ExpressionView {
    Placeholder { literal: Seq<u8> },
}

/// An expression node. Expression parsing is out of scope, so the only
/// variant is a placeholder that echoes back the literal it was built with.
#[derive(Debug)]
pub enum Expression {
    Placeholder { literal: Vec<u8> },
}

impl View for Expression {
    type V = ExpressionView;

    open spec fn view(&self) -> ExpressionView {
        match self {
            Expression::Placeholder { literal } => ExpressionView::Placeholder {
                literal: literal@,
            },
        }
    }
}

impl Expression {
    /// A placeholder with an empty literal.
    pub fn empty_placeholder() -> (e: Expression)
        ensures
            e@ == (ExpressionView::Placeholder { literal: Seq::<u8>::empty() }),
    {
        Expression::Placeholder { literal: Vec::new() }
    }

    /// Echo back the literal this placeholder was constructed with.
    pub fn expression_node(&self) -> (r: Vec<u8>)
        ensures
            self@ == (ExpressionView::Placeholder { literal: r@ }),
    {
        match self {
            Expression::Placeholder { literal } => copy_bytes(literal),
        }
    }
}

impl Node for Expression {
    open spec fn spec_token_literal(&self) -> Seq<u8> {
        match self@ {
            ExpressionView::Placeholder { literal } => literal,
        }
    }

    fn token_literal(&self) -> (r: Vec<u8>) {
        match self {
            Expression::Placeholder { literal } => copy_bytes(literal),
        }
    }
}

/// The mathematical value of an identifier node.
pub struct IdentifierView {
    pub token: TokenView,
    pub value: Seq<u8>,
}

/// An identifier node: its token and its semantic value, the name itself.
#[derive(Debug)]
pub struct Identifier {
    pub token: Token,
    pub value: Vec<u8>,
}

impl View for Identifier {
    type V = IdentifierView;

    open spec fn view(&self) -> IdentifierView {
        IdentifierView { token: self.token@, value: self.value@ }
    }
}

impl Node for Identifier {
    open spec fn spec_token_literal(&self) -> Seq<u8> {
        self.token@.literal
    }

    fn token_literal(&self) -> (r: Vec<u8>) {
        copy_bytes(&self.token.literal)
    }
}

/// The mathematical value of a binding statement.
pub struct LetStatementView {
    pub token: TokenView,
    pub name: IdentifierView,
    pub value: ExpressionView,
}

/// A binding statement: the introducing keyword's token, the bound name,
/// and a placeholder for the not-yet-parsed right-hand side.
#[derive(Debug)]
pub struct LetStatement {
    pub token: Token,
    pub name: Identifier,
    pub value: Expression,
}

impl View for LetStatement {
    type V = LetStatementView;

    open spec fn view(&self) -> LetStatementView {
        LetStatementView { token: self.token@, name: self.name@, value: self.value@ }
    }
}

impl LetStatement {
    /// A binding statement introduced by `token`, with the name still blank:
    /// an identifier holding the end-marker token and an empty value.
    pub fn new(token: Token) -> (s: LetStatement)
        ensures
            s@.token == token@,
            s@.name.token.t_type == TokenType::EOF,
            s@.name.token.literal == Seq::<u8>::empty(),
            s@.name.value == Seq::<u8>::empty(),
            s@.value == (ExpressionView::Placeholder { literal: Seq::<u8>::empty() }),
    {
        let ident = Identifier { token: Token::new(TokenType::EOF, Vec::new()), value: Vec::new() };
        LetStatement { token, name: ident, value: Expression::empty_placeholder() }
    }
}

impl Node for LetStatement {
    open spec fn spec_token_literal(&self) -> Seq<u8> {
        self.token@.literal
    }

    fn token_literal(&self) -> (r: Vec<u8>) {
        copy_bytes(&self.token.literal)
    }
}

/// The mathematical value of a return statement.
pub struct ReturnStatementView {
    pub token: TokenView,
    pub return_value: ExpressionView,
}

/// A return statement: the introducing keyword's token and a placeholder
/// for the not-yet-parsed returned expression.
#[derive(Debug)]
pub struct ReturnStatement {
    pub token: Token,
    pub return_value: Expression,
}

impl View for ReturnStatement {
    type V = ReturnStatementView;

    open spec fn view(&self) -> ReturnStatementView {
        ReturnStatementView { token: self.token@, return_value: self.return_value@ }
    }
}

impl ReturnStatement {
    /// A return statement introduced by `token`, its returned value still a
    /// blank placeholder.
    pub fn new(token: Token) -> (s: ReturnStatement)
        ensures
            s@.token == token@,
            s@.return_value == (ExpressionView::Placeholder { literal: Seq::<u8>::empty() }),
    {
        ReturnStatement { token, return_value: Expression::empty_placeholder() }
    }
}

impl Node for ReturnStatement {
    open spec fn spec_token_literal(&self) -> Seq<u8> {
        self.token@.literal
    }

    fn token_literal(&self) -> (r: Vec<u8>) {
        copy_bytes(&self.token.literal)
    }
}

/// The mathematical value of a statement node.
pub enum StatementView {
    Let(LetStatementView),
    Ident(IdentifierView),
    Return(ReturnStatementView),
}

/// A top-level statement node.
#[derive(Debug)]
pub enum Statement {
    Let(LetStatement),
    Ident(Identifier),
    Return(ReturnStatement),
}

impl View for Statement {
    type V = StatementView;

    open spec fn view(&self) -> StatementView {
        match self {
            Statement::Let(s) => StatementView::Let(s@),
            Statement::Ident(s) => StatementView::Ident(s@),
            Statement::Return(s) => StatementView::Return(s@),
        }
    }
}

/// A program: the ordered sequence of its statement nodes, in source order.
#[derive(Debug)]
pub struct Program {
    pub statements: Vec<Statement>,
}

impl View for Program {
    type V = Seq<StatementView>;

    open spec fn view(&self) -> Seq<StatementView> {
        self.statements@.map_values(|s: Statement| s@)
    }
}

impl Program {
    /// A program with no statements yet.
    pub fn new() -> (p: Program)
        ensures
            p@ == Seq::<StatementView>::empty(),
    {
        let p = Program { statements: Vec::new() };
        proof {
            assert(p@ =~= Seq::<StatementView>::empty());
        }
        p
    }
}

impl Node for Program {
    open spec fn spec_token_literal(&self) -> Seq<u8> {
        Seq::empty()
    }

    /// The program node answers with the empty literal.
    fn token_literal(&self) -> (r: Vec<u8>) {
        Vec::new()
    }
}

/// Copy a byte vector.
fn copy_bytes(v: &Vec<u8>) -> (r: Vec<u8>)
    ensures
        r@ == v@,
{
    let mut r: Vec<u8> = Vec::new();
    let mut i: usize = 0;
    while i < v.len()
        invariant
            i <= v@.len(),
            r@ == v@.subrange(0, i as int),
        decreases v@.len() - i,
    {
        r.push(v[i]);
        i = i + 1;
        proof {
            assert(r@ =~= v@.subrange(0, i as int));
        }
    }
    proof {
        assert(r@ =~= v@);
    }
    r
}

} // verus!
