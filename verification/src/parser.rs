//! The syntax builder: consumes the token stream two tokens at a time
//! (current + one token of lookahead) and assembles statement nodes into a
//! program, collecting structural errors rather than failing fast.
//!
//! The whole behaviour is captured by the specification functions
//! [`parse_program_at`] and [`parse_statement_at`], stated over the source
//! bytes and the cursor of the current token; [`Parser::parse_program`] is
//! proved to follow them exactly. A statement that fails to parse is dropped
//! from the tree, its error is recorded, and parsing resumes with the next
//! token; the parser never stops before the end-marker.
use crate::ast::{
    ExpressionView, Identifier, IdentifierView, LetStatement, LetStatementView,
    Program, ReturnStatement, ReturnStatementView, Statement, StatementView,
};
use crate::lexer::{lemma_next_token_at, next_token_at, Lexer};
use crate::token::{Token, TokenType, TokenView};
use vstd::prelude::*;

verus! {

/// A structural error collected during parsing.
#[derive(Clone, Copy, Debug, PartialEq, Eq, Structural)]
pub enum ParserError {
    /// The token after the current one was not of the expected kind:
    /// what was required, and what stood there instead.
    ExpectedToken { expected: TokenType, got: TokenType },
    /// No statement rule matches the leading token.
    Unimplemented,
}

/// The token scanned from cursor `p`.
pub open spec fn token_at(s: Seq<u8>, p: int) -> TokenView {
    next_token_at(s, p).0
}

/// The kind of the token scanned from cursor `p`.
pub open spec fn kind_at(s: Seq<u8>, p: int) -> TokenType {
    token_at(s, p).t_type
}

/// The cursor after the token scanned from cursor `p`.
pub open spec fn adv(s: Seq<u8>, p: int) -> int {
    next_token_at(s, p).1
}

/// A singleton sequence for `Some`, the empty sequence for `None`.
pub open spec fn opt_to_seq<T>(o: Option<T>) -> Seq<T> {
    match o {
        Some(x) => seq![x],
        None => Seq::empty(),
    }
}

/// The cursor of the first statement-terminator (or end-marker) token at or
/// after cursor `a`: where the unconditional token discarding of a statement
/// rule stops.
pub open spec fn skip_to_terminator(s: Seq<u8>, a: int) -> int
    decreases s.len() - a
        when 0 <= a <= s.len() via skip_to_terminator_decreases
{
    if kind_at(s, a) == TokenType::SEMICOLON || kind_at(s, a) == TokenType::EOF {
        a
    } else {
        skip_to_terminator(s, adv(s, a))
    }
}

#[via_fn]
proof fn skip_to_terminator_decreases(s: Seq<u8>, a: int) {
    lemma_next_token_at(s, a);
}

pub proof fn lemma_skip_to_terminator(s: Seq<u8>, a: int)
    requires
        0 <= a <= s.len(),
    ensures
        a <= skip_to_terminator(s, a) <= s.len(),
        kind_at(s, skip_to_terminator(s, a)) == TokenType::SEMICOLON || kind_at(
            s,
            skip_to_terminator(s, a),
        ) == TokenType::EOF,
    decreases s.len() - a,
{
    lemma_next_token_at(s, a);
    if !(kind_at(s, a) == TokenType::SEMICOLON || kind_at(s, a) == TokenType::EOF) {
        lemma_skip_to_terminator(s, adv(s, a));
    }
}

/// One attempted parse of a binding statement whose introducing keyword is
/// the token at cursor `a`: the node produced (if any), the error recorded
/// (if any), and the cursor of the current token when the attempt is over.
/// The name must be the very next token and the assignment operator the one
/// after it; the right-hand side is discarded up to the terminator and the
/// node carries a blank placeholder in its place.
pub open spec fn parse_let_statement_at(s: Seq<u8>, a: int) -> (Option<StatementView>, Option<
    ParserError,
>, int) {
    let b = adv(s, a);
    if kind_at(s, b) != TokenType::IDENT {
        (
            None,
            Some(ParserError::ExpectedToken { expected: TokenType::IDENT, got: kind_at(s, b) }),
            a,
        )
    } else {
        let c = adv(s, b);
        if kind_at(s, c) != TokenType::ASSIGN {
            (
                None,
                Some(ParserError::ExpectedToken { expected: TokenType::ASSIGN, got: kind_at(s, c) }),
                b,
            )
        } else {
            (
                Some(
                    StatementView::Let(
                        LetStatementView {
                            token: token_at(s, a),
                            name: IdentifierView {
                                token: token_at(s, b),
                                value: token_at(s, b).literal,
                            },
                            value: ExpressionView::Placeholder { literal: Seq::empty() },
                        },
                    ),
                ),
                None,
                skip_to_terminator(s, c),
            )
        }
    }
}

/// One attempted parse of a return statement whose introducing keyword is
/// the token at cursor `a`. The returned expression is discarded up to the
/// terminator and the node carries a blank placeholder in its place.
pub open spec fn parse_return_statement_at(s: Seq<u8>, a: int) -> (Option<StatementView>, Option<
    ParserError,
>, int) {
    let b = adv(s, a);
    (
        Some(
            StatementView::Return(
                ReturnStatementView {
                    token: token_at(s, a),
                    return_value: ExpressionView::Placeholder { literal: Seq::empty() },
                },
            ),
        ),
        None,
        skip_to_terminator(s, b),
    )
}

/// One attempted statement parse, dispatched on the kind of the token at
/// cursor `a`. A leading token no rule matches produces no node and records
/// no error; the statement is simply dropped.
pub open spec fn parse_statement_at(s: Seq<u8>, a: int) -> (Option<StatementView>, Option<
    ParserError,
>, int) {
    if kind_at(s, a) == TokenType::LET {
        parse_let_statement_at(s, a)
    } else if kind_at(s, a) == TokenType::RETURN {
        parse_return_statement_at(s, a)
    } else {
        (None, None, a)
    }
}

pub proof fn lemma_parse_statement_at(s: Seq<u8>, a: int)
    requires
        0 <= a <= s.len(),
    ensures
        a <= parse_statement_at(s, a).2 <= s.len(),
{
    lemma_next_token_at(s, a);
    let b = adv(s, a);
    lemma_next_token_at(s, b);
    let c = adv(s, b);
    lemma_next_token_at(s, c);
    lemma_skip_to_terminator(s, b);
    lemma_skip_to_terminator(s, c);
}

/// The termination measure of the parsing loop: each statement attempt ends
/// at or after the cursor it began at, and the one token the loop then
/// advances by moves the cursor strictly forward unless the current token is
/// already the end-marker.
pub open spec fn parse_measure(s: Seq<u8>, a: int) -> int {
    2 * (s.len() - a) + if kind_at(s, a) == TokenType::EOF {
        0int
    } else {
        1int
    }
}

/// The statements and the errors that parsing collects between the token at
/// cursor `a` and the end-marker, in source order.
pub open spec fn parse_program_at(s: Seq<u8>, a: int) -> (Seq<StatementView>, Seq<ParserError>)
    decreases parse_measure(s, a)
        when 0 <= a <= s.len() via parse_program_at_decreases
{
    if kind_at(s, a) == TokenType::EOF {
        (Seq::empty(), Seq::empty())
    } else {
        let (stmt, err, a2) = parse_statement_at(s, a);
        let (stmts, errs) = parse_program_at(s, adv(s, a2));
        (opt_to_seq(stmt) + stmts, opt_to_seq(err) + errs)
    }
}

#[via_fn]
proof fn parse_program_at_decreases(s: Seq<u8>, a: int) {
    lemma_next_token_at(s, a);
    lemma_parse_statement_at(s, a);
    let a2 = parse_statement_at(s, a).2;
    lemma_next_token_at(s, a2);
}

/// The syntax builder. It exclusively owns the tokenizer it draws from, a
/// two-token sliding window (current + lookahead), and the ordered list of
/// structural errors collected so far.
pub struct Parser {
    lexer: Lexer,
    /// The structural errors collected so far, in the order they were found.
    pub errors: Vec<ParserError>,
    cur_token: Token,
    peek_token: Token,
    cur_pos: Ghost<int>,
}

impl Parser {
    /// The source bytes of the owned tokenizer.
    pub closed spec fn src(self) -> Seq<u8> {
        self.lexer.src()
    }

    /// The cursor of the current token.
    pub closed spec fn cur(self) -> int {
        self.cur_pos@
    }

    /// The errors collected so far, in the order they were found.
    pub closed spec fn spec_errors(self) -> Seq<ParserError> {
        self.errors@
    }

    /// The current token and the lookahead token are the two tokens scanned
    /// from the current cursor, and the tokenizer stands right after them.
    pub closed spec fn wf(self) -> bool {
        &&& self.lexer.wf()
        &&& 0 <= self.cur_pos@ <= self.lexer.src().len()
        &&& self.cur_token@ == token_at(self.lexer.src(), self.cur_pos@)
        &&& self.peek_token@ == token_at(self.lexer.src(), adv(self.lexer.src(), self.cur_pos@))
        &&& self.lexer.pos() == adv(self.lexer.src(), adv(self.lexer.src(), self.cur_pos@))
    }

    /// Take ownership of a tokenizer and prime the two-token window from it.
    pub fn new(lexer: Lexer) -> (p: Parser)
        requires
            lexer.wf(),
        ensures
            p.wf(),
            p.src() == lexer.src(),
            p.cur() == lexer.pos(),
            p.spec_errors() == Seq::<ParserError>::empty(),
    {
        let ghost a = lexer.pos();
        let mut lexer = lexer;
        proof {
            lexer.lemma_wf_bounds();
            lemma_next_token_at(lexer.src(), a);
        }
        let cur_token = lexer.next_token();
        let peek_token = lexer.next_token();
        Parser { lexer, errors: Vec::new(), cur_token, peek_token, cur_pos: Ghost(a) }
    }

    /// Slide the two-token window one token forward: the lookahead becomes
    /// current and a fresh token is drawn from the tokenizer.
    fn next_token(&mut self)
        requires
            old(self).wf(),
        ensures
            final(self).wf(),
            final(self).src() == old(self).src(),
            final(self).cur() == adv(old(self).src(), old(self).cur()),
            final(self).errors == old(self).errors,
    {
        proof {
            lemma_next_token_at(self.lexer.src(), self.cur_pos@);
            lemma_next_token_at(self.lexer.src(), adv(self.lexer.src(), self.cur_pos@));
        }
        let ghost b = adv(self.lexer.src(), self.cur_pos@);
        self.cur_token = self.peek_token.duplicate();
        self.peek_token = self.lexer.next_token();
        self.cur_pos = Ghost(b);
    }

    /// Whether the current token has the given kind.
    fn cur_token_is(&self, token_type: TokenType) -> (r: bool)
        requires
            self.wf(),
        ensures
            r == (kind_at(self.src(), self.cur()) == token_type),
    {
        self.cur_token.t_type == token_type
    }

    /// Whether the lookahead token has the given kind.
    fn peek_token_is(&self, token_type: TokenType) -> (r: bool)
        requires
            self.wf(),
        ensures
            r == (kind_at(self.src(), adv(self.src(), self.cur())) == token_type),
    {
        self.peek_token.t_type == token_type
    }

    /// If the lookahead token has the expected kind, advance onto it;
    /// otherwise record an expected-versus-actual error, stay in place, and
    /// hand the same error back.
    fn expect_peek(&mut self, token_type: TokenType) -> (r: Result<(), ParserError>)
        requires
            old(self).wf(),
        ensures
            final(self).wf(),
            final(self).src() == old(self).src(),
            ({
                let got = kind_at(old(self).src(), adv(old(self).src(), old(self).cur()));
                if got == token_type {
                    &&& r is Ok
                    &&& final(self).cur() == adv(old(self).src(), old(self).cur())
                    &&& final(self).errors@ == old(self).errors@
                } else {
                    &&& r == Err::<(), ParserError>(
                        ParserError::ExpectedToken { expected: token_type, got: got },
                    )
                    &&& final(self).cur() == old(self).cur()
                    &&& final(self).errors@ == old(self).errors@.push(
                        ParserError::ExpectedToken { expected: token_type, got: got },
                    )
                }
            }),
    {
        if self.peek_token_is(token_type) {
            self.next_token();
            Ok(())
        } else {
            let err = ParserError::ExpectedToken {
                expected: token_type,
                got: self.peek_token.t_type,
            };
            self.errors.push(err);
            Err(err)
        }
    }

    /// Parse one binding statement; see [`parse_let_statement_at`].
    fn parse_let_statement(&mut self) -> (r: Result<Statement, ParserError>)
        requires
            old(self).wf(),
            kind_at(old(self).src(), old(self).cur()) == TokenType::LET,
        ensures
            final(self).wf(),
            final(self).src() == old(self).src(),
            ({
                let (stmt, err, a2) = parse_let_statement_at(old(self).src(), old(self).cur());
                &&& final(self).cur() == a2
                &&& match r {
                    Ok(st) => stmt == Some(st@) && err is None,
                    Err(e) => stmt is None && err == Some(e),
                }
                &&& final(self).errors@ == old(self).errors@ + opt_to_seq(err)
            }),
    {
        let ghost s = self.lexer.src();
        let ghost a = self.cur_pos@;
        let ghost e0 = self.errors@;
        proof {
            lemma_next_token_at(s, a);
            lemma_next_token_at(s, adv(s, a));
        }
        let mut stmt = LetStatement::new(self.cur_token.duplicate());
        match self.expect_peek(TokenType::IDENT) {
            Err(e) => {
                proof {
                    assert(self.errors@ =~= e0 + opt_to_seq(
                        parse_let_statement_at(s, a).1,
                    ));
                }
                return Err(e);
            },
            Ok(()) => {},
        }
        let name_token = self.cur_token.duplicate();
        let name_value = self.cur_token.duplicate();
        stmt.name = Identifier { token: name_token, value: name_value.literal };
        match self.expect_peek(TokenType::ASSIGN) {
            Err(e) => {
                proof {
                    assert(self.errors@ =~= e0 + opt_to_seq(
                        parse_let_statement_at(s, a).1,
                    ));
                }
                return Err(e);
            },
            Ok(()) => {},
        }
        let ghost c = self.cur_pos@;
        while !(self.cur_token_is(TokenType::SEMICOLON) || self.cur_token_is(TokenType::EOF))
            invariant
                self.wf(),
                self.src() == s,
                self.errors@ == e0,
                0 <= c <= self.cur() <= s.len(),
                skip_to_terminator(s, self.cur()) == skip_to_terminator(s, c),
            decreases s.len() - self.cur(),
        {
            proof {
                lemma_next_token_at(s, self.cur_pos@);
            }
            let ghost before = self.cur_pos@;
            self.next_token();
            proof {
                assert(skip_to_terminator(s, before) == skip_to_terminator(s, self.cur_pos@));
            }
        }
        proof {
            assert(skip_to_terminator(s, self.cur_pos@) == self.cur_pos@);
            assert(self.errors@ =~= e0 + opt_to_seq(parse_let_statement_at(s, a).1));
        }
        Ok(Statement::Let(stmt))
    }

    /// Parse one return statement; see [`parse_return_statement_at`].
    fn parse_return_statement(&mut self) -> (r: Result<Statement, ParserError>)
        requires
            old(self).wf(),
            kind_at(old(self).src(), old(self).cur()) == TokenType::RETURN,
        ensures
            final(self).wf(),
            final(self).src() == old(self).src(),
            ({
                let (stmt, err, a2) = parse_return_statement_at(old(self).src(), old(self).cur());
                &&& final(self).cur() == a2
                &&& match r {
                    Ok(st) => stmt == Some(st@) && err is None,
                    Err(e) => false,
                }
                &&& final(self).errors@ == old(self).errors@ + opt_to_seq(err)
            }),
    {
        let ghost s = self.lexer.src();
        let ghost a = self.cur_pos@;
        let ghost e0 = self.errors@;
        proof {
            lemma_next_token_at(s, a);
        }
        let stmt = ReturnStatement::new(self.cur_token.duplicate());
        self.next_token();
        let ghost b = self.cur_pos@;
        while !(self.cur_token_is(TokenType::SEMICOLON) || self.cur_token_is(TokenType::EOF))
            invariant
                self.wf(),
                self.src() == s,
                self.errors@ == e0,
                0 <= b <= self.cur() <= s.len(),
                skip_to_terminator(s, self.cur()) == skip_to_terminator(s, b),
            decreases s.len() - self.cur(),
        {
            proof {
                lemma_next_token_at(s, self.cur_pos@);
            }
            let ghost before = self.cur_pos@;
            self.next_token();
            proof {
                assert(skip_to_terminator(s, before) == skip_to_terminator(s, self.cur_pos@));
            }
        }
        proof {
            assert(skip_to_terminator(s, self.cur_pos@) == self.cur_pos@);
            assert(self.errors@ =~= e0 + opt_to_seq(parse_return_statement_at(s, a).1));
        }
        Ok(Statement::Return(stmt))
    }

    /// Dispatch one statement attempt on the kind of the current token;
    /// see [`parse_statement_at`]. A leading token no rule matches hands
    /// back an error without recording it, and the statement is dropped.
    fn parse_statement(&mut self) -> (r: Result<Statement, ParserError>)
        requires
            old(self).wf(),
        ensures
            final(self).wf(),
            final(self).src() == old(self).src(),
            ({
                let (stmt, err, a2) = parse_statement_at(old(self).src(), old(self).cur());
                &&& final(self).cur() == a2
                &&& match r {
                    Ok(st) => stmt == Some(st@) && err is None,
                    Err(e) => stmt is None && (match err {
                        Some(recorded) => e == recorded,
                        None => e == ParserError::Unimplemented,
                    }),
                }
                &&& final(self).errors@ == old(self).errors@ + opt_to_seq(err)
            }),
    {
        let ghost e0 = self.errors@;
        match self.cur_token.t_type {
            TokenType::LET => self.parse_let_statement(),
            TokenType::RETURN => self.parse_return_statement(),
            _ => {
                proof {
                    assert(self.errors@ =~= e0 + opt_to_seq(
                        parse_statement_at(self.lexer.src(), self.cur_pos@).1,
                    ));
                }
                Err(ParserError::Unimplemented)
            },
        }
    }

    /// Build the program: repeatedly attempt a statement until the current
    /// token is the end-marker, appending each successfully parsed node and
    /// collecting the errors of the failed attempts. The tree and the error
    /// list are exactly those of [`parse_program_at`]; the result is always
    /// the (possibly partial) program, never an error.
    pub fn parse_program(&mut self) -> (r: Result<Program, ParserError>)
        requires
            old(self).wf(),
        ensures
            final(self).wf(),
            final(self).src() == old(self).src(),
            r is Ok,
            kind_at(final(self).src(), final(self).cur()) == TokenType::EOF,
            ({
                let (stmts, errs) = parse_program_at(old(self).src(), old(self).cur());
                &&& (r matches Ok(p) ==> p@ == stmts)
                &&& final(self).spec_errors() == old(self).spec_errors() + errs
            }),
    {
        let ghost s = self.lexer.src();
        let ghost a0 = self.cur_pos@;
        let ghost e0 = self.errors@;
        let mut program = Program::new();
        while !self.cur_token_is(TokenType::EOF)
            invariant
                self.wf(),
                self.src() == s,
                parse_program_at(s, a0).0 == program@ + parse_program_at(s, self.cur()).0,
                e0 + parse_program_at(s, a0).1 == self.errors@ + parse_program_at(s, self.cur()).1,
            decreases parse_measure(s, self.cur()),
        {
            let ghost a = self.cur_pos@;
            let ghost prog0 = program@;
            let ghost errs0 = self.errors@;
            proof {
                lemma_parse_statement_at(s, a);
            }
            let stmt = self.parse_statement();
            let ghost a2 = self.cur_pos@;
            if let Ok(state) = stmt {
                let ghost st_view = state@;
                program.statements.push(state);
                proof {
                    assert(program@ =~= prog0.push(st_view));
                    assert(prog0.push(st_view) =~= prog0 + opt_to_seq(
                        parse_statement_at(s, a).0,
                    ));
                }
            }
            proof {
                lemma_next_token_at(s, a2);
            }
            self.next_token();
            proof {
                let (stmt_v, err_v, _) = parse_statement_at(s, a);
                let (stmts_rest, errs_rest) = parse_program_at(s, self.cur_pos@);
                assert(parse_program_at(s, a).0 == opt_to_seq(stmt_v) + stmts_rest);
                assert(parse_program_at(s, a).1 == opt_to_seq(err_v) + errs_rest);
                assert(prog0 + (opt_to_seq(stmt_v) + stmts_rest) =~= (prog0 + opt_to_seq(stmt_v))
                    + stmts_rest);
                assert(program@ =~= prog0 + opt_to_seq(stmt_v));
                assert(errs0 + (opt_to_seq(err_v) + errs_rest) =~= (errs0 + opt_to_seq(err_v))
                    + errs_rest);
                assert(self.errors@ =~= errs0 + opt_to_seq(err_v));
            }
        }
        proof {
            assert(parse_program_at(s, self.cur_pos@).0 =~= Seq::<StatementView>::empty());
            assert(parse_program_at(s, self.cur_pos@).1 =~= Seq::<ParserError>::empty());
            assert(program@ + Seq::<StatementView>::empty() =~= program@);
            assert(self.errors@ + Seq::<ParserError>::empty() =~= self.errors@);
            assert(e0 + parse_program_at(s, a0).1 =~= self.errors@);
        }
        Ok(program)
    }
}

} // verus!
