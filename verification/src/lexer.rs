//! The tokenizer: converts a raw source buffer into a stream of tokens,
//! one at a time, on demand.
//!
//! The whole behaviour of the tokenizer is captured by the specification
//! function [`next_token_at`]: given the source bytes and a cursor, it says
//! which token is produced next and where the cursor stands afterwards.
//! [`Lexer::next_token`] is proved to follow it exactly.
use crate::token::{lookup_ident, spec_lookup_ident, Token, TokenType, TokenView};
use vstd::prelude::*;

verus! {

/// Whitespace bytes skipped between tokens: space, tab, newline, carriage return.
pub open spec fn is_whitespace_byte(c: u8) -> bool {
    c == 32 || c == 9 || c == 10 || c == 13
}

/// Bytes that may form an identifier: ASCII letters and the underscore.
pub open spec fn is_letter_byte(c: u8) -> bool {
    ('a' as u8) <= c <= ('z' as u8) || ('A' as u8) <= c <= ('Z' as u8) || c == ('_' as u8)
}

/// Bytes that may form an integer literal: the ASCII digits.
pub open spec fn is_digit_byte(c: u8) -> bool {
    ('0' as u8) <= c <= ('9' as u8)
}

/// The byte under examination at cursor `p`, with 0 as the sentinel past the end.
pub open spec fn byte_at(s: Seq<u8>, p: int) -> u8 {
    if 0 <= p < s.len() {
        s[p]
    } else {
        0
    }
}

/// The first cursor at or after `p` that does not hold a whitespace byte.
pub open spec fn skip_ws(s: Seq<u8>, p: int) -> int
    decreases s.len() - p
        when 0 <= p <= s.len()
{
    if p < s.len() && is_whitespace_byte(s[p]) {
        skip_ws(s, p + 1)
    } else {
        p
    }
}

/// The end of the maximal run of letter bytes starting at `p`.
pub open spec fn letters_end(s: Seq<u8>, p: int) -> int
    decreases s.len() - p
        when 0 <= p <= s.len()
{
    if p < s.len() && is_letter_byte(s[p]) {
        letters_end(s, p + 1)
    } else {
        p
    }
}

/// The end of the maximal run of digit bytes starting at `p`.
pub open spec fn digits_end(s: Seq<u8>, p: int) -> int
    decreases s.len() - p
        when 0 <= p <= s.len()
{
    if p < s.len() && is_digit_byte(s[p]) {
        digits_end(s, p + 1)
    } else {
        p
    }
}

pub proof fn lemma_skip_ws(s: Seq<u8>, p: int)
    requires
        0 <= p <= s.len(),
    ensures
        p <= skip_ws(s, p) <= s.len(),
        forall|j: int| p <= j < skip_ws(s, p) ==> is_whitespace_byte(s[j]),
        skip_ws(s, p) < s.len() ==> !is_whitespace_byte(s[skip_ws(s, p)]),
    decreases s.len() - p,
{
    if p < s.len() && is_whitespace_byte(s[p]) {
        lemma_skip_ws(s, p + 1);
    }
}

pub proof fn lemma_letters_end(s: Seq<u8>, p: int)
    requires
        0 <= p <= s.len(),
    ensures
        p <= letters_end(s, p) <= s.len(),
        forall|j: int| p <= j < letters_end(s, p) ==> is_letter_byte(s[j]),
        letters_end(s, p) < s.len() ==> !is_letter_byte(s[letters_end(s, p)]),
    decreases s.len() - p,
{
    if p < s.len() && is_letter_byte(s[p]) {
        lemma_letters_end(s, p + 1);
    }
}

pub proof fn lemma_digits_end(s: Seq<u8>, p: int)
    requires
        0 <= p <= s.len(),
    ensures
        p <= digits_end(s, p) <= s.len(),
        forall|j: int| p <= j < digits_end(s, p) ==> is_digit_byte(s[j]),
        digits_end(s, p) < s.len() ==> !is_digit_byte(s[digits_end(s, p)]),
    decreases s.len() - p,
{
    if p < s.len() && is_digit_byte(s[p]) {
        lemma_digits_end(s, p + 1);
    }
}

/// The kind of a one-byte token: the single-character operators and
/// punctuation, with every unrecognized byte classified as illegal.
pub open spec fn single_byte_kind(c: u8) -> TokenType {
    if c == ('=' as u8) {
        TokenType::ASSIGN
    } else if c == (';' as u8) {
        TokenType::SEMICOLON
    } else if c == ('(' as u8) {
        TokenType::LPAREN
    } else if c == (')' as u8) {
        TokenType::RPAREN
    } else if c == ('{' as u8) {
        TokenType::LBRACE
    } else if c == ('}' as u8) {
        TokenType::RBRACE
    } else if c == (',' as u8) {
        TokenType::COMMA
    } else if c == ('+' as u8) {
        TokenType::PLUS
    } else if c == ('-' as u8) {
        TokenType::MINUS
    } else if c == ('*' as u8) {
        TokenType::ASTERISK
    } else if c == ('/' as u8) {
        TokenType::SLASH
    } else if c == ('!' as u8) {
        TokenType::BANG
    } else if c == ('<' as u8) {
        TokenType::LT
    } else if c == ('>' as u8) {
        TokenType::GT
    } else {
        TokenType::ILLEGAL
    }
}

/// The token produced by one tokenizing step from cursor `p`, and the cursor
/// after it. Whitespace is skipped first; at the end of input the end-marker
/// is produced with an empty literal and the cursor does not move further.
/// Every token's literal is exactly the span of source bytes it consumed.
pub open spec fn next_token_at(s: Seq<u8>, p: int) -> (TokenView, int) {
    let q = skip_ws(s, p);
    if q >= s.len() {
        (TokenView { t_type: TokenType::EOF, literal: Seq::empty() }, q)
    } else {
        let c = s[q];
        if c == ('=' as u8) && q + 1 < s.len() && s[q + 1] == ('=' as u8) {
            (TokenView { t_type: TokenType::EQ, literal: s.subrange(q, q + 2) }, q + 2)
        } else if c == ('!' as u8) && q + 1 < s.len() && s[q + 1] == ('=' as u8) {
            (TokenView { t_type: TokenType::NOT_EQ, literal: s.subrange(q, q + 2) }, q + 2)
        } else if is_letter_byte(c) {
            let e = letters_end(s, q);
            (
                TokenView {
                    t_type: spec_lookup_ident(s.subrange(q, e)),
                    literal: s.subrange(q, e),
                },
                e,
            )
        } else if is_digit_byte(c) {
            let e = digits_end(s, q);
            (TokenView { t_type: TokenType::INT, literal: s.subrange(q, e) }, e)
        } else {
            (TokenView { t_type: single_byte_kind(c), literal: s.subrange(q, q + 1) }, q + 1)
        }
    }
}

/// Bounds of one tokenizing step: the cursor never moves backwards nor past
/// the end, it strictly advances unless the end-marker is produced, and the
/// end-marker is produced exactly when only whitespace is left.
pub proof fn lemma_next_token_at(s: Seq<u8>, p: int)
    requires
        0 <= p <= s.len(),
    ensures
        p <= next_token_at(s, p).1 <= s.len(),
        next_token_at(s, p).0.t_type != TokenType::EOF ==> next_token_at(s, p).1 > p,
        next_token_at(s, p).0.t_type == TokenType::EOF <==> skip_ws(s, p) == s.len(),
        next_token_at(s, p).0.t_type == TokenType::EOF ==> next_token_at(s, p).1 == s.len(),
{
    lemma_skip_ws(s, p);
    let q = skip_ws(s, p);
    if q < s.len() {
        let c = s[q];
        if c == ('=' as u8) && q + 1 < s.len() && s[q + 1] == ('=' as u8) {
        } else if c == ('!' as u8) && q + 1 < s.len() && s[q + 1] == ('=' as u8) {
        } else if is_letter_byte(c) {
            lemma_letters_end(s, q);
            assert(letters_end(s, q) == letters_end(s, q + 1));
        } else if is_digit_byte(c) {
            lemma_digits_end(s, q);
            assert(digits_end(s, q) == digits_end(s, q + 1));
        }
    }
}

/// The tokenizer. It holds the source buffer, fixed for its lifetime, a read
/// cursor, and the single byte under examination; there is no lookahead
/// beyond one byte and no way to rewind.
pub struct Lexer {
    input: Vec<u8>,
    position: usize,
    read_position: usize,
    ch: u8,
}

impl Lexer {
    /// The source bytes the tokenizer was built over.
    pub closed spec fn src(self) -> Seq<u8> {
        self.input@
    }

    /// The read cursor: the position of the byte under examination.
    pub closed spec fn pos(self) -> int {
        self.position as int
    }

    /// The cursor is in bounds, the reading position is one past it (both
    /// saturate at the end of input), and the byte under examination is the
    /// byte at the cursor.
    pub closed spec fn wf(self) -> bool {
        &&& self.position <= self.input@.len()
        &&& if self.position < self.input@.len() {
            self.read_position == self.position + 1
        } else {
            self.read_position == self.input@.len()
        }
        &&& self.ch == byte_at(self.input@, self.position as int)
    }

    /// A well-formed tokenizer's cursor stands inside its source buffer.
    pub proof fn lemma_wf_bounds(self)
        requires
            self.wf(),
        ensures
            0 <= self.pos() <= self.src().len(),
    {
    }

    /// Build a tokenizer over a source buffer, with the cursor at the start.
    pub fn new(input: Vec<u8>) -> (l: Lexer)
        ensures
            l.wf(),
            l.src() == input@,
            l.pos() == 0,
    {
        let mut l = Lexer { input, position: 0, read_position: 0, ch: 0 };
        l.read_char();
        l
    }

    /// Advance the cursor one byte, saturating at the end of input.
    fn read_char(&mut self)
        requires
            old(self).read_position <= old(self).input@.len(),
        ensures
            final(self).wf(),
            final(self).input == old(self).input,
            final(self).position == old(self).read_position,
    {
        if self.read_position < self.input.len() {
            self.ch = self.input[self.read_position];
            self.position = self.read_position;
            self.read_position = self.read_position + 1;
        } else {
            self.ch = 0;
            self.position = self.input.len();
            self.read_position = self.input.len();
        }
    }

    /// The one byte of lookahead past the byte under examination.
    fn peek_char(&self) -> (c: u8)
        requires
            self.wf(),
        ensures
            c == byte_at(self.src(), self.pos() + 1),
    {
        if self.read_position >= self.input.len() {
            0
        } else {
            self.input[self.read_position]
        }
    }

    /// Advance the cursor past all whitespace, emitting nothing.
    fn skip_whitespace(&mut self)
        requires
            old(self).wf(),
        ensures
            final(self).wf(),
            final(self).input == old(self).input,
            final(self).position as int == skip_ws(old(self).input@, old(self).position as int),
    {
        while self.ch == 32 || self.ch == 9 || self.ch == 10 || self.ch == 13
            invariant
                self.wf(),
                self.input == old(self).input,
                skip_ws(self.input@, self.position as int) == skip_ws(
                    old(self).input@,
                    old(self).position as int,
                ),
            decreases self.input@.len() - self.position,
        {
            self.read_char();
        }
    }

    /// A byte that may form an identifier: an ASCII letter or the underscore.
    fn is_letter(ch: u8) -> (r: bool)
        ensures
            r == is_letter_byte(ch),
    {
        (('a' as u8) <= ch && ch <= ('z' as u8)) || (('A' as u8) <= ch && ch <= ('Z' as u8)) || ch
            == ('_' as u8)
    }

    /// An ASCII digit byte.
    fn is_digit(ch: u8) -> (r: bool)
        ensures
            r == is_digit_byte(ch),
    {
        ('0' as u8) <= ch && ch <= ('9' as u8)
    }

    /// Consume the maximal run of letter bytes and return it as one literal.
    fn read_identifier(&mut self) -> (r: Vec<u8>)
        requires
            old(self).wf(),
            is_letter_byte(byte_at(old(self).input@, old(self).position as int)),
        ensures
            final(self).wf(),
            final(self).input == old(self).input,
            final(self).position as int == letters_end(
                old(self).input@,
                old(self).position as int,
            ),
            r@ == old(self).input@.subrange(
                old(self).position as int,
                final(self).position as int,
            ),
    {
        let position = self.position;
        while Lexer::is_letter(self.ch)
            invariant
                self.wf(),
                self.input == old(self).input,
                position <= self.position,
                letters_end(self.input@, position as int) == letters_end(
                    self.input@,
                    self.position as int,
                ),
            decreases self.input@.len() - self.position,
        {
            self.read_char();
        }
        copy_range(&self.input, position, self.position)
    }

    /// Consume the maximal run of digit bytes and return it as one literal.
    fn read_number(&mut self) -> (r: Vec<u8>)
        requires
            old(self).wf(),
            is_digit_byte(byte_at(old(self).input@, old(self).position as int)),
        ensures
            final(self).wf(),
            final(self).input == old(self).input,
            final(self).position as int == digits_end(old(self).input@, old(self).position as int),
            r@ == old(self).input@.subrange(
                old(self).position as int,
                final(self).position as int,
            ),
    {
        let position = self.position;
        while Lexer::is_digit(self.ch)
            invariant
                self.wf(),
                self.input == old(self).input,
                position <= self.position,
                digits_end(self.input@, position as int) == digits_end(
                    self.input@,
                    self.position as int,
                ),
            decreases self.input@.len() - self.position,
        {
            self.read_char();
        }
        copy_range(&self.input, position, self.position)
    }

    /// Produce the next token and advance the cursor past its lexeme.
    /// The result and the new cursor are exactly those of [`next_token_at`];
    /// in particular, once the end-marker has been produced, every further
    /// call produces it again.
    pub fn next_token(&mut self) -> (t: Token)
        requires
            old(self).wf(),
        ensures
            final(self).wf(),
            final(self).src() == old(self).src(),
            t@ == next_token_at(old(self).src(), old(self).pos()).0,
            final(self).pos() == next_token_at(old(self).src(), old(self).pos()).1,
            0 <= final(self).pos() <= final(self).src().len(),
    {
        self.skip_whitespace();
        if self.position >= self.input.len() {
            return Token::new(TokenType::EOF, Vec::new());
        }
        let c = self.ch;
        if Lexer::is_letter(c) {
            let literal = self.read_identifier();
            let t_type = lookup_ident(&literal);
            return Token::new(t_type, literal);
        }
        if Lexer::is_digit(c) {
            let literal = self.read_number();
            return Token::new(TokenType::INT, literal);
        }
        let start = self.position;
        let t: Token;
        if c == ('=' as u8) && self.peek_char() == ('=' as u8) {
            self.read_char();
            t = Token::new(TokenType::EQ, copy_range(&self.input, start, start + 2));
        } else if c == ('!' as u8) && self.peek_char() == ('=' as u8) {
            self.read_char();
            t = Token::new(TokenType::NOT_EQ, copy_range(&self.input, start, start + 2));
        } else {
            t = Token::new(single_byte_type(c), copy_range(&self.input, start, start + 1));
        }
        self.read_char();
        t
    }
}

/// Classify a one-byte token.
fn single_byte_type(c: u8) -> (t: TokenType)
    ensures
        t == single_byte_kind(c),
{
    if c == ('=' as u8) {
        TokenType::ASSIGN
    } else if c == (';' as u8) {
        TokenType::SEMICOLON
    } else if c == ('(' as u8) {
        TokenType::LPAREN
    } else if c == (')' as u8) {
        TokenType::RPAREN
    } else if c == ('{' as u8) {
        TokenType::LBRACE
    } else if c == ('}' as u8) {
        TokenType::RBRACE
    } else if c == (',' as u8) {
        TokenType::COMMA
    } else if c == ('+' as u8) {
        TokenType::PLUS
    } else if c == ('-' as u8) {
        TokenType::MINUS
    } else if c == ('*' as u8) {
        TokenType::ASTERISK
    } else if c == ('/' as u8) {
        TokenType::SLASH
    } else if c == ('!' as u8) {
        TokenType::BANG
    } else if c == ('<' as u8) {
        TokenType::LT
    } else if c == ('>' as u8) {
        TokenType::GT
    } else {
        TokenType::ILLEGAL
    }
}

/// The whole sequence of tokens produced from cursor `p` before the
/// end-marker, in order. The end-marker itself is not part of it.
pub open spec fn tokens_from(s: Seq<u8>, p: int) -> Seq<TokenView>
    decreases s.len() - p
        when 0 <= p <= s.len() via tokens_from_decreases
{
    let (t, np) = next_token_at(s, p);
    if t.t_type == TokenType::EOF {
        Seq::empty()
    } else {
        seq![t] + tokens_from(s, np)
    }
}

#[via_fn]
proof fn tokens_from_decreases(s: Seq<u8>, p: int) {
    lemma_next_token_at(s, p);
}

/// The literals of a sequence of tokens, concatenated in order.
pub open spec fn concat_literals(toks: Seq<TokenView>) -> Seq<u8>
    decreases toks.len(),
{
    if toks.len() == 0 {
        Seq::empty()
    } else {
        toks[0].literal + concat_literals(toks.drop_first())
    }
}

/// The significant content of a source buffer: its bytes with all
/// whitespace removed.
pub open spec fn significant(s: Seq<u8>) -> Seq<u8> {
    s.filter(|c: u8| !is_whitespace_byte(c))
}

/// An all-whitespace buffer has no significant content.
proof fn lemma_significant_ws(s: Seq<u8>)
    requires
        forall|i: int| 0 <= i < s.len() ==> is_whitespace_byte(s[i]),
    ensures
        significant(s) == Seq::<u8>::empty(),
    decreases s.len(),
{
    reveal(Seq::filter);
    if s.len() == 0 {
        assert(significant(s) =~= Seq::<u8>::empty());
    } else {
        lemma_significant_ws(s.drop_last());
    }
}

/// A buffer without whitespace is its own significant content.
proof fn lemma_significant_solid(s: Seq<u8>)
    requires
        forall|i: int| 0 <= i < s.len() ==> !is_whitespace_byte(s[i]),
    ensures
        significant(s) == s,
    decreases s.len(),
{
    reveal(Seq::filter);
    if s.len() == 0 {
        assert(significant(s) =~= s);
    } else {
        lemma_significant_solid(s.drop_last());
        assert(s.drop_last().push(s.last()) =~= s);
    }
}

/// Idempotence at the end of input: once a tokenizing step has produced the
/// end-marker, the step taken from the resulting cursor produces the
/// end-marker again, with the same empty literal and the same cursor, rather
/// than erring or reading past the end.
pub proof fn lemma_end_marker_idempotent(s: Seq<u8>, p: int)
    requires
        0 <= p <= s.len(),
        next_token_at(s, p).0.t_type == TokenType::EOF,
    ensures
        next_token_at(s, next_token_at(s, p).1) == next_token_at(s, p),
{
    lemma_next_token_at(s, p);
    assert(skip_ws(s, s.len() as int) == s.len());
}

/// Every token's literal is exactly the span of source bytes it consumed,
/// and that span holds no whitespace.
proof fn lemma_literal_is_span(s: Seq<u8>, p: int)
    requires
        0 <= p <= s.len(),
        next_token_at(s, p).0.t_type != TokenType::EOF,
    ensures
        skip_ws(s, p) <= next_token_at(s, p).1 <= s.len(),
        next_token_at(s, p).0.literal == s.subrange(skip_ws(s, p), next_token_at(s, p).1),
        forall|i: int|
            skip_ws(s, p) <= i < next_token_at(s, p).1 ==> !is_whitespace_byte(s[i]),
{
    lemma_skip_ws(s, p);
    let q = skip_ws(s, p);
    let np = next_token_at(s, p).1;
    let c = s[q];
    if c == ('=' as u8) && q + 1 < s.len() && s[q + 1] == ('=' as u8) {
    } else if c == ('!' as u8) && q + 1 < s.len() && s[q + 1] == ('=' as u8) {
    } else if is_letter_byte(c) {
        lemma_letters_end(s, q);
    } else if is_digit_byte(c) {
        lemma_digits_end(s, q);
    }
}

/// Whitespace-insensitive round trip, from cursor `p` on.
proof fn lemma_round_trip_from(s: Seq<u8>, p: int)
    requires
        0 <= p <= s.len(),
    ensures
        concat_literals(tokens_from(s, p)) == significant(s.subrange(p, s.len() as int)),
    decreases s.len() - p,
{
    broadcast use vstd::seq_lib::group_seq_lib_default;

    lemma_next_token_at(s, p);
    lemma_skip_ws(s, p);
    let len = s.len() as int;
    let q = skip_ws(s, p);
    let (t, np) = next_token_at(s, p);
    let ws_run = s.subrange(p, q);
    assert(forall|i: int| 0 <= i < ws_run.len() ==> is_whitespace_byte(ws_run[i]));
    lemma_significant_ws(ws_run);
    if t.t_type == TokenType::EOF {
        assert(s.subrange(p, len) =~= ws_run);
    } else {
        lemma_literal_is_span(s, p);
        lemma_round_trip_from(s, np);
        let span = s.subrange(q, np);
        let rest = s.subrange(np, len);
        assert(forall|i: int| 0 <= i < span.len() ==> !is_whitespace_byte(span[i]));
        lemma_significant_solid(span);
        assert(s.subrange(p, len) =~= ws_run + (span + rest));
        assert(significant(ws_run + (span + rest)) == significant(ws_run) + (significant(span)
            + significant(rest)));
        let toks = tokens_from(s, p);
        assert(toks == seq![t] + tokens_from(s, np));
        assert(toks[0] == t);
        assert(toks.drop_first() =~= tokens_from(s, np));
        assert(concat_literals(toks) == t.literal + concat_literals(tokens_from(s, np)));
        assert(significant(s.subrange(p, len)) =~= span + concat_literals(tokens_from(s, np)));
    }
}

/// Whitespace-insensitive round trip: concatenating, in order, the literals
/// of every token produced before the end-marker reproduces the significant
/// content of the source buffer, its bytes with all whitespace removed.
pub proof fn lemma_round_trip(s: Seq<u8>)
    ensures
        concat_literals(tokens_from(s, 0)) == significant(s),
{
    lemma_round_trip_from(s, 0);
    assert(s.subrange(0, s.len() as int) =~= s);
}

/// Copy the bytes of `v` between `start` and `end` into a fresh vector.
fn copy_range(v: &Vec<u8>, start: usize, end: usize) -> (r: Vec<u8>)
    requires
        start <= end <= v@.len(),
    ensures
        r@ == v@.subrange(start as int, end as int),
{
    let mut r: Vec<u8> = Vec::new();
    let mut i: usize = start;
    while i < end
        invariant
            start <= i <= end <= v@.len(),
            r@ == v@.subrange(start as int, i as int),
        decreases end - i,
    {
        r.push(v[i]);
        i = i + 1;
        proof {
            assert(r@ =~= v@.subrange(start as int, i as int));
        }
    }
    r
}

} // verus!

