//! The lexical analyser.
//!
//! The spec functions in this module define, character by character, what the
//! lexer produces on any source: `skip_ws` passes over whitespace, the
//! `scan_*` functions consume one token's worth of code points, and
//! `read_token` combines them into one lexing step. The executable
//! `Tokenizer` walks the source with a one-token look-ahead cache, and its
//! contracts state that it returns exactly what `read_token` says.

use vstd::prelude::*;
use vstd::std_specs::iter::IteratorSpec;

use crate::host::alphanumeric;
use crate::host::is_alphanumeric_char;
use crate::host::is_whitespace_char;
use crate::host::whitespace;
use crate::position::Position;
use crate::position::Span;
use crate::token::Token;
use crate::token::TokenKind;
use crate::token::TokenKindView;
use crate::token::TokenView;
use crate::token::TokenizeError;
use crate::token::TokenizeErrorView;

verus! {

/// The nine reserved punctuation code points. They are emitted as one-token
/// characters and can never occur inside an operator.
pub open spec fn punctuation(c: char) -> bool {
    ||| c == '('
    ||| c == ')'
    ||| c == '{'
    ||| c == '}'
    ||| c == '['
    ||| c == ']'
    ||| c == '.'
    ||| c == ':'
    ||| c == ','
}

/// Whether position `p` still points into the source `s`. The second
/// conjunct keeps the position arithmetic below `usize::MAX`, so that
/// advancing cannot wrap; every real source stays far below it.
pub open spec fn in_input(s: Seq<char>, p: Position) -> bool {
    p.character_index < s.len() && s.len() <= usize::MAX
}

/// The position after passing over the maximal run of whitespace at `p`.
pub open spec fn skip_ws(s: Seq<char>, p: Position) -> Position
    decreases s.len() - p.character_index,
{
    if in_input(s, p) && whitespace(s[p.character_index as int]) {
        skip_ws(s, p.advance(s[p.character_index as int]))
    } else {
        p
    }
}

/// The maximal run of alphanumeric-or-underscore code points at `p`, and the
/// position after it.
pub open spec fn scan_alphanumeric(s: Seq<char>, p: Position) -> (Seq<char>, Position)
    decreases s.len() - p.character_index,
{
    if in_input(s, p) && (alphanumeric(s[p.character_index as int]) || s[p.character_index as int]
        == '_') {
        let c = s[p.character_index as int];
        let rest = scan_alphanumeric(s, p.advance(c));
        (seq![c] + rest.0, rest.1)
    } else {
        (Seq::empty(), p)
    }
}

/// The maximal run of code points at `p` that are neither whitespace nor
/// reserved punctuation, and the position after it.
pub open spec fn scan_operator(s: Seq<char>, p: Position) -> (Seq<char>, Position)
    decreases s.len() - p.character_index,
{
    if in_input(s, p) && !whitespace(s[p.character_index as int]) && !punctuation(
        s[p.character_index as int],
    ) {
        let c = s[p.character_index as int];
        let rest = scan_operator(s, p.advance(c));
        (seq![c] + rest.0, rest.1)
    } else {
        (Seq::empty(), p)
    }
}

/// The outcome of scanning a string literal's body.
pub enum StringScan {
    /// The decoded text and the position after the closing quote.
    Done(Seq<char>, Position),
    /// A backslash was followed by this unsupported code point.
    BadEscape(char),
    /// The input ended before an unescaped closing quote.
    Unterminated,
}

/// Prepends one decoded code point to a successful string scan.
pub open spec fn string_scan_prepend(c: char, r: StringScan) -> StringScan {
    match r {
        StringScan::Done(t, e) => StringScan::Done(seq![c] + t, e),
        _ => r,
    }
}

/// Scans the body of a string literal starting at `p` (just after the
/// opening quote, or after the code point that set `escaped`).
pub open spec fn scan_string(s: Seq<char>, p: Position, escaped: bool) -> StringScan
    decreases s.len() - p.character_index,
{
    if !in_input(s, p) {
        StringScan::Unterminated
    } else {
        let c = s[p.character_index as int];
        let q = p.advance(c);
        if escaped {
            if c == 'n' {
                string_scan_prepend('\n', scan_string(s, q, false))
            } else if c == 't' {
                string_scan_prepend('\t', scan_string(s, q, false))
            } else if c == '\\' {
                string_scan_prepend('\\', scan_string(s, q, false))
            } else if c == '"' {
                string_scan_prepend('"', scan_string(s, q, false))
            } else {
                StringScan::BadEscape(c)
            }
        } else {
            if c == '\\' {
                scan_string(s, q, true)
            } else if c == '"' {
                StringScan::Done(Seq::empty(), q)
            } else {
                string_scan_prepend(c, scan_string(s, q, false))
            }
        }
    }
}

/// The outcome of scanning a number literal.
pub enum NumberScan {
    /// The literal text and the position after it.
    Done(Seq<char>, Position),
    /// A second decimal point was met inside the run of digits.
    ExtraDot,
}

/// Prepends one code point to a successful number scan.
pub open spec fn number_scan_prepend(c: char, r: NumberScan) -> NumberScan {
    match r {
        NumberScan::Done(t, e) => NumberScan::Done(seq![c] + t, e),
        _ => r,
    }
}

/// Scans a run of decimal digits with at most one decimal point.
pub open spec fn scan_number(s: Seq<char>, p: Position, has_dot: bool) -> NumberScan
    decreases s.len() - p.character_index,
{
    if !in_input(s, p) {
        NumberScan::Done(Seq::empty(), p)
    } else {
        let c = s[p.character_index as int];
        if '0' <= c && c <= '9' {
            number_scan_prepend(c, scan_number(s, p.advance(c), has_dot))
        } else if c == '.' && !has_dot {
            number_scan_prepend('.', scan_number(s, p.advance(c), true))
        } else if c == '.' {
            NumberScan::ExtraDot
        } else {
            NumberScan::Done(Seq::empty(), p)
        }
    }
}

/// One step of the lexer, taken at some position of some source.
pub enum LexStep {
    /// A token was read; the position names the first code point after it.
    Tok(TokenView, Position),
    /// Only whitespace remained; the position is the end of the source.
    End(Position),
    /// The source is malformed at this point.
    Fail(TokenizeErrorView),
}

/// A single-character punctuation token read at `p`.
pub open spec fn single_char_token(k: TokenKindView, p: Position, c: char) -> LexStep {
    LexStep::Tok(TokenView { kind: k, span: Span { start: p, end: p.advance(c) } }, p.advance(c))
}

/// What one call of the lexer returns at position `p` of source `s`:
/// whitespace is skipped, then the first code point selects the branch.
pub open spec fn read_token(s: Seq<char>, p: Position) -> LexStep {
    let p1 = skip_ws(s, p);
    if !in_input(s, p1) {
        LexStep::End(p1)
    } else {
        let c = s[p1.character_index as int];
        if c == '(' {
            single_char_token(TokenKindView::LeftParenthesis, p1, c)
        } else if c == ')' {
            single_char_token(TokenKindView::RightParenthesis, p1, c)
        } else if c == '{' {
            single_char_token(TokenKindView::LeftBrace, p1, c)
        } else if c == '}' {
            single_char_token(TokenKindView::RightBrace, p1, c)
        } else if c == '[' {
            single_char_token(TokenKindView::LeftBracket, p1, c)
        } else if c == ']' {
            single_char_token(TokenKindView::RightBracket, p1, c)
        } else if c == '.' {
            single_char_token(TokenKindView::Dot, p1, c)
        } else if c == ':' {
            single_char_token(TokenKindView::Colon, p1, c)
        } else if c == ',' {
            single_char_token(TokenKindView::Comma, p1, c)
        } else if c == '"' {
            match scan_string(s, p1.advance(c), false) {
                StringScan::Done(t, e) => LexStep::Tok(
                    TokenView {
                        kind: TokenKindView::StringLiteral(t),
                        span: Span { start: p1, end: e },
                    },
                    e,
                ),
                StringScan::BadEscape(b) => LexStep::Fail(
                    TokenizeErrorView::InvalidEscapeSequence(b),
                ),
                StringScan::Unterminated => LexStep::Fail(
                    TokenizeErrorView::UnterminatedStringLiteral,
                ),
            }
        } else if '0' <= c && c <= '9' {
            match scan_number(s, p1, false) {
                NumberScan::Done(t, e) => LexStep::Tok(
                    TokenView {
                        kind: TokenKindView::NumberLiteral(t),
                        span: Span { start: p1, end: e },
                    },
                    e,
                ),
                NumberScan::ExtraDot => LexStep::Fail(
                    TokenizeErrorView::InvalidNumberFormatMultipleDecimalPoints,
                ),
            }
        } else if alphanumeric(c) || c == '_' {
            let r = scan_alphanumeric(s, p1);
            LexStep::Tok(
                TokenView {
                    kind: TokenKindView::Identifier(r.0),
                    span: Span { start: p1, end: r.1 },
                },
                r.1,
            )
        } else if !whitespace(c) {
            let r = scan_operator(s, p1);
            LexStep::Tok(
                TokenView { kind: TokenKindView::Operator(r.0), span: Span { start: p1, end: r.1 } },
                r.1,
            )
        } else {
            LexStep::Fail(TokenizeErrorView::UnexpectedCharacter(c))
        }
    }
}

/// Skipping whitespace moves forward, stays inside the source, and keeps the
/// position well formed.
pub proof fn lemma_skip_ws(s: Seq<char>, p: Position)
    requires
        p.wf(),
        p.character_index <= s.len(),
        s.len() < usize::MAX,
    ensures
        skip_ws(s, p).wf(),
        p.character_index <= skip_ws(s, p).character_index <= s.len(),
    decreases s.len() - p.character_index,
{
    if in_input(s, p) && whitespace(s[p.character_index as int]) {
        crate::position::lemma_advance_wf(p, s[p.character_index as int]);
        lemma_skip_ws(s, p.advance(s[p.character_index as int]));
    }
}

/// An alphanumeric run ends where it started or further on, inside the
/// source, at a well-formed position.
pub proof fn lemma_scan_alphanumeric(s: Seq<char>, p: Position)
    requires
        p.wf(),
        p.character_index <= s.len(),
        s.len() < usize::MAX,
    ensures
        scan_alphanumeric(s, p).1.wf(),
        p.character_index <= scan_alphanumeric(s, p).1.character_index <= s.len(),
    decreases s.len() - p.character_index,
{
    if in_input(s, p) && (alphanumeric(s[p.character_index as int]) || s[p.character_index as int]
        == '_') {
        crate::position::lemma_advance_wf(p, s[p.character_index as int]);
        lemma_scan_alphanumeric(s, p.advance(s[p.character_index as int]));
    }
}

/// An operator run ends where it started or further on, inside the source,
/// at a well-formed position.
pub proof fn lemma_scan_operator(s: Seq<char>, p: Position)
    requires
        p.wf(),
        p.character_index <= s.len(),
        s.len() < usize::MAX,
    ensures
        scan_operator(s, p).1.wf(),
        p.character_index <= scan_operator(s, p).1.character_index <= s.len(),
    decreases s.len() - p.character_index,
{
    if in_input(s, p) && !whitespace(s[p.character_index as int]) && !punctuation(
        s[p.character_index as int],
    ) {
        crate::position::lemma_advance_wf(p, s[p.character_index as int]);
        lemma_scan_operator(s, p.advance(s[p.character_index as int]));
    }
}

/// A completed string scan ends after its starting point, inside the source,
/// at a well-formed position.
pub proof fn lemma_scan_string(s: Seq<char>, p: Position, escaped: bool)
    requires
        p.wf(),
        p.character_index <= s.len(),
        s.len() < usize::MAX,
    ensures
        scan_string(s, p, escaped) matches StringScan::Done(t, e) ==> e.wf()
            && p.character_index < e.character_index && e.character_index <= s.len(),
    decreases s.len() - p.character_index,
{
    if in_input(s, p) {
        let c = s[p.character_index as int];
        crate::position::lemma_advance_wf(p, c);
        lemma_scan_string(s, p.advance(c), false);
        lemma_scan_string(s, p.advance(c), true);
    }
}

/// A completed number scan ends where it started or further on, inside the
/// source, at a well-formed position.
pub proof fn lemma_scan_number(s: Seq<char>, p: Position, has_dot: bool)
    requires
        p.wf(),
        p.character_index <= s.len(),
        s.len() < usize::MAX,
    ensures
        scan_number(s, p, has_dot) matches NumberScan::Done(t, e) ==> e.wf()
            && p.character_index <= e.character_index && e.character_index <= s.len(),
    decreases s.len() - p.character_index,
{
    if in_input(s, p) {
        let c = s[p.character_index as int];
        crate::position::lemma_advance_wf(p, c);
        lemma_scan_number(s, p.advance(c), has_dot);
        lemma_scan_number(s, p.advance(c), true);
    }
}

/// Every lexing step from a well-formed position lands at a well-formed
/// position; a token strictly advances and carries a well-formed span ending
/// where the lexer stops.
pub proof fn lemma_read_token(s: Seq<char>, p: Position)
    requires
        p.wf(),
        p.character_index <= s.len(),
        s.len() < usize::MAX,
    ensures
        read_token(s, p) matches LexStep::Tok(t, q) ==> {
            &&& q.wf()
            &&& p.character_index < q.character_index
            &&& q.character_index <= s.len()
            &&& t.span.start.wf()
            &&& t.span.end == q
            &&& p.character_index <= t.span.start.character_index
            &&& t.span.start.character_index < q.character_index
        },
        read_token(s, p) matches LexStep::End(q) ==> q.wf() && p.character_index
            <= q.character_index && q.character_index <= s.len(),
{
    lemma_skip_ws(s, p);
    let p1 = skip_ws(s, p);
    if in_input(s, p1) {
        let c = s[p1.character_index as int];
        crate::position::lemma_advance_wf(p1, c);
        if c == '"' {
            lemma_scan_string(s, p1.advance(c), false);
        } else if '0' <= c && c <= '9' {
            lemma_scan_number(s, p1, false);
            assert(scan_number(s, p1, false) matches NumberScan::Done(t, e)
                ==> e.character_index > p1.character_index) by {
                if in_input(s, p1) && '0' <= c && c <= '9' {
                    lemma_scan_number(s, p1.advance(c), false);
                }
            }
        } else if alphanumeric(c) || c == '_' {
            lemma_scan_alphanumeric(s, p1);
            lemma_scan_alphanumeric(s, p1.advance(c));
        } else if !whitespace(c) && !punctuation(c) {
            lemma_scan_operator(s, p1);
            lemma_scan_operator(s, p1.advance(c));
        }
    }
}

/// Collects the code points of a source string into a vector.
pub fn chars_vec(s: &str) -> (r: Vec<char>)
    ensures
        r@ == s@,
{
    broadcast use vstd::string::axiom_spec_iter, vstd::string::next_postcondition;

    let mut iter = s.chars();
    let mut v: Vec<char> = Vec::new();
    loop
        invariant
            v@ + iter.remaining() == s@,
            iter.decrease() is Some,
        decreases iter.decrease()->0,
    {
        match iter.next() {
            Some(c) => {
                v.push(c);
            },
            None => {
                proof {
                    assert(v@ + iter.remaining() =~= v@);
                }
                return v;
            },
        }
    }
}

/// Reads a source text into tokens, one at a time, with one token of
/// look-ahead. `cur()` is the position of the next token not yet handed to
/// the caller; when a token sits in the look-ahead cache, the read head
/// (`current_position`) is already past it.
pub struct Tokenizer {
    input_characters: Vec<char>,
    current_position: Position,
    cached_next_token: Option<Token>,
    logical_position: Ghost<Position>,
}

impl Tokenizer {
    /// The tokenizer's invariant: the read head lies inside the source at a
    /// well-formed position, and the cache, when full, holds exactly the
    /// token that one lexing step at `cur()` produces.
    pub closed spec fn wf(self) -> bool {
        &&& self.input_characters@.len() < usize::MAX
        &&& self.current_position.wf()
        &&& self.current_position.character_index <= self.input_characters@.len()
        &&& match self.cached_next_token {
            Some(t) => {
                &&& self.logical_position@.wf()
                &&& self.logical_position@.character_index <= self.input_characters@.len()
                &&& read_token(self.input_characters@, self.logical_position@) == LexStep::Tok(
                    t@,
                    self.current_position,
                )
            },
            None => self.logical_position@ == self.current_position,
        }
    }

    /// The source being read, as a sequence of code points.
    pub closed spec fn src(self) -> Seq<char> {
        self.input_characters@
    }

    /// The position of the next token not yet handed to the caller.
    pub closed spec fn cur(self) -> Position {
        self.logical_position@
    }

    /// Basic bounds that follow from the invariant.
    pub proof fn lemma_wf(self)
        requires
            self.wf(),
        ensures
            self.cur().wf(),
            self.cur().character_index <= self.src().len(),
            self.src().len() < usize::MAX,
    {
    }

    /// Makes a tokenizer that starts at line 1, column 1 of the given text.
    pub fn new(input_text: &str) -> (r: Tokenizer)
        requires
            input_text@.len() < usize::MAX,
        ensures
            r.wf(),
            r.src() == input_text@,
            r.cur() == Position::start(),
    {
        Tokenizer {
            input_characters: chars_vec(input_text),
            current_position: Position { line_number: 1, column_number: 1, character_index: 0 },
            cached_next_token: None,
            logical_position: Ghost(
                Position { line_number: 1, column_number: 1, character_index: 0 },
            ),
        }
    }

    /// Moves the read head past one code point.
    fn advance_position(&mut self, character: char)
        requires
            old(self).current_position.wf(),
            old(self).current_position.character_index + 2 <= usize::MAX,
        ensures
            final(self).current_position == old(self).current_position.advance(character),
            final(self).current_position.wf(),
            final(self).input_characters == old(self).input_characters,
            final(self).cached_next_token == old(self).cached_next_token,
            final(self).logical_position == old(self).logical_position,
    {
        if character == '\n' {
            self.current_position.line_number = self.current_position.line_number + 1;
            self.current_position.column_number = 1;
        } else {
            self.current_position.column_number = self.current_position.column_number + 1;
        }
        self.current_position.character_index = self.current_position.character_index + 1;
    }

    /// Moves the read head past the maximal run of whitespace.
    fn skip_whitespace(&mut self)
        requires
            old(self).current_position.wf(),
            old(self).current_position.character_index <= old(self).input_characters@.len(),
            old(self).input_characters@.len() < usize::MAX,
        ensures
            final(self).current_position == skip_ws(
                old(self).input_characters@,
                old(self).current_position,
            ),
            final(self).current_position.wf(),
            final(self).current_position.character_index <= final(self).input_characters@.len(),
            final(self).input_characters == old(self).input_characters,
            final(self).cached_next_token == old(self).cached_next_token,
            final(self).logical_position == old(self).logical_position,
    {
        let ghost v0 = self.input_characters;
        let ghost s = self.input_characters@;
        let ghost p0 = self.current_position;
        let ghost c0 = self.cached_next_token;
        let ghost g0 = self.logical_position@;
        while self.current_position.character_index < self.input_characters.len()
            && is_whitespace_char(self.input_characters[self.current_position.character_index])
            invariant
                self.current_position.wf(),
                self.current_position.character_index <= s.len(),
                self.input_characters == v0,
                self.input_characters@ == s,
                s.len() < usize::MAX,
                skip_ws(s, self.current_position) == skip_ws(s, p0),
                self.cached_next_token == c0,
                self.logical_position@ == g0,
            decreases s.len() - self.current_position.character_index,
        {
            let character = self.input_characters[self.current_position.character_index];
            self.advance_position(character);
        }
    }

    /// Consumes the maximal alphanumeric-or-underscore run at the read head
    /// and wraps it as an identifier token kind.
    #[verifier::loop_isolation(false)]
    fn parse_alphanumeric_identifier(&mut self) -> (r: TokenKind)
        requires
            old(self).current_position.wf(),
            old(self).current_position.character_index <= old(self).input_characters@.len(),
            old(self).input_characters@.len() < usize::MAX,
        ensures
            final(self).input_characters == old(self).input_characters,
            final(self).cached_next_token == old(self).cached_next_token,
            final(self).logical_position == old(self).logical_position,
            final(self).current_position.wf(),
            final(self).current_position.character_index <= final(self).input_characters@.len(),
            final(self).current_position == scan_alphanumeric(
                old(self).input_characters@,
                old(self).current_position,
            ).1,
            r@ == TokenKindView::Identifier(
                scan_alphanumeric(old(self).input_characters@, old(self).current_position).0,
            ),
    {
        let ghost v0 = self.input_characters;
        let ghost s = self.input_characters@;
        let ghost p0 = self.current_position;
        let ghost c0 = self.cached_next_token;
        let ghost g0 = self.logical_position@;
        let ghost full = scan_alphanumeric(s, p0);
        let mut identifier = String::new();
        while self.current_position.character_index < self.input_characters.len()
            && is_identifier_char(self.input_characters[self.current_position.character_index])
            invariant
                self.current_position.wf(),
                self.current_position.character_index <= s.len(),
                self.input_characters == v0,
                self.input_characters@ == s,
                s.len() < usize::MAX,
                self.cached_next_token == c0,
                self.logical_position@ == g0,
                identifier@ + scan_alphanumeric(s, self.current_position).0 == full.0,
                scan_alphanumeric(s, self.current_position).1 == full.1,
            decreases s.len() - self.current_position.character_index,
        {
            let character = self.input_characters[self.current_position.character_index];
            let ghost prev = identifier@;
            identifier.push(character);
            self.advance_position(character);
            proof {
                lemma_push_concat(prev, character, scan_alphanumeric(s, self.current_position).0);
            }
        }
        proof {
            assert(identifier@ + Seq::<char>::empty() =~= identifier@);
        }
        TokenKind::Identifier(identifier)
    }

    /// Consumes the maximal run of code points that are neither whitespace
    /// nor reserved punctuation and wraps it as an operator token kind.
    #[verifier::loop_isolation(false)]
    fn parse_operator(&mut self) -> (r: TokenKind)
        requires
            old(self).current_position.wf(),
            old(self).current_position.character_index <= old(self).input_characters@.len(),
            old(self).input_characters@.len() < usize::MAX,
        ensures
            final(self).input_characters == old(self).input_characters,
            final(self).cached_next_token == old(self).cached_next_token,
            final(self).logical_position == old(self).logical_position,
            final(self).current_position.wf(),
            final(self).current_position.character_index <= final(self).input_characters@.len(),
            final(self).current_position == scan_operator(
                old(self).input_characters@,
                old(self).current_position,
            ).1,
            r@ == TokenKindView::Operator(
                scan_operator(old(self).input_characters@, old(self).current_position).0,
            ),
    {
        let ghost v0 = self.input_characters;
        let ghost s = self.input_characters@;
        let ghost p0 = self.current_position;
        let ghost c0 = self.cached_next_token;
        let ghost g0 = self.logical_position@;
        let ghost full = scan_operator(s, p0);
        let mut identifier = String::new();
        while self.current_position.character_index < self.input_characters.len()
            && is_operator_char(self.input_characters[self.current_position.character_index])
            invariant
                self.current_position.wf(),
                self.current_position.character_index <= s.len(),
                self.input_characters == v0,
                self.input_characters@ == s,
                s.len() < usize::MAX,
                self.cached_next_token == c0,
                self.logical_position@ == g0,
                identifier@ + scan_operator(s, self.current_position).0 == full.0,
                scan_operator(s, self.current_position).1 == full.1,
            decreases s.len() - self.current_position.character_index,
        {
            let character = self.input_characters[self.current_position.character_index];
            let ghost prev = identifier@;
            identifier.push(character);
            self.advance_position(character);
            proof {
                lemma_push_concat(prev, character, scan_operator(s, self.current_position).0);
            }
        }
        proof {
            assert(identifier@ + Seq::<char>::empty() =~= identifier@);
        }
        TokenKind::Operator(identifier)
    }

    /// Reads a string literal whose opening quote stands at the read head,
    /// decoding the four supported escapes.
    #[verifier::loop_isolation(false)]
    fn parse_string_literal(&mut self) -> (r: Result<TokenKind, TokenizeError>)
        requires
            old(self).current_position.wf(),
            old(self).current_position.character_index < old(self).input_characters@.len(),
            old(self).input_characters@.len() < usize::MAX,
            old(self).input_characters@[old(self).current_position.character_index as int] == '"',
        ensures
            final(self).input_characters == old(self).input_characters,
            final(self).cached_next_token == old(self).cached_next_token,
            final(self).logical_position == old(self).logical_position,
            final(self).current_position.wf(),
            final(self).current_position.character_index <= final(self).input_characters@.len(),
            match scan_string(
                old(self).input_characters@,
                old(self).current_position.advance('"'),
                false,
            ) {
                StringScan::Done(t, e) => (r matches Ok(k) && k@ == TokenKindView::StringLiteral(t))
                    && final(self).current_position == e,
                StringScan::BadEscape(b) => r matches Err(er) && er@
                    == TokenizeErrorView::InvalidEscapeSequence(b),
                StringScan::Unterminated => r matches Err(er) && er@
                    == TokenizeErrorView::UnterminatedStringLiteral,
            },
    {
        let ghost v0 = self.input_characters;
        let ghost s = self.input_characters@;
        let ghost c0 = self.cached_next_token;
        let ghost g0 = self.logical_position@;
        self.advance_position('"');
        let ghost q0 = self.current_position;

        let mut string_content = String::new();
        let mut is_escaped = false;

        loop
            invariant
                self.current_position.wf(),
                self.current_position.character_index <= s.len(),
                self.input_characters == v0,
                self.input_characters@ == s,
                s.len() < usize::MAX,
                self.cached_next_token == c0,
                self.logical_position@ == g0,
                match scan_string(s, self.current_position, is_escaped) {
                    StringScan::Done(t, e) => scan_string(s, q0, false) == StringScan::Done(
                        string_content@ + t,
                        e,
                    ),
                    StringScan::BadEscape(b) => scan_string(s, q0, false) == StringScan::BadEscape(
                        b,
                    ),
                    StringScan::Unterminated => scan_string(s, q0, false)
                        == StringScan::Unterminated,
                },
            decreases s.len() - self.current_position.character_index,
        {
            if !(self.current_position.character_index < self.input_characters.len()) {
                return Err(TokenizeError::UnterminatedStringLiteral);
            }
            let character = self.input_characters[self.current_position.character_index];
            let ghost prev = string_content@;
            self.advance_position(character);
            if is_escaped {
                if character == 'n' {
                    string_content.push('\n');
                    is_escaped = false;
                    proof {
                        if let StringScan::Done(t, e) = scan_string(
                            s,
                            self.current_position,
                            false,
                        ) {
                            lemma_push_concat(prev, '\n', t);
                        }
                    }
                } else if character == 't' {
                    string_content.push('\t');
                    is_escaped = false;
                    proof {
                        if let StringScan::Done(t, e) = scan_string(
                            s,
                            self.current_position,
                            false,
                        ) {
                            lemma_push_concat(prev, '\t', t);
                        }
                    }
                } else if character == '\\' {
                    string_content.push('\\');
                    is_escaped = false;
                    proof {
                        if let StringScan::Done(t, e) = scan_string(
                            s,
                            self.current_position,
                            false,
                        ) {
                            lemma_push_concat(prev, '\\', t);
                        }
                    }
                } else if character == '"' {
                    string_content.push('"');
                    is_escaped = false;
                    proof {
                        if let StringScan::Done(t, e) = scan_string(
                            s,
                            self.current_position,
                            false,
                        ) {
                            lemma_push_concat(prev, '"', t);
                        }
                    }
                } else {
                    return Err(TokenizeError::InvalidEscapeSequence(character));
                }
            } else {
                if character == '\\' {
                    is_escaped = true;
                } else if character == '"' {
                    proof {
                        assert(string_content@ + Seq::<char>::empty() =~= string_content@);
                    }
                    return Ok(TokenKind::StringLiteral(string_content));
                } else {
                    string_content.push(character);
                    proof {
                        if let StringScan::Done(t, e) = scan_string(
                            s,
                            self.current_position,
                            false,
                        ) {
                            lemma_push_concat(prev, character, t);
                        }
                    }
                }
            }
        }
    }

    /// Reads a number literal: a run of digits with at most one decimal
    /// point, kept as its source text.
    #[verifier::loop_isolation(false)]
    fn parse_number_literal(&mut self) -> (r: Result<TokenKind, TokenizeError>)
        requires
            old(self).current_position.wf(),
            old(self).current_position.character_index <= old(self).input_characters@.len(),
            old(self).input_characters@.len() < usize::MAX,
        ensures
            final(self).input_characters == old(self).input_characters,
            final(self).cached_next_token == old(self).cached_next_token,
            final(self).logical_position == old(self).logical_position,
            final(self).current_position.wf(),
            final(self).current_position.character_index <= final(self).input_characters@.len(),
            match scan_number(old(self).input_characters@, old(self).current_position, false) {
                NumberScan::Done(t, e) => (r matches Ok(k) && k@ == TokenKindView::NumberLiteral(t))
                    && final(self).current_position == e,
                NumberScan::ExtraDot => r matches Err(er) && er@
                    == TokenizeErrorView::InvalidNumberFormatMultipleDecimalPoints,
            },
    {
        let ghost v0 = self.input_characters;
        let ghost s = self.input_characters@;
        let ghost p0 = self.current_position;
        let ghost c0 = self.cached_next_token;
        let ghost g0 = self.logical_position@;

        let mut number_string = String::new();
        let mut has_decimal_point = false;

        loop
            invariant
                self.current_position.wf(),
                self.current_position.character_index <= s.len(),
                self.input_characters == v0,
                self.input_characters@ == s,
                s.len() < usize::MAX,
                self.cached_next_token == c0,
                self.logical_position@ == g0,
                match scan_number(s, self.current_position, has_decimal_point) {
                    NumberScan::Done(t, e) => scan_number(s, p0, false) == NumberScan::Done(
                        number_string@ + t,
                        e,
                    ),
                    NumberScan::ExtraDot => scan_number(s, p0, false) == NumberScan::ExtraDot,
                },
            decreases s.len() - self.current_position.character_index,
        {
            if !(self.current_position.character_index < self.input_characters.len()) {
                proof {
                    assert(number_string@ + Seq::<char>::empty() =~= number_string@);
                }
                return Ok(TokenKind::NumberLiteral(number_string));
            }
            let character = self.input_characters[self.current_position.character_index];
            let ghost prev = number_string@;
            if '0' <= character && character <= '9' {
                number_string.push(character);
                self.advance_position(character);
                proof {
                    if let NumberScan::Done(t, e) = scan_number(
                        s,
                        self.current_position,
                        has_decimal_point,
                    ) {
                        lemma_push_concat(prev, character, t);
                    }
                }
            } else if character == '.' && !has_decimal_point {
                has_decimal_point = true;
                number_string.push(character);
                self.advance_position(character);
                proof {
                    if let NumberScan::Done(t, e) = scan_number(s, self.current_position, true) {
                        lemma_push_concat(prev, '.', t);
                    }
                }
            } else if character == '.' {
                return Err(TokenizeError::InvalidNumberFormatMultipleDecimalPoints);
            } else {
                proof {
                    assert(number_string@ + Seq::<char>::empty() =~= number_string@);
                }
                return Ok(TokenKind::NumberLiteral(number_string));
            }
        }
    }

    /// Reads one token straight from the source, bypassing the cache.
    fn read_next_token(&mut self) -> (r: Result<Option<Token>, TokenizeError>)
        requires
            old(self).wf(),
            old(self).cached_next_token is None,
        ensures
            final(self).wf(),
            final(self).src() == old(self).src(),
            final(self).cached_next_token is None,
            match read_token(old(self).src(), old(self).cur()) {
                LexStep::Tok(tv, q) => (r matches Ok(t) && t matches Some(t) && t@ == tv)
                    && final(self).cur() == q,
                LexStep::End(q) => r matches Ok(t) && t is None && final(self).cur() == q,
                LexStep::Fail(e) => r matches Err(er) && er@ == e,
            },
    {
        let ghost s = self.input_characters@;
        let ghost p0 = self.current_position;
        self.skip_whitespace();

        if self.current_position.character_index < self.input_characters.len() {
            let start_position = self.current_position;
            let character = self.input_characters[self.current_position.character_index];
            let kind_result: Result<TokenKind, TokenizeError> = if character == '(' {
                self.advance_position(character);
                Ok(TokenKind::LeftParenthesis)
            } else if character == ')' {
                self.advance_position(character);
                Ok(TokenKind::RightParenthesis)
            } else if character == '{' {
                self.advance_position(character);
                Ok(TokenKind::LeftBrace)
            } else if character == '}' {
                self.advance_position(character);
                Ok(TokenKind::RightBrace)
            } else if character == '[' {
                self.advance_position(character);
                Ok(TokenKind::LeftBracket)
            } else if character == ']' {
                self.advance_position(character);
                Ok(TokenKind::RightBracket)
            } else if character == '.' {
                self.advance_position(character);
                Ok(TokenKind::Dot)
            } else if character == ':' {
                self.advance_position(character);
                Ok(TokenKind::Colon)
            } else if character == ',' {
                self.advance_position(character);
                Ok(TokenKind::Comma)
            } else if character == '"' {
                self.parse_string_literal()
            } else if '0' <= character && character <= '9' {
                self.parse_number_literal()
            } else if is_identifier_char(character) {
                Ok(self.parse_alphanumeric_identifier())
            } else if !is_whitespace_char(character) {
                Ok(self.parse_operator())
            } else {
                Err(TokenizeError::UnexpectedCharacter(character))
            };
            match kind_result {
                Ok(kind) => {
                    let token = Token {
                        kind,
                        span: Span { start: start_position, end: self.current_position },
                    };
                    self.logical_position = Ghost(self.current_position);
                    Ok(Some(token))
                },
                Err(error) => {
                    self.logical_position = Ghost(self.current_position);
                    Err(error)
                },
            }
        } else {
            self.logical_position = Ghost(self.current_position);
            Ok(None)
        }
    }

    /// Returns the next token (or end of input, or a lexical error),
    /// consuming it: the look-ahead cache is drained first.
    pub fn next_token(&mut self) -> (r: Result<Option<Token>, TokenizeError>)
        requires
            old(self).wf(),
        ensures
            final(self).wf(),
            final(self).src() == old(self).src(),
            match read_token(old(self).src(), old(self).cur()) {
                LexStep::Tok(tv, q) => (r matches Ok(t) && t matches Some(t) && t@ == tv)
                    && final(self).cur() == q,
                LexStep::End(q) => r matches Ok(t) && t is None && final(self).cur() == q,
                LexStep::Fail(e) => r matches Err(er) && er@ == e,
            },
    {
        let taken = self.cached_next_token.take();
        match taken {
            Some(token) => {
                self.logical_position = Ghost(self.current_position);
                Ok(Some(token))
            },
            None => self.read_next_token(),
        }
    }

    /// Returns what `next_token` would return, without consuming it:
    /// repeated peeks are idempotent until a `next_token` call.
    pub fn peek_token(&mut self) -> (r: Result<Option<Token>, TokenizeError>)
        requires
            old(self).wf(),
        ensures
            final(self).wf(),
            final(self).src() == old(self).src(),
            match read_token(old(self).src(), old(self).cur()) {
                LexStep::Tok(tv, q) => (r matches Ok(t) && t matches Some(t) && t@ == tv)
                    && final(self).cur() == old(self).cur(),
                LexStep::End(q) => r matches Ok(t) && t is None && final(self).cur() == q,
                LexStep::Fail(e) => r matches Err(er) && er@ == e,
            },
    {
        match &self.cached_next_token {
            Some(token) => {
                return Ok(Some(token.clone()));
            },
            None => {},
        }
        let ghost pre = self.logical_position@;
        match self.read_next_token() {
            Ok(Some(token)) => {
                self.cached_next_token = Some(token.clone());
                self.logical_position = Ghost(pre);
                Ok(Some(token))
            },
            Ok(None) => Ok(None),
            Err(error) => Err(error),
        }
    }
}

/// Whether `c` may continue an identifier: alphanumeric or underscore.
fn is_identifier_char(c: char) -> (r: bool)
    ensures
        r == (alphanumeric(c) || c == '_'),
{
    is_alphanumeric_char(c) || c == '_'
}

/// Whether `c` may continue an operator: neither whitespace nor reserved
/// punctuation.
fn is_operator_char(c: char) -> (r: bool)
    ensures
        r == (!whitespace(c) && !punctuation(c)),
{
    !is_whitespace_char(c) && !(c == '(' || c == ')' || c == '{' || c == '}' || c == '[' || c == ']'
        || c == '.' || c == ':' || c == ',')
}

/// Concatenating sequences of code points is associative.
proof fn lemma_seq_assoc(a: Seq<char>, b: Seq<char>, c: Seq<char>)
    ensures
        (a + b) + c == a + (b + c),
{
    assert((a + b) + c =~= a + (b + c));
}

/// Pushing one code point and then appending `t` is the same as appending
/// the code point's singleton followed by `t`.
proof fn lemma_push_concat(a: Seq<char>, c: char, t: Seq<char>)
    ensures
        a.push(c) + t == a + (seq![c] + t),
{
    assert(a.push(c) =~= a + seq![c]);
    assert((a + seq![c]) + t =~= a + (seq![c] + t));
}

} // verus!
