use vstd::prelude::*;
use crate::lox_value::LoxValue;
use crate::parser::stream_ok;
use crate::token::{get_keyword, keyword_of, Token, TokenType};

verus! {

/// Whether `c` is a decimal digit.
pub open spec fn digit(c: char) -> bool {
    '0' <= c && c <= '9'
}

/// Whether `c` may start an identifier.
pub open spec fn alpha(c: char) -> bool {
    ('a' <= c && c <= 'z') || ('A' <= c && c <= 'Z') || c == '_'
}

/// Whether `c` is a decimal digit.
pub fn is_digit(c: char) -> (r: bool)
    ensures
        r == digit(c),
{
    '0' <= c && c <= '9'
}

/// Whether `c` is a letter or an underscore.
pub fn is_alpha(c: char) -> (r: bool)
    ensures
        r == alpha(c),
{
    ('a' <= c && c <= 'z') || ('A' <= c && c <= 'Z') || c == '_'
}

/// Whether `c` may continue an identifier.
pub fn is_alphanumeric(c: char) -> (r: bool)
    ensures
        r == (alpha(c) || digit(c)),
{
    is_alpha(c) || is_digit(c)
}

/// A lexical error: the line and a message.
#[derive(Debug)]
pub struct ScanError {
    pub line: usize,
    pub message: String,
}

/// The token spells the source text at its position.
pub open spec fn spells_source(src: Seq<char>, t: Token) -> bool {
    t.position + t.lexeme@.len() <= src.len()
        && t.lexeme@ == src.subrange(t.position as int, t.position + t.lexeme@.len())
}

/// A word token carries the kind its text spells.
pub open spec fn kinded(t: Token) -> bool {
    t.lexeme@.len() > 0 && alpha(t.lexeme@[0]) ==> t.token_type == keyword_of(t.lexeme@)
}

/// A string token carries its text without the quotes, a number token a
/// number, every other token nil.
pub open spec fn literal_fits(t: Token) -> bool {
    if t.token_type == TokenType::String {
        t.literal matches LoxValue::String(v) && t.lexeme@.len() >= 2 && v@ == t.lexeme@.subrange(1, t.lexeme@.len() - 1)
    } else if t.token_type == TokenType::Number {
        t.literal is Number
    } else {
        t.literal is Nil
    }
}

/// Every token spells the source text at its position and carries the
/// literal its kind calls for, and every word token carries the kind its
/// text spells.
pub open spec fn faithful(src: Seq<char>, tokens: Seq<Token>) -> bool {
    forall|i: int| 0 <= i < tokens.len() ==> spells_source(src, #[trigger] tokens[i]) && kinded(tokens[i])
        && literal_fits(tokens[i])
}

/// The model of a token: kind, text, position, line, and for a string the
/// characters between its quotes.
pub struct TokV {
    pub kind: TokenType,
    pub lexeme: Seq<char>,
    pub position: int,
    pub line: int,
    pub text: Seq<char>,
}

pub open spec fn tok_model(t: Token) -> TokV {
    TokV {
        kind: t.token_type,
        lexeme: t.lexeme@,
        position: t.position as int,
        line: t.line as int,
        text: match t.literal {
            LoxValue::String(v) => v@,
            _ => Seq::empty(),
        },
    }
}

pub open spec fn tok_models(s: Seq<Token>) -> Seq<TokV> {
    s.map_values(|t: Token| tok_model(t))
}

/// The next line number (it stays put at the largest one).
pub open spec fn bump(line: int) -> int {
    if line < usize::MAX {
        line + 1
    } else {
        line
    }
}

/// The index of the first `"` at or after `i`, or the length.
pub open spec fn string_close(src: Seq<char>, i: int) -> int
    decreases src.len() - i,
{
    if i < 0 || i >= src.len() {
        src.len() as int
    } else if src[i] == '"' {
        i
    } else {
        string_close(src, i + 1)
    }
}

proof fn lemma_string_close_bounds(src: Seq<char>, i: int)
    requires
        0 <= i <= src.len(),
    ensures
        i <= string_close(src, i) <= src.len(),
    decreases src.len() - i,
{
    if i < src.len() && src[i] != '"' {
        lemma_string_close_bounds(src, i + 1);
    }
}

/// The line number after the newlines in `src[i..j]`.
pub open spec fn lines_in(src: Seq<char>, i: int, j: int, line: int) -> int
    decreases j - i,
{
    if i < 0 || i >= j || i >= src.len() {
        line
    } else {
        lines_in(src, i + 1, j, if src[i] == '\n' { bump(line) } else { line })
    }
}

/// The end of the run of characters from `i` on that satisfy `digits`
/// (decimal digits) or else may continue an identifier.
pub open spec fn run_end(src: Seq<char>, i: int, digits: bool) -> int
    decreases src.len() - i,
{
    if i < 0 || i >= src.len() {
        src.len() as int
    } else if (digits && digit(src[i])) || (!digits && (alpha(src[i]) || digit(src[i]))) {
        run_end(src, i + 1, digits)
    } else {
        i
    }
}

proof fn lemma_run_end_bounds(src: Seq<char>, i: int, digits: bool)
    requires
        0 <= i <= src.len(),
    ensures
        i <= run_end(src, i, digits) <= src.len(),
    decreases src.len() - i,
{
    if i < src.len() && ((digits && digit(src[i])) || (!digits && (alpha(src[i]) || digit(src[i])))) {
        lemma_run_end_bounds(src, i + 1, digits);
    }
}

proof fn lemma_comment_end_bounds(src: Seq<char>, i: int)
    requires
        0 <= i <= src.len(),
    ensures
        i <= comment_end(src, i) <= src.len(),
    decreases src.len() - i,
{
    if i < src.len() && src[i] != '\n' {
        lemma_comment_end_bounds(src, i + 1);
    }
}

/// The end of a number whose first digit ends at `i`: more digits, then a
/// fraction when a digit follows the dot.
pub open spec fn number_end(src: Seq<char>, i: int) -> int {
    let a = run_end(src, i, true);
    if a + 1 < src.len() && src[a] == '.' && digit(src[a + 1]) {
        run_end(src, a + 1, true)
    } else {
        a
    }
}

/// The index of the first newline at or after `i`, or the length.
pub open spec fn comment_end(src: Seq<char>, i: int) -> int
    decreases src.len() - i,
{
    if i < 0 || i >= src.len() {
        src.len() as int
    } else if src[i] == '\n' {
        i
    } else {
        comment_end(src, i + 1)
    }
}

/// The kind of a one-character token.
pub open spec fn single_kind(c: char) -> Option<TokenType> {
    if c == '(' { Some(TokenType::LeftParen) }
    else if c == ')' { Some(TokenType::RightParen) }
    else if c == '{' { Some(TokenType::LeftBrace) }
    else if c == '}' { Some(TokenType::RightBrace) }
    else if c == ',' { Some(TokenType::Comma) }
    else if c == '.' { Some(TokenType::Dot) }
    else if c == '-' { Some(TokenType::Minus) }
    else if c == '+' { Some(TokenType::Plus) }
    else if c == ';' { Some(TokenType::Semicolon) }
    else if c == '*' { Some(TokenType::Star) }
    else { None }
}

/// The kinds of `c` alone and of `c` followed by `=`.
pub open spec fn pair_kinds(c: char) -> Option<(TokenType, TokenType)> {
    if c == '!' { Some((TokenType::Bang, TokenType::BangEqual)) }
    else if c == '=' { Some((TokenType::Equal, TokenType::EqualEqual)) }
    else if c == '<' { Some((TokenType::Less, TokenType::LessEqual)) }
    else if c == '>' { Some((TokenType::Greater, TokenType::GreaterEqual)) }
    else { None }
}

pub open spec fn plain(src: Seq<char>, k: TokenType, start: int, end: int, line: int) -> TokV {
    TokV { kind: k, lexeme: src.subrange(start, end), position: start, line, text: Seq::empty() }
}

/// One step of scanning from `cur` (inside the text): the position and line
/// after it and the tokens with what it adds, or the line of an
/// unterminated string.
pub open spec fn step_g(src: Seq<char>, cur: int, line: int, acc: Seq<TokV>) -> Result<(int, int, Seq<TokV>), int> {
    let c = src[cur];
    let n = cur + 1;
    if single_kind(c) is Some {
        Ok((n, line, acc.push(plain(src, single_kind(c).unwrap(), cur, n, line))))
    } else if pair_kinds(c) is Some {
        let (one, two) = pair_kinds(c).unwrap();
        if n < src.len() && src[n] == '=' {
            Ok((n + 1, line, acc.push(plain(src, two, cur, n + 1, line))))
        } else {
            Ok((n, line, acc.push(plain(src, one, cur, n, line))))
        }
    } else if c == '/' {
        if n < src.len() && src[n] == '/' {
            Ok((comment_end(src, n + 1), line, acc))
        } else {
            Ok((n, line, acc.push(plain(src, TokenType::Slash, cur, n, line))))
        }
    } else if c == '"' {
        let close = string_close(src, n);
        let l2 = lines_in(src, n, close, line);
        if close >= src.len() {
            Err(l2)
        } else {
            Ok((close + 1, l2, acc.push(TokV {
                kind: TokenType::String,
                lexeme: src.subrange(cur, close + 1),
                position: cur,
                line: l2,
                text: src.subrange(n, close),
            })))
        }
    } else if c == ' ' || c == '\r' || c == '\t' {
        Ok((n, line, acc))
    } else if c == '\n' {
        Ok((n, bump(line), acc))
    } else if digit(c) {
        let e = number_end(src, n);
        Ok((e, line, acc.push(plain(src, TokenType::Number, cur, e, line))))
    } else if alpha(c) {
        let e = run_end(src, n, false);
        Ok((e, line, acc.push(plain(src, keyword_of(src.subrange(cur, e)), cur, e, line))))
    } else {
        Ok((n, line, acc.push(plain(src, TokenType::Unexpected, cur, n, line))))
    }
}

/// The tokens of `src` from `cur` on, after those in `acc`, ending with
/// `Eof`; or the line of an unterminated string.
pub open spec fn scan_g(src: Seq<char>, cur: int, line: int, acc: Seq<TokV>) -> Result<Seq<TokV>, int>
    decreases src.len() - cur,
{
    if cur < 0 || cur >= src.len() {
        Ok(acc.push(TokV { kind: TokenType::Eof, lexeme: Seq::empty(), position: cur, line, text: Seq::empty() }))
    } else {
        match step_g(src, cur, line, acc) {
            Err(l) => Err(l),
            Ok((c2, l2, a2)) => if c2 <= cur || c2 > src.len() {
                Err(l2)
            } else {
                scan_g(src, c2, l2, a2)
            },
        }
    }
}

proof fn lemma_models_push(s: Seq<Token>, t: Token)
    ensures
        tok_models(s.push(t)) == tok_models(s).push(tok_model(t)),
{
    assert(tok_models(s.push(t)) =~= tok_models(s).push(tok_model(t)));
}

/// The tokens of a whole text, or the line of an unterminated string.
pub open spec fn tokenize(src: Seq<char>) -> Result<Seq<TokV>, int> {
    scan_g(src, 0, 1, Seq::empty())
}

/// A number token carries what `number` gave for its text.
pub open spec fn number_from<G: Fn(&str) -> u64>(number: &G, t: Token) -> bool {
    t.token_type == TokenType::Number ==> (t.literal is Number
        && exists|s: &str| s@ == t.lexeme@ && #[trigger] number.ensures((s,), t.literal->Number_0))
}

/// Every number token carries what `number` gave for its text.
pub open spec fn numbers_from<G: Fn(&str) -> u64>(number: &G, ts: Seq<Token>) -> bool {
    forall|i: int| 0 <= i < ts.len() ==> number_from(number, #[trigger] ts[i])
}

proof fn lemma_numbers_extend<G: Fn(&str) -> u64>(number: &G, old_ts: Seq<Token>, new_ts: Seq<Token>)
    requires
        numbers_from(number, old_ts),
        new_ts == old_ts || (new_ts.len() == old_ts.len() + 1 && new_ts.drop_last() == old_ts
            && number_from(number, new_ts.last())),
    ensures
        numbers_from(number, new_ts),
{
    if new_ts != old_ts {
        assert forall|i: int| 0 <= i < new_ts.len() implies number_from(number, #[trigger] new_ts[i]) by {
            if i < old_ts.len() {
                assert(new_ts[i] == new_ts.drop_last()[i]);
            }
        }
    }
}

/// Turns source text into tokens.
pub struct Scanner {
    source: String,
    pub tokens: Vec<Token>,
    start: usize,
    current: usize,
    line: usize,
    length: usize,
}

impl Scanner {
    /// The source text.
    pub closed spec fn text(&self) -> Seq<char> {
        self.source@
    }

    /// The tokens scanned so far.
    pub closed spec fn scanned(&self) -> Seq<Token> {
        self.tokens@
    }

    /// The scanner's positions lie within the text, and the tokens so far
    /// are faithful to it.
    pub closed spec fn ready(&self) -> bool {
        &&& self.length == self.source@.len()
        &&& self.start <= self.current <= self.length
        &&& faithful(self.source@, self.tokens@)
    }

    /// Nothing has been scanned yet.
    pub closed spec fn fresh(&self) -> bool {
        self.current == 0 && self.start == 0 && self.line == 1 && self.tokens@.len() == 0
    }

    /// A scanner at the start of `source`.
    pub fn new(source: String) -> (r: Scanner)
        ensures
            r.text() == source@,
            r.scanned().len() == 0,
            r.ready(),
            r.fresh(),
    {
        let length = source.as_str().unicode_len();
        Scanner { source, tokens: Vec::new(), start: 0, current: 0, line: 1, length }
    }

    fn is_at_end(&self) -> (r: bool)
        requires
            self.ready(),
        ensures
            r == (self.current >= self.length),
    {
        self.current >= self.length
    }

    fn advance(&mut self) -> (c: char)
        requires
            old(self).ready(),
            old(self).current < old(self).length,
        ensures
            final(self).ready(),
            c == old(self).source@[old(self).current as int],
            final(self).current == old(self).current + 1,
            final(self).start == old(self).start,
            final(self).line == old(self).line,
            final(self).source == old(self).source,
            final(self).tokens == old(self).tokens,
    {
        let c = self.source.as_str().get_char(self.current);
        self.current = self.current + 1;
        c
    }

    fn peek(&self) -> (c: char)
        requires
            self.ready(),
        ensures
            self.current < self.length ==> c == self.source@[self.current as int],
            self.current >= self.length ==> c == '\0',
    {
        if self.is_at_end() {
            '\0'
        } else {
            self.source.as_str().get_char(self.current)
        }
    }

    fn peek_next(&self) -> (c: char)
        requires
            self.ready(),
        ensures
            self.current + 1 < self.length ==> c == self.source@[self.current + 1],
            self.current + 1 >= self.length ==> c == '\0',
    {
        if self.current >= self.length || self.current + 1 >= self.length {
            '\0'
        } else {
            self.source.as_str().get_char(self.current + 1)
        }
    }

    fn match_char(&mut self, expected: char) -> (r: bool)
        requires
            old(self).ready(),
        ensures
            final(self).ready(),
            final(self).current == old(self).current + if r { 1int } else { 0int },
            r == (old(self).current < old(self).length && old(self).source@[old(self).current as int] == expected),
            final(self).start == old(self).start,
            final(self).line == old(self).line,
            final(self).source == old(self).source,
            final(self).tokens == old(self).tokens,
    {
        if self.is_at_end() {
            return false;
        }
        if self.source.as_str().get_char(self.current) != expected {
            return false;
        }
        self.current = self.current + 1;
        true
    }

    fn add_token(&mut self, t: TokenType, literal: LoxValue)
        requires
            old(self).ready(),
            old(self).start < old(self).current,
            t == keyword_of(old(self).source@.subrange(old(self).start as int, old(self).current as int))
                || !alpha(old(self).source@[old(self).start as int]),
            if t == TokenType::String {
                literal matches LoxValue::String(v) && old(self).current - old(self).start >= 2
                    && v@ == old(self).source@.subrange(old(self).start + 1, old(self).current - 1)
            } else if t == TokenType::Number {
                literal is Number
            } else {
                literal is Nil
            },
        ensures
            final(self).ready(),
            final(self).current == old(self).current,
            final(self).start == old(self).start,
            final(self).line == old(self).line,
            final(self).source == old(self).source,
            final(self).tokens@.len() == old(self).tokens@.len() + 1,
            final(self).tokens@.drop_last() == old(self).tokens@,
            final(self).tokens@.last().token_type == t,
            final(self).tokens@.last().literal == literal,
            final(self).tokens@.last().lexeme@ == old(self).source@.subrange(old(self).start as int, old(self).current as int),
            tok_models(final(self).tokens@) == tok_models(old(self).tokens@).push(TokV {
                kind: t,
                lexeme: old(self).source@.subrange(old(self).start as int, old(self).current as int),
                position: old(self).start as int,
                line: old(self).line as int,
                text: match literal {
                    LoxValue::String(v) => v@,
                    _ => Seq::empty(),
                },
            }),
    {
        let lexeme = String::from_str(self.source.as_str().substring_char(self.start, self.current));
        let token = Token { lexeme, line: self.line, position: self.start, literal, token_type: t };
        assert(token.lexeme@[0] == self.source@[self.start as int]);
        if self.current - self.start >= 2 {
            assert(token.lexeme@.subrange(1, token.lexeme@.len() - 1) =~= self.source@.subrange(self.start + 1, self.current - 1));
        }
        proof { lemma_models_push(self.tokens@, token); }
        self.tokens.push(token);
        assert(forall|i: int| 0 <= i < self.tokens@.len() - 1 ==> self.tokens@[i] == old(self).tokens@[i]);
        assert(self.tokens@.drop_last() =~= old(self).tokens@);
    }

    fn string(&mut self) -> (r: Result<(), ScanError>)
        requires
            old(self).ready(),
            old(self).start < old(self).current,
            old(self).source@[old(self).start as int] == '"',
            old(self).current == old(self).start + 1,
        ensures
            final(self).ready(),
            final(self).current >= old(self).current,
            final(self).start == old(self).start,
            final(self).source == old(self).source,
            r matches Err(e) ==> e.message@ == "Unterminated string."@,
            r is Err ==> final(self).tokens == old(self).tokens,
            r is Ok ==> final(self).tokens@.drop_last() == old(self).tokens@
                && final(self).tokens@.len() == old(self).tokens@.len() + 1
                && final(self).tokens@.last().token_type == TokenType::String,
            ({
                let src = old(self).source@;
                let n = old(self).current as int;
                let close = string_close(src, n);
                let l2 = lines_in(src, n, close, old(self).line as int);
                if close >= src.len() {
                    r matches Err(e) && e.line as int == l2
                } else {
                    r is Ok && final(self).current == close + 1 && final(self).line == l2
                        && tok_models(final(self).tokens@) == tok_models(old(self).tokens@).push(TokV {
                            kind: TokenType::String,
                            lexeme: src.subrange(old(self).start as int, close + 1),
                            position: old(self).start as int,
                            line: l2,
                            text: src.subrange(n, close),
                        })
                }
            }),
    {
        let ghost src = self.source@;
        let ghost n = self.current as int;
        let ghost close = string_close(src, n);
        let ghost l0 = self.line as int;
        proof { lemma_string_close_bounds(src, n); }
        while self.peek() != '"' && !self.is_at_end()
            invariant
                self.ready(),
                self.start < self.current,
                self.start == old(self).start,
                self.current >= old(self).current,
                self.source == old(self).source,
                self.tokens == old(self).tokens,
                src == self.source@,
                n == old(self).current,
                close == string_close(src, n),
                l0 == old(self).line,
                string_close(src, self.current as int) == close,
                self.current <= close,
                lines_in(src, n, close, l0) == lines_in(src, self.current as int, close, self.line as int),
            decreases self.length - self.current,
        {
            proof { lemma_string_close_bounds(src, self.current + 1); }
            let c = self.advance();
            if c == '\n' && self.line < usize::MAX {
                self.line = self.line + 1;
            }
        }
        if self.is_at_end() {
            proof { reveal_strlit("Unterminated string."); }
            return Err(ScanError { line: self.line, message: String::from_str("Unterminated string.") });
        }
        self.advance();
        let value = String::from_str(self.source.as_str().substring_char(self.start + 1, self.current - 1));
        self.add_token(TokenType::String, LoxValue::String(value));
        Ok(())
    }

    fn number<G: Fn(&str) -> u64>(&mut self, number: &G)
        requires
            old(self).ready(),
            old(self).current == old(self).start + 1,
            digit(old(self).source@[old(self).start as int]),
            forall|s: &str| #[trigger] number.requires((s,)),
        ensures
            final(self).ready(),
            final(self).current >= old(self).current,
            final(self).start == old(self).start,
            final(self).source == old(self).source,
            final(self).line == old(self).line,
            final(self).current == number_end(old(self).source@, old(self).current as int),
            final(self).tokens@.drop_last() == old(self).tokens@,
            final(self).tokens@.len() == old(self).tokens@.len() + 1,
            number_from(number, final(self).tokens@.last()),
            tok_models(final(self).tokens@) == tok_models(old(self).tokens@).push(plain(
                old(self).source@,
                TokenType::Number,
                old(self).start as int,
                final(self).current as int,
                old(self).line as int,
            )),
    {
        let ghost src = self.source@;
        let ghost n = self.current as int;
        proof { lemma_run_end_bounds(src, n, true); }
        while is_digit(self.peek())
            invariant
                self.ready(),
                self.start < self.current,
                self.start == old(self).start,
                self.current >= old(self).current,
                self.source == old(self).source,
                self.tokens == old(self).tokens,
                self.line == old(self).line,
                src == self.source@,
                n == old(self).current,
                run_end(src, n, true) == run_end(src, self.current as int, true),
                self.current <= run_end(src, n, true),
            decreases self.length - self.current,
        {
            proof { lemma_run_end_bounds(src, self.current + 1, true); }
            self.advance();
        }
        let ghost a = self.current as int;
        if self.peek() == '.' && is_digit(self.peek_next()) {
            self.advance();
            proof { lemma_run_end_bounds(src, a + 1, true); }
            while is_digit(self.peek())
                invariant
                    self.ready(),
                    self.start < self.current,
                    self.start == old(self).start,
                    self.current >= old(self).current,
                    self.source == old(self).source,
                    self.tokens == old(self).tokens,
                    self.line == old(self).line,
                    src == self.source@,
                    run_end(src, a + 1, true) == run_end(src, self.current as int, true),
                    self.current <= run_end(src, a + 1, true),
                decreases self.length - self.current,
            {
                proof { lemma_run_end_bounds(src, self.current + 1, true); }
                self.advance();
            }
        }
        let text = self.source.as_str().substring_char(self.start, self.current);
        let bits = number(text);
        self.add_token(TokenType::Number, LoxValue::Number(bits));
        assert(text@ == self.tokens@.last().lexeme@ && number.ensures((text,), bits));
        assert(exists|w: &str| w@ == self.tokens@.last().lexeme@ && #[trigger] number.ensures((w,), bits));
        assert(self.tokens@.last().literal == LoxValue::Number(bits));
        let ghost last = self.tokens@.last();
        assert(last.literal is Number);
        assert(last.literal->Number_0 == bits);
        assert(exists|w: &str| w@ == last.lexeme@ && #[trigger] number.ensures((w,), last.literal->Number_0));
        assert(last.token_type == TokenType::Number);
        assert(number_from(number, last));
    }

    fn scan_token<G: Fn(&str) -> u64>(&mut self, number: &G) -> (r: Result<(), ScanError>)
        requires
            numbers_from(number, old(self).tokens@),
            old(self).ready(),
            old(self).start == old(self).current,
            old(self).current < old(self).length,
            forall|s: &str| #[trigger] number.requires((s,)),
        ensures
            final(self).ready(),
            final(self).current > old(self).current,
            final(self).source == old(self).source,
            r matches Err(e) ==> e.message@ == "Unterminated string."@
                && old(self).source@[old(self).start as int] == '"',
            match step_g(old(self).source@, old(self).current as int, old(self).line as int, tok_models(old(self).tokens@)) {
                Ok((c, l, a)) => r is Ok && final(self).current == c && final(self).line == l
                    && tok_models(final(self).tokens@) == a,
                Err(l) => r matches Err(e) && e.line == l,
            },
            numbers_from(number, final(self).tokens@),
    {
        let ghost src = self.source@;
        let c = self.advance();
        if c == '(' {
            self.add_token(TokenType::LeftParen, LoxValue::Nil);
        } else if c == ')' {
            self.add_token(TokenType::RightParen, LoxValue::Nil);
        } else if c == '{' {
            self.add_token(TokenType::LeftBrace, LoxValue::Nil);
        } else if c == '}' {
            self.add_token(TokenType::RightBrace, LoxValue::Nil);
        } else if c == ',' {
            self.add_token(TokenType::Comma, LoxValue::Nil);
        } else if c == '.' {
            self.add_token(TokenType::Dot, LoxValue::Nil);
        } else if c == '-' {
            self.add_token(TokenType::Minus, LoxValue::Nil);
        } else if c == '+' {
            self.add_token(TokenType::Plus, LoxValue::Nil);
        } else if c == ';' {
            self.add_token(TokenType::Semicolon, LoxValue::Nil);
        } else if c == '*' {
            self.add_token(TokenType::Star, LoxValue::Nil);
        } else if c == '!' {
            let t = if self.match_char('=') { TokenType::BangEqual } else { TokenType::Bang };
            self.add_token(t, LoxValue::Nil);
        } else if c == '=' {
            let t = if self.match_char('=') { TokenType::EqualEqual } else { TokenType::Equal };
            self.add_token(t, LoxValue::Nil);
        } else if c == '<' {
            let t = if self.match_char('=') { TokenType::LessEqual } else { TokenType::Less };
            self.add_token(t, LoxValue::Nil);
        } else if c == '>' {
            let t = if self.match_char('=') { TokenType::GreaterEqual } else { TokenType::Greater };
            self.add_token(t, LoxValue::Nil);
        } else if c == '/' {
            if self.match_char('/') {
                let ghost from = self.current as int;
                proof { lemma_comment_end_bounds(src, from); }
                while self.peek() != '\n' && !self.is_at_end()
                    invariant
                        self.ready(),
                        self.current > old(self).current,
                        self.source == old(self).source,
                        self.tokens == old(self).tokens,
                        self.line == old(self).line,
                        src == self.source@,
                        from == old(self).current + 2,
                        comment_end(src, from) == comment_end(src, self.current as int),
                        self.current <= comment_end(src, from),
                    decreases self.length - self.current,
                {
                    proof { lemma_comment_end_bounds(src, self.current + 1); }
                    self.advance();
                }
            } else {
                self.add_token(TokenType::Slash, LoxValue::Nil);
            }
        } else if c == '"' {
            let r = self.string();
            proof { lemma_numbers_extend(number, old(self).tokens@, self.tokens@); }
            return r;
        } else if c == ' ' || c == '\r' || c == '\t' {
        } else if c == '\n' {
            if self.line < usize::MAX {
                self.line = self.line + 1;
            }
        } else if is_digit(c) {
            self.number(number);
        } else if is_alpha(c) {
            proof { lemma_run_end_bounds(src, self.current as int, false); }
            while is_alphanumeric(self.peek())
                invariant
                    self.ready(),
                    self.start < self.current,
                    self.start == old(self).start,
                    self.current > old(self).current,
                    self.source == old(self).source,
                    self.tokens == old(self).tokens,
                    self.line == old(self).line,
                    src == self.source@,
                    run_end(src, old(self).current + 1, false) == run_end(src, self.current as int, false),
                    self.current <= run_end(src, old(self).current + 1, false),
                decreases self.length - self.current,
            {
                proof { lemma_run_end_bounds(src, self.current + 1, false); }
                self.advance();
            }
            let text = self.source.as_str().substring_char(self.start, self.current);
            let t = get_keyword(text);
            self.add_token(t, LoxValue::Nil);
        } else {
            self.add_token(TokenType::Unexpected, LoxValue::Nil);
        }
        proof { lemma_numbers_extend(number, old(self).tokens@, self.tokens@); }
        Ok(())
    }

    /// Scans the whole text.  On success the tokens end with `Eof`, each
    /// other token spells the text at its position, and each word token
    /// carries the kind its text spells.
    pub fn scan_tokens<G: Fn(&str) -> u64>(&mut self, number: &G) -> (r: Result<(), ScanError>)
        requires
            old(self).ready(),
            old(self).fresh(),
            forall|s: &str| #[trigger] number.requires((s,)),
        ensures
            match tokenize(old(self).text()) {
                Ok(ts) => r is Ok && tok_models(final(self).scanned()) == ts,
                Err(l) => r matches Err(e) && e.line == l,
            },
            r is Ok ==> numbers_from(number, final(self).scanned()),
            final(self).text() == old(self).text(),
            r is Ok ==> stream_ok(final(self).scanned()),
            r is Ok ==> faithful(final(self).text(), final(self).scanned().drop_last()),
            r matches Err(e) ==> e.message@ == "Unterminated string."@
                && exists|i: int| 0 <= i < old(self).text().len() && old(self).text()[i] == '"',
    {
        assert(tok_models(self.tokens@) =~= Seq::<TokV>::empty());
        while !self.is_at_end()
            invariant
                self.ready(),
                self.source == old(self).source,
                forall|s: &str| #[trigger] number.requires((s,)),
                tokenize(old(self).text()) == scan_g(self.source@, self.current as int, self.line as int, tok_models(self.tokens@)),
                numbers_from(number, self.tokens@),
            decreases self.length - self.current,
        {
            self.start = self.current;
            let ghost at = self.start as int;
            match self.scan_token(number) {
                Ok(_) => {},
                Err(x) => {
                    assert(0 <= at < self.source@.len() && self.source@[at] == '"');
                    assert(old(self).text() == self.source@);
                    assert(0 <= at < old(self).text().len() && old(self).text()[at] == '"');
                    return Err(x);
                },
            }
        }
        let ghost before = self.tokens@;
        let end = Token { token_type: TokenType::Eof, lexeme: String::new(), literal: LoxValue::Nil, position: self.current, line: self.line };
        proof { lemma_models_push(self.tokens@, end); }
        let ghost before = self.tokens@;
        self.tokens.push(end);
        assert(forall|i: int| 0 <= i < before.len() ==> self.tokens@[i] == before[i]);
        assert(self.tokens@.drop_last() =~= before);
        Ok(())
    }
}

} // verus!
