use vstd::prelude::*;
use crate::lox_value::LoxValue;

verus! {

/// Lexical category of a token.
#[derive(Debug, Clone, Copy, PartialEq, Eq, Structural)]
pub enum TokenType {
    Eof,
    LeftParen,
    RightParen,
    LeftBrace,
    RightBrace,
    Comma,
    Dot,
    Minus,
    Plus,
    Semicolon,
    Star,
    Bang,
    BangEqual,
    Equal,
    EqualEqual,
    Less,
    LessEqual,
    Greater,
    GreaterEqual,
    Slash,
    String,
    Number,
    Identifier,
    Unexpected,
    And,
    Class,
    Else,
    False,
    For,
    Fun,
    If,
    Nil,
    Or,
    Print,
    Return,
    Super,
    This,
    True,
    Var,
    While,
}

/// The token type of a word: the keyword it spells, or `Identifier`.
pub open spec fn keyword_of(s: Seq<char>) -> TokenType {
    if s == "and"@ {
        TokenType::And
    } else if s == "class"@ {
        TokenType::Class
    } else if s == "else"@ {
        TokenType::Else
    } else if s == "false"@ {
        TokenType::False
    } else if s == "for"@ {
        TokenType::For
    } else if s == "fun"@ {
        TokenType::Fun
    } else if s == "if"@ {
        TokenType::If
    } else if s == "nil"@ {
        TokenType::Nil
    } else if s == "or"@ {
        TokenType::Or
    } else if s == "print"@ {
        TokenType::Print
    } else if s == "return"@ {
        TokenType::Return
    } else if s == "super"@ {
        TokenType::Super
    } else if s == "this"@ {
        TokenType::This
    } else if s == "true"@ {
        TokenType::True
    } else if s == "var"@ {
        TokenType::Var
    } else if s == "while"@ {
        TokenType::While
    } else {
        TokenType::Identifier
    }
}

/// Whether `s` spells exactly the characters of `word`.
fn spells(s: &str, word: &str) -> (r: bool)
    ensures
        r == (s@ == word@),
{
    let n = s.unicode_len();
    let m = word.unicode_len();
    if n != m {
        return false;
    }
    let mut i: usize = 0;
    while i < n
        invariant
            n == s@.len(),
            m == word@.len(),
            n == m,
            i <= n,
            forall|j: int| 0 <= j < i ==> s@[j] == word@[j],
        decreases n - i,
    {
        if s.get_char(i) != word.get_char(i) {
            return false;
        }
        i = i + 1;
    }
    assert(s@ =~= word@);
    true
}

/// The keyword that `s` spells, or `Identifier` when it spells none.
pub fn get_keyword(s: &str) -> (r: TokenType)
    ensures
        r == keyword_of(s@),
{
    proof {
        reveal_strlit("and");
        reveal_strlit("class");
        reveal_strlit("else");
        reveal_strlit("false");
        reveal_strlit("for");
        reveal_strlit("fun");
        reveal_strlit("if");
        reveal_strlit("nil");
        reveal_strlit("or");
        reveal_strlit("print");
        reveal_strlit("return");
        reveal_strlit("super");
        reveal_strlit("this");
        reveal_strlit("true");
        reveal_strlit("var");
        reveal_strlit("while");
    }
    if spells(s, "and") {
        TokenType::And
    } else if spells(s, "class") {
        TokenType::Class
    } else if spells(s, "else") {
        TokenType::Else
    } else if spells(s, "false") {
        TokenType::False
    } else if spells(s, "for") {
        TokenType::For
    } else if spells(s, "fun") {
        TokenType::Fun
    } else if spells(s, "if") {
        TokenType::If
    } else if spells(s, "nil") {
        TokenType::Nil
    } else if spells(s, "or") {
        TokenType::Or
    } else if spells(s, "print") {
        TokenType::Print
    } else if spells(s, "return") {
        TokenType::Return
    } else if spells(s, "super") {
        TokenType::Super
    } else if spells(s, "this") {
        TokenType::This
    } else if spells(s, "true") {
        TokenType::True
    } else if spells(s, "var") {
        TokenType::Var
    } else if spells(s, "while") {
        TokenType::While
    } else {
        TokenType::Identifier
    }
}

/// A token: its kind, its text, its literal value (for strings and
/// numbers), its line, and its position in the source, which identifies it.
#[derive(Debug)]
pub struct Token {
    pub lexeme: String,
    pub line: usize,
    pub position: usize,
    pub literal: LoxValue,
    pub token_type: TokenType,
}

impl Token {
    /// A copy of this token.
    pub fn duplicate(&self) -> (r: Token)
        ensures
            r == *self,
    {
        Token {
            lexeme: self.lexeme.clone(),
            line: self.line,
            position: self.position,
            literal: self.literal.duplicate(),
            token_type: self.token_type,
        }
    }
}

} // verus!
