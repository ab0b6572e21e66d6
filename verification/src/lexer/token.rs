//! Tokens produced by the lexer: a kind, the covered span, and the
//! literal text of the lexeme.

use vstd::prelude::*;
use crate::lexical_span::LexicalSpan;
use crate::parser::parser_error::{end_of_input, spec_eoi_error, ParserError};

verus! {

/// The closed set of token kinds the lexer can produce.
#[derive(Debug, Clone, Copy, Ord, PartialOrd, Eq, PartialEq, Hash, Structural)]
pub enum Kind {
    LParen,
    RParen,
    Text,
    Number,
    Equals,
    Eoi,
}

/// The human-readable name of a token kind, as it appears inside error
/// messages.
pub open spec fn spec_kind_name(k: Kind) -> Seq<char> {
    match k {
        Kind::LParen => "\"Left Parenthesis\""@,
        Kind::RParen => "\"Right Parenthesis\""@,
        Kind::Text => "\"Text\""@,
        Kind::Number => "\"Number\""@,
        Kind::Equals => "\"Equals\""@,
        Kind::Eoi => "\"End of Input\""@,
    }
}

impl Kind {
    /// The name used when an error message speaks about this kind.
    pub fn name(&self) -> (r: String)
        ensures
            r@ == spec_kind_name(*self),
    {
        match self {
            Kind::LParen => String::from_str("\"Left Parenthesis\""),
            Kind::RParen => String::from_str("\"Right Parenthesis\""),
            Kind::Text => String::from_str("\"Text\""),
            Kind::Number => String::from_str("\"Number\""),
            Kind::Equals => String::from_str("\"Equals\""),
            Kind::Eoi => String::from_str("\"End of Input\""),
        }
    }
}

/// The mathematical content of a token.
pub struct TokenView {
    pub kind: Kind,
    pub span: LexicalSpan,
    pub lexeme: Seq<char>,
}

#[derive(Debug, Hash)]
pub struct Token {
    kind: Kind,
    span: LexicalSpan,
    lexeme: String,
}

impl View for Token {
    type V = TokenView;

    closed spec fn view(&self) -> TokenView {
        TokenView { kind: self.kind, span: self.span, lexeme: self.lexeme@ }
    }
}

impl Clone for Token {
    /// A copy with the same content.
    fn clone(&self) -> (r: Token)
        ensures
            r@ == self@,
    {
        Token { kind: self.kind, span: self.span, lexeme: self.lexeme.clone() }
    }
}

impl PartialEq for Token {
    fn eq(&self, other: &Token) -> (r: bool)
        ensures
            r == (self@ == other@),
    {
        let r = self.kind == other.kind && self.span == other.span && self.lexeme
            == other.lexeme;
        proof {
            if r {
                assert(self@ == other@);
            }
        }
        r
    }
}

impl Eq for Token {

}

impl vstd::std_specs::cmp::PartialEqSpecImpl for Token {
    open spec fn obeys_eq_spec() -> bool {
        true
    }

    open spec fn eq_spec(&self, other: &Token) -> bool {
        self@ == other@
    }
}

/// A character that may open a binding key: an ASCII letter or an
/// underscore. Identifier classes are deliberately ASCII: a key holding
/// any other letter is rejected.
pub open spec fn spec_is_ident_start(c: char) -> bool {
    (97 <= (c as u32) && (c as u32) <= 122) || (65 <= (c as u32) && (c as u32) <= 90) || c
        == '_'
}

/// A character that may continue a binding key: an ASCII letter, an ASCII
/// digit or an underscore.
pub open spec fn spec_is_ident_cont(c: char) -> bool {
    spec_is_ident_start(c) || (48 <= (c as u32) && (c as u32) <= 57)
}

fn is_ident_start(c: char) -> (r: bool)
    ensures
        r == spec_is_ident_start(c),
{
    let v = c as u32;
    (97 <= v && v <= 122) || (65 <= v && v <= 90) || c == '_'
}

fn is_ident_cont(c: char) -> (r: bool)
    ensures
        r == spec_is_ident_cont(c),
{
    let v = c as u32;
    is_ident_start(c) || (48 <= v && v <= 57)
}

/// The first position at or after `i` where the text stops being a valid
/// identifier, if any: position 0 must hold an identifier-start
/// character, every later one an identifier-continue character.
pub open spec fn spec_first_invalid(s: Seq<char>, i: int) -> Option<int>
    decreases s.len() - i,
{
    if i < 0 || i >= s.len() {
        None
    } else if (if i == 0 {
        !spec_is_ident_start(s[0])
    } else {
        !spec_is_ident_cont(s[i])
    }) {
        Some(i)
    } else {
        spec_first_invalid(s, i + 1)
    }
}

/// Where `invalid_identifier_char_index` finds fault with a token used as
/// a binding key: position 0 for any non-`Text` token, else the first
/// character that identifiers do not allow.
pub open spec fn spec_invalid_index(t: TokenView) -> Option<int> {
    if t.kind != Kind::Text {
        Some(0)
    } else {
        spec_first_invalid(t.lexeme, 0)
    }
}

/// A token as the lexer builds it: its span covers exactly its lexeme.
pub open spec fn spec_token_wf(t: TokenView) -> bool {
    t.span.spec_start() + t.lexeme.len() == t.span.spec_end()
}

/// The synthetic token that stands for the end of the input.
pub open spec fn spec_eoi_token(at: int) -> TokenView {
    TokenView {
        kind: Kind::Eoi,
        span: LexicalSpan {
            start: at as usize,
            end: if at + 1 <= usize::MAX {
                (at + 1) as usize
            } else {
                at as usize
            },
        },
        lexeme: "End Of Input"@,
    }
}

impl Token {
    /// A token whose span starts at `start` and covers exactly the
    /// lexeme's characters.
    pub fn new(kind: Kind, start: usize, lexeme: &str) -> (r: Token)
        requires
            start + lexeme@.len() <= usize::MAX,
        ensures
            r@.kind == kind,
            r@.span.spec_start() == start,
            r@.span.spec_end() == start + lexeme@.len(),
            r@.lexeme == lexeme@,
    {
        let len = lexeme.unicode_len();
        Token { kind, span: LexicalSpan::new(start, start + len), lexeme: String::from_str(lexeme) }
    }

    pub fn kind(&self) -> (r: Kind)
        ensures
            r == self@.kind,
    {
        self.kind
    }

    pub fn span(&self) -> (r: LexicalSpan)
        ensures
            r == self@.span,
    {
        self.span
    }

    pub fn lexeme(&self) -> (r: &str)
        ensures
            r@ == self@.lexeme,
    {
        self.lexeme.as_str()
    }

    /// Check the token against the shape of a binding key and return the
    /// index of the first offending character, if there is one.
    pub fn invalid_identifier_char_index(&self) -> (r: Option<usize>)
        ensures
            match r {
                Some(i) => spec_invalid_index(self@) == Some(i as int) && i
                    <= self@.lexeme.len(),
                None => spec_invalid_index(self@) is None,
            },
    {
        if self.kind != Kind::Text {
            return Some(0);
        }
        let s = self.lexeme.as_str();
        let n = s.unicode_len();
        let mut i: usize = 0;
        while i < n
            invariant
                i <= n,
                n == s@.len(),
                s@ == self@.lexeme,
                self@.kind == Kind::Text,
                spec_first_invalid(s@, 0) == spec_first_invalid(s@, i as int),
            decreases n - i,
        {
            let c = s.get_char(i);
            let ok = if i == 0 {
                is_ident_start(c)
            } else {
                is_ident_cont(c)
            };
            if !ok {
                assert(spec_first_invalid(s@, i as int) == Some(i as int));
                return Some(i);
            }
            i = i + 1;
        }
        assert(spec_first_invalid(s@, n as int) is None);
        None
    }

    /// The synthetic end-of-input token, one character wide, placed just
    /// past the given offset (degenerate at the largest offset the
    /// machine can express).
    pub fn new_eoi(at: usize) -> (r: Token)
        ensures
            r@ == spec_eoi_token(at as int),
    {
        let end = if at < usize::MAX {
            at + 1
        } else {
            at
        };
        Token { kind: Kind::Eoi, span: LexicalSpan::new(at, end), lexeme: String::from_str(
            "End Of Input",
        ) }
    }

    /// Pass any real token through; turn the end-of-input token into the
    /// parser's end-of-input error.
    pub fn eoi_check(self, source_text: &str) -> (r: Result<Token, ParserError>)
        ensures
            match r {
                Ok(t) => self@.kind != Kind::Eoi && t == self,
                Err(e) => self@.kind == Kind::Eoi && spec_eoi_error(e, source_text@),
            },
    {
        if self.kind == Kind::Eoi {
            Err(end_of_input(source_text))
        } else {
            Ok(self)
        }
    }
}

} // verus!
