//! The lexer: raw source text in, a flat stream of tokens out.
//!
//! Whitespace separates tokens and is skipped; a `#` line comment runs to
//! the end of its line; `(`, `)` and `=` are single-character tokens
//! unless escaped with a preceding backslash; a run starting with a digit
//! is a number; any other run of non-boundary characters is text.

pub mod token;

use vstd::prelude::*;
use crate::lexer::token::{Kind, Token, TokenView};
use crate::lexical_span::LexicalSpan;
use crate::numfmt::spec_is_digit;
use crate::strutil::{chars_to_string, str_chars};

verus! {

/// The characters that end a token and begin structure or a comment.
pub open spec fn spec_is_stopping(c: char) -> bool {
    c == '(' || c == '=' || c == ')' || c == '#'
}

/// The whitespace the lexer skips: the ASCII blank characters. The
/// character classes of this lexer are deliberately ASCII: any other
/// character, blank-looking or not, is an ordinary word character.
pub open spec fn spec_is_space(c: char) -> bool {
    c == ' ' || c == '\t' || c == '\n' || c == '\r' || c == '\u{b}' || c == '\u{c}'
}

/// A token boundary: whitespace or a stopping character.
pub open spec fn spec_is_boundary(c: char) -> bool {
    spec_is_space(c) || spec_is_stopping(c)
}

/// A character that may continue a numeric token: an ASCII digit, or one
/// of the letters that hex, binary, exponent and float literal shapes
/// use.
pub open spec fn spec_potentially_numeric(c: char) -> bool {
    spec_is_digit(c) || c == 'x' || c == 'b' || c == 'e' || c == '.'
}

fn is_stopping(c: char) -> (r: bool)
    ensures
        r == spec_is_stopping(c),
{
    c == '(' || c == '=' || c == ')' || c == '#'
}

pub fn is_space_char(c: char) -> (r: bool)
    ensures
        r == spec_is_space(c),
{
    c == ' ' || c == '\t' || c == '\n' || c == '\r' || c == '\u{b}' || c == '\u{c}'
}

fn is_boundary(c: char) -> (r: bool)
    ensures
        r == spec_is_boundary(c),
{
    is_space_char(c) || is_stopping(c)
}

fn potentially_numeric(c: char) -> (r: bool)
    ensures
        r == spec_potentially_numeric(c),
{
    let v = c as u32;
    (48 <= v && v <= 57) || c == 'x' || c == 'b' || c == 'e' || c == '.'
}

fn is_digit_char(c: char) -> (r: bool)
    ensures
        r == spec_is_digit(c),
{
    let v = c as u32;
    48 <= v && v <= 57
}

/// The first position at or after `i` where `p` stops holding, or the
/// end of the text.
pub open spec fn spec_scan_while(s: Seq<char>, i: int, p: spec_fn(char) -> bool) -> int
    decreases s.len() - i,
{
    if i < 0 || i >= s.len() {
        i
    } else if p(s[i]) {
        spec_scan_while(s, i + 1, p)
    } else {
        i
    }
}

pub proof fn lemma_scan_while_bounds(s: Seq<char>, i: int, p: spec_fn(char) -> bool)
    requires
        0 <= i <= s.len(),
    ensures
        i <= spec_scan_while(s, i, p) <= s.len(),
    decreases s.len() - i,
{
    if i < s.len() && p(s[i]) {
        lemma_scan_while_bounds(s, i + 1, p);
    }
}

/// Clamp a scan result so that it always advances and never leaves the
/// text, making progress structural.
pub open spec fn spec_advance(k: int, i: int, len: int) -> int {
    if i + 1 >= len {
        len
    } else if k <= i {
        i + 1
    } else if k >= len {
        len
    } else {
        k
    }
}

/// The position of the next token after `i`: whitespace runs and line
/// comments are skipped, repeatedly, until something else or the end of
/// the text is reached.
pub open spec fn spec_skip_ws_comments(s: Seq<char>, i: int) -> int
    decreases s.len() - spec_advance(i, i - 1, s.len() as int), 1int,
{
    let j = spec_scan_while(s, i, |c: char| spec_is_space(c));
    if 0 <= j < s.len() && s[j] == '#' {
        let k = spec_scan_while(s, j, |c: char| c != '\n');
        spec_skip_ws_comments(s, spec_advance(k + 1, i, s.len() as int))
    } else {
        j
    }
}

pub proof fn lemma_skip_ws_comments_bounds(s: Seq<char>, i: int)
    requires
        0 <= i <= s.len(),
    ensures
        i <= spec_skip_ws_comments(s, i) <= s.len(),
        ({
            let j = spec_skip_ws_comments(s, i);
            j < s.len() ==> !spec_is_space(s[j]) && s[j] != '#'
        }),
    decreases s.len() - i,
{
    let j = spec_scan_while(s, i, |c: char| spec_is_space(c));
    lemma_scan_while_bounds(s, i, |c: char| spec_is_space(c));
    lemma_scan_while_past(s, i, |c: char| spec_is_space(c));
    if 0 <= j < s.len() && s[j] == '#' {
        let k = spec_scan_while(s, j, |c: char| c != '\n');
        lemma_scan_while_bounds(s, j, |c: char| c != '\n');
        let nxt = spec_advance(k + 1, i, s.len() as int);
        assert(i < nxt <= s.len());
        lemma_skip_ws_comments_bounds(s, nxt);
        assert(spec_skip_ws_comments(s, i) == spec_skip_ws_comments(s, nxt));
    }
}

/// After a scan stops inside the text, the predicate fails there.
pub proof fn lemma_scan_while_past(s: Seq<char>, i: int, p: spec_fn(char) -> bool)
    requires
        0 <= i <= s.len(),
    ensures
        ({
            let j = spec_scan_while(s, i, p);
            j < s.len() ==> !p(s[j])
        }),
    decreases s.len() - i,
{
    if i < s.len() && p(s[i]) {
        lemma_scan_while_past(s, i + 1, p);
    }
}

/// The end of a text token whose characters up to `pos` are already
/// taken: non-boundary characters are consumed; a token ending in a
/// backslash swallows the boundary character after it and goes on.
pub open spec fn spec_scan_text(s: Seq<char>, pos: int) -> int
    decreases s.len() - spec_advance(pos, pos - 1, s.len() as int), 1int,
{
    let k = spec_scan_while(s, pos, |c: char| !spec_is_boundary(c));
    if k >= s.len() {
        s.len() as int
    } else if 0 <= k - 1 < s.len() && s[k - 1] == '\\' {
        spec_scan_text(s, spec_advance(k + 1, pos, s.len() as int))
    } else {
        k
    }
}

pub proof fn lemma_scan_text_bounds(s: Seq<char>, pos: int)
    requires
        0 <= pos <= s.len(),
    ensures
        pos <= spec_scan_text(s, pos) <= s.len(),
    decreases s.len() - pos,
{
    let k = spec_scan_while(s, pos, |c: char| !spec_is_boundary(c));
    lemma_scan_while_bounds(s, pos, |c: char| !spec_is_boundary(c));
    if k >= s.len() {
    } else if 0 <= k - 1 < s.len() && s[k - 1] == '\\' {
        let nxt = spec_advance(k + 1, pos, s.len() as int);
        assert(pos < nxt <= s.len());
        lemma_scan_text_bounds(s, nxt);
    }
}

/// What the lexer finds at position `i`: the next token and the position
/// after it, or nothing when only whitespace and comments remain.
pub open spec fn spec_next_token(s: Seq<char>, i: int) -> Option<(TokenView, int)> {
    let j = spec_skip_ws_comments(s, i);
    if !(0 <= j < s.len()) {
        None
    } else if s[j] == '(' {
        Some(
            (
                TokenView {
                    kind: Kind::LParen,
                    span: LexicalSpan { start: j as usize, end: (j + 1) as usize },
                    lexeme: "("@,
                },
                j + 1,
            ),
        )
    } else if s[j] == '=' {
        Some(
            (
                TokenView {
                    kind: Kind::Equals,
                    span: LexicalSpan { start: j as usize, end: (j + 1) as usize },
                    lexeme: "="@,
                },
                j + 1,
            ),
        )
    } else if s[j] == ')' {
        Some(
            (
                TokenView {
                    kind: Kind::RParen,
                    span: LexicalSpan { start: j as usize, end: (j + 1) as usize },
                    lexeme: ")"@,
                },
                j + 1,
            ),
        )
    } else if spec_is_digit(s[j]) {
        let k = spec_scan_while(s, j + 1, |c: char| spec_potentially_numeric(c));
        Some(
            (
                TokenView {
                    kind: Kind::Number,
                    span: LexicalSpan { start: j as usize, end: k as usize },
                    lexeme: s.subrange(j, k),
                },
                k,
            ),
        )
    } else {
        let k = spec_scan_text(s, j + 1);
        Some(
            (
                TokenView {
                    kind: Kind::Text,
                    span: LexicalSpan { start: j as usize, end: k as usize },
                    lexeme: s.subrange(j, k),
                },
                k,
            ),
        )
    }
}

/// A found token always moves the position strictly forward and stays
/// inside the text.
pub proof fn lemma_next_token_progress(s: Seq<char>, i: int)
    requires
        0 <= i <= s.len(),
    ensures
        match spec_next_token(s, i) {
            Some(tk) => i < tk.1 <= s.len(),
            None => true,
        },
{
    lemma_skip_ws_comments_bounds(s, i);
    let j = spec_skip_ws_comments(s, i);
    if 0 <= j < s.len() {
        if s[j] == '(' || s[j] == '=' || s[j] == ')' {
        } else if spec_is_digit(s[j]) {
            lemma_scan_while_bounds(s, j + 1, |c: char| spec_potentially_numeric(c));
        } else {
            lemma_scan_text_bounds(s, j + 1);
        }
    }
}

/// The whole token stream from position `i` on.
pub open spec fn spec_tokens_from(s: Seq<char>, i: int) -> Seq<TokenView>
    decreases s.len() - spec_advance(i, i - 1, s.len() as int), 1int,
{
    match spec_next_token(s, i) {
        None => Seq::<TokenView>::empty(),
        Some(tk) => seq![tk.0] + spec_tokens_from(s, spec_advance(tk.1, i, s.len() as int)),
    }
}

/// The token stream of a whole source text.
pub open spec fn spec_lex(s: Seq<char>) -> Seq<TokenView> {
    spec_tokens_from(s, 0)
}

/// The lexer: a cursor over the characters of the source text.
pub struct Lexer {
    chars: Vec<char>,
    pos: usize,
}

impl Lexer {
    pub closed spec fn spec_chars(&self) -> Seq<char> {
        self.chars@
    }

    pub closed spec fn spec_pos(&self) -> int {
        self.pos as int
    }

    /// A lexer is always positioned inside (or just past) its text.
    pub open spec fn wf(&self) -> bool {
        0 <= self.spec_pos() <= self.spec_chars().len()
    }

    pub fn new(input: &str) -> (r: Lexer)
        ensures
            r.wf(),
            r.spec_chars() == input@,
            r.spec_pos() == 0,
    {
        Lexer { chars: str_chars(input), pos: 0 }
    }

    /// Move past whitespace and comments to the start of the next token.
    fn skip_ws_comments(&mut self)
        requires
            old(self).wf(),
        ensures
            final(self).wf(),
            final(self).spec_chars() == old(self).spec_chars(),
            final(self).spec_pos() == spec_skip_ws_comments(
                old(self).spec_chars(),
                old(self).spec_pos(),
            ),
    {
        let ghost s = self.chars@;
        let ghost i0 = self.pos as int;
        loop
            invariant
                self.chars@ == s,
                s == old(self).spec_chars(),
                i0 == old(self).spec_pos(),
                0 <= self.pos <= s.len(),
                spec_skip_ws_comments(s, i0) == spec_skip_ws_comments(s, self.pos as int),
            decreases s.len() - self.pos, 2int,
        {
            let ghost iter_start = self.pos as int;
            // skip a run of whitespace
            while self.pos < self.chars.len() && is_space_char(self.chars[self.pos])
                invariant
                    self.chars@ == s,
                    0 <= iter_start <= self.pos <= s.len(),
                    spec_scan_while(s, iter_start, |c: char| spec_is_space(c))
                        == spec_scan_while(s, self.pos as int, |c: char| spec_is_space(c)),
                decreases s.len() - self.pos,
            {
                self.pos = self.pos + 1;
            }
            proof {
                assert(spec_scan_while(s, iter_start, |c: char| spec_is_space(c))
                    == self.pos as int);
            }
            if self.pos >= self.chars.len() || self.chars[self.pos] != '#' {
                proof {
                    assert(spec_skip_ws_comments(s, iter_start) == self.pos as int);
                }
                return ;
            }
            // a comment: consume up to and including the newline
            let ghost j = self.pos as int;
            while self.pos < self.chars.len() && self.chars[self.pos] != '\n'
                invariant
                    self.chars@ == s,
                    0 <= j <= self.pos <= s.len(),
                    spec_scan_while(s, j, |c: char| c != '\n') == spec_scan_while(
                        s,
                        self.pos as int,
                        |c: char| c != '\n',
                    ),
                decreases s.len() - self.pos,
            {
                self.pos = self.pos + 1;
            }
            proof {
                assert(spec_scan_while(s, j, |c: char| c != '\n') == self.pos as int);
            }
            let ghost k = self.pos as int;
            if self.pos < self.chars.len() {
                self.pos = self.pos + 1;
            }
            proof {
                lemma_scan_while_bounds(s, iter_start, |c: char| spec_is_space(c));
                assert(self.pos as int == spec_advance(k + 1, iter_start, s.len() as int));
                assert(spec_skip_ws_comments(s, iter_start) == spec_skip_ws_comments(
                    s,
                    self.pos as int,
                ));
            }
        }
    }

    /// Produce the next token, if any text other than whitespace and
    /// comments remains.
    pub fn next_token(&mut self) -> (r: Option<Token>)
        requires
            old(self).wf(),
        ensures
            final(self).wf(),
            final(self).spec_chars() == old(self).spec_chars(),
            match r {
                Some(t) => spec_next_token(old(self).spec_chars(), old(self).spec_pos()) == Some(
                    (t@, final(self).spec_pos()),
                ) && old(self).spec_pos() < final(self).spec_pos(),
                None => spec_next_token(old(self).spec_chars(), old(self).spec_pos()) is None,
            },
    {
        let ghost s = self.chars@;
        let ghost i0 = self.pos as int;
        self.skip_ws_comments();
        proof {
            lemma_skip_ws_comments_bounds(s, i0);
        }
        if self.pos >= self.chars.len() {
            return None;
        }
        let j = self.pos;
        let c = self.chars[j];
        if c == '(' {
            self.pos = j + 1;
            proof {
                reveal_strlit("(");
                assert("("@ =~= seq!['(']);
            }
            let t = Token::new(Kind::LParen, j, "(");
            proof {
                assert(t@ == spec_next_token(s, i0)->Some_0.0);
            }
            return Some(t);
        }
        if c == '=' {
            self.pos = j + 1;
            proof {
                reveal_strlit("=");
                assert("="@ =~= seq!['=']);
            }
            let t = Token::new(Kind::Equals, j, "=");
            proof {
                assert(t@ == spec_next_token(s, i0)->Some_0.0);
            }
            return Some(t);
        }
        if c == ')' {
            self.pos = j + 1;
            proof {
                reveal_strlit(")");
                assert(")"@ =~= seq![')']);
            }
            let t = Token::new(Kind::RParen, j, ")");
            proof {
                assert(t@ == spec_next_token(s, i0)->Some_0.0);
            }
            return Some(t);
        }
        if is_digit_char(c) {
            self.pos = j + 1;
            while self.pos < self.chars.len() && potentially_numeric(self.chars[self.pos])
                invariant
                    self.chars@ == s,
                    j + 1 <= self.pos <= s.len(),
                    spec_scan_while(s, j + 1, |c: char| spec_potentially_numeric(c))
                        == spec_scan_while(
                        s,
                        self.pos as int,
                        |c: char| spec_potentially_numeric(c),
                    ),
                decreases s.len() - self.pos,
            {
                self.pos = self.pos + 1;
            }
            proof {
                assert(spec_scan_while(s, j + 1, |c: char| spec_potentially_numeric(c))
                    == self.pos as int);
            }
            let lexeme = self.slice_from(j);
            let t = Token::new(Kind::Number, j, lexeme.as_str());
            proof {
                assert(t@ == spec_next_token(s, i0)->Some_0.0);
            }
            return Some(t);
        }
        // a text token, with escape continuation
        self.pos = j + 1;
        proof {
            assert(!spec_is_boundary(s[j as int]));
        }
        loop
            invariant_except_break
                self.chars@ == s,
                j < s.len(),
                j + 1 <= self.pos <= s.len(),
                spec_scan_text(s, j + 1) == spec_scan_text(s, self.pos as int),
            ensures
                self.chars@ == s,
                j + 1 <= self.pos <= s.len(),
                self.pos as int == spec_scan_text(s, j + 1),
            decreases s.len() - self.pos, 2int,
        {
            let ghost p0 = self.pos as int;
            while self.pos < self.chars.len() && !is_boundary(self.chars[self.pos])
                invariant
                    self.chars@ == s,
                    0 <= p0 <= self.pos <= s.len(),
                    spec_scan_while(s, p0, |c: char| !spec_is_boundary(c)) == spec_scan_while(
                        s,
                        self.pos as int,
                        |c: char| !spec_is_boundary(c),
                    ),
                decreases s.len() - self.pos,
            {
                self.pos = self.pos + 1;
            }
            proof {
                assert(spec_scan_while(s, p0, |c: char| !spec_is_boundary(c)) == self.pos as int);
            }
            if self.pos >= self.chars.len() {
                proof {
                    assert(spec_scan_text(s, p0) == s.len() as int);
                }
                break ;
            }
            if self.chars[self.pos - 1] == '\\' {
                let ghost k = self.pos as int;
                self.pos = self.pos + 1;
                proof {
                    assert(self.pos as int == spec_advance(k + 1, p0, s.len() as int));
                    assert(spec_scan_text(s, p0) == spec_scan_text(s, self.pos as int));
                }
            } else {
                proof {
                    assert(spec_scan_text(s, p0) == self.pos as int);
                }
                break ;
            }
        }
        let lexeme = self.slice_from(j);
        let t = Token::new(Kind::Text, j, lexeme.as_str());
        proof {
            assert(t@ == spec_next_token(s, i0)->Some_0.0);
        }
        Some(t)
    }

    /// The characters from `from` up to the current position, as a
    /// string.
    fn slice_from(&self, from: usize) -> (r: String)
        requires
            self.wf(),
            from <= self.spec_pos(),
        ensures
            r@ == self.spec_chars().subrange(from as int, self.spec_pos()),
    {
        let mut out: Vec<char> = Vec::new();
        let mut i: usize = from;
        while i < self.pos
            invariant
                from <= i <= self.pos <= self.chars@.len(),
                out@ =~= self.chars@.subrange(from as int, i as int),
            decreases self.pos - i,
        {
            out.push(self.chars[i]);
            assert(out@ =~= self.chars@.subrange(from as int, i + 1));
            i = i + 1;
        }
        chars_to_string(&out)
    }

    /// Run the lexer to the end and collect every token.
    pub fn tokens(self) -> (r: Vec<Token>)
        requires
            self.wf(),
        ensures
            r@.map_values(|t: Token| t@) == spec_tokens_from(self.spec_chars(), self.spec_pos()),
    {
        let ghost s = self.spec_chars();
        let ghost pos0 = self.spec_pos();
        let mut lexer = self;
        let mut out: Vec<Token> = Vec::new();
        loop
            invariant_except_break
                lexer.wf(),
                lexer.spec_chars() == s,
                spec_tokens_from(s, pos0) =~= out@.map_values(|t: Token| t@) + spec_tokens_from(
                    s,
                    lexer.spec_pos(),
                ),
            ensures
                out@.map_values(|t: Token| t@) =~= spec_tokens_from(s, pos0),
            decreases s.len() - lexer.spec_pos() + 1,
        {
            let ghost before = lexer.spec_pos();
            match lexer.next_token() {
                Some(t) => {
                    proof {
                        lemma_next_token_progress(s, before);
                        assert(spec_advance(lexer.spec_pos(), before, s.len() as int)
                            == lexer.spec_pos());
                        assert(spec_tokens_from(s, before) == seq![t@] + spec_tokens_from(
                            s,
                            lexer.spec_pos(),
                        ));
                    }
                    let ghost prev = out@;
                    out.push(t);
                    proof {
                        assert(out@.map_values(|t: Token| t@) =~= prev.map_values(|t: Token| t@)
                            + seq![t@]);
                    }
                },
                None => {
                    proof {
                        assert(spec_tokens_from(s, before) =~= Seq::<TokenView>::empty());
                        assert(out@.map_values(|t: Token| t@) =~= spec_tokens_from(s, pos0));
                    }
                    break ;
                },
            }
        }
        out
    }
}

/// Lex a whole source text.
pub fn lex(input: &str) -> (r: Vec<Token>)
    ensures
        r@.map_values(|t: Token| t@) == spec_lex(input@),
{
    Lexer::new(input).tokens()
}

/// Every token the lexer produces covers exactly its lexeme.
pub proof fn lemma_next_token_wf(s: Seq<char>, i: int)
    requires
        0 <= i <= s.len() <= usize::MAX,
    ensures
        match spec_next_token(s, i) {
            Some(tk) => crate::lexer::token::spec_token_wf(tk.0),
            None => true,
        },
{
    lemma_skip_ws_comments_bounds(s, i);
    let j = spec_skip_ws_comments(s, i);
    if 0 <= j < s.len() {
        if s[j] == '(' {
            reveal_strlit("(");
        } else if s[j] == '=' {
            reveal_strlit("=");
        } else if s[j] == ')' {
            reveal_strlit(")");
        } else if spec_is_digit(s[j]) {
            lemma_scan_while_bounds(s, j + 1, |c: char| spec_potentially_numeric(c));
        } else {
            lemma_scan_text_bounds(s, j + 1);
        }
    }
}

/// Every token of a lexed stream covers exactly its lexeme.
pub proof fn lemma_tokens_from_wf(s: Seq<char>, i: int)
    requires
        0 <= i <= s.len() <= usize::MAX,
    ensures
        ({
            let toks = spec_tokens_from(s, i);
            forall|j: int|
                0 <= j < toks.len() ==> crate::lexer::token::spec_token_wf(#[trigger] toks[j])
        }),
    decreases s.len() - i,
{
    match spec_next_token(s, i) {
        None => {},
        Some(tk) => {
            lemma_next_token_wf(s, i);
            lemma_next_token_progress(s, i);
            let nxt = spec_advance(tk.1, i, s.len() as int);
            lemma_tokens_from_wf(s, nxt);
            let toks = spec_tokens_from(s, i);
            assert(toks == seq![tk.0] + spec_tokens_from(s, nxt));
            assert forall|j: int| 0 <= j < toks.len() implies crate::lexer::token::spec_token_wf(
                #[trigger] toks[j],
            ) by {
                if j > 0 {
                    assert(toks[j] == spec_tokens_from(s, nxt)[j - 1]);
                }
            }
        },
    }
}

/// A scan over a region where the predicate holds everywhere runs to the
/// end of the text.
pub proof fn lemma_scan_while_all(s: Seq<char>, i: int, p: spec_fn(char) -> bool)
    requires
        0 <= i <= s.len(),
        forall|j: int| i <= j < s.len() ==> p(#[trigger] s[j]),
    ensures
        spec_scan_while(s, i, p) == s.len(),
    decreases s.len() - i,
{
    if i < s.len() {
        lemma_scan_while_all(s, i + 1, p);
    }
}

/// A text that is one single word - no whitespace, no structural
/// characters, and numeric throughout if it starts with a digit - lexes
/// to exactly one token covering the whole text.
pub proof fn lemma_lex_single_word(s: Seq<char>)
    requires
        1 <= s.len() <= usize::MAX,
        forall|j: int| 0 <= j < s.len() ==> !spec_is_boundary(#[trigger] s[j]),
        spec_is_digit(s[0]) ==> forall|j: int|
            1 <= j < s.len() ==> spec_potentially_numeric(#[trigger] s[j]),
    ensures
        spec_lex(s) =~= seq![
            TokenView {
                kind: if spec_is_digit(s[0]) {
                    Kind::Number
                } else {
                    Kind::Text
                },
                span: LexicalSpan { start: 0, end: s.len() as usize },
                lexeme: s,
            },
        ],
{
    assert(spec_scan_while(s, 0, |c: char| spec_is_space(c)) == 0);
    assert(spec_skip_ws_comments(s, 0) == 0);
    assert(!(s[0] == '(' || s[0] == '=' || s[0] == ')'));
    if spec_is_digit(s[0]) {
        lemma_scan_while_all(s, 1, |c: char| spec_potentially_numeric(c));
        assert(s.subrange(0, s.len() as int) =~= s);
        assert(spec_next_token(s, 0) == Some(
            (
                TokenView {
                    kind: Kind::Number,
                    span: LexicalSpan { start: 0, end: s.len() as usize },
                    lexeme: s,
                },
                s.len() as int,
            ),
        ));
    } else {
        lemma_scan_while_all(s, 1, |c: char| !spec_is_boundary(c));
        assert(spec_scan_text(s, 1) == s.len() as int);
        assert(s.subrange(0, s.len() as int) =~= s);
        assert(spec_next_token(s, 0) == Some(
            (
                TokenView {
                    kind: Kind::Text,
                    span: LexicalSpan { start: 0, end: s.len() as usize },
                    lexeme: s,
                },
                s.len() as int,
            ),
        ));
    }
    let len = s.len() as int;
    assert(spec_scan_while(s, len, |c: char| spec_is_space(c)) == len);
    assert(spec_skip_ws_comments(s, len) == len);
    assert(spec_next_token(s, len) is None);
    assert(spec_tokens_from(s, len) =~= Seq::<TokenView>::empty());
    assert(spec_advance(len, 0, len) == len);
}

} // verus!
