//! The two-level error representation shared by parsing and
//! serialization: a root cause paired with a windowed source excerpt, plus
//! an unbounded chain of human-readable context messages that wrap the
//! cause without discarding it.

use vstd::prelude::*;
use crate::lexical_span::LexicalSpan;
use crate::numfmt::{fmt_u128, spec_fmt_nat};
use crate::strutil::spec_spaces;

verus! {

/// How many characters of source text are shown on each side of an
/// offending span in an error excerpt.
pub const ERROR_WINDOW_SIZE: usize = 10;

/// A diagnostic: either a first-level cause of some kind, together with a
/// rendered window of the source text around the offending span, or an
/// explanatory message wrapped around an inner error.
#[derive(Debug)]
pub enum ConfigError<Kind> {
    FirstLevelError(Kind, String),
    ContextualizedError(String, Box<ConfigError<Kind>>),
}

/// A kind that can explain itself in prose. `spec_describe` fixes the
/// text; `describe` produces it.
pub trait Describe {
    spec fn spec_describe(&self) -> Seq<char>;

    fn describe(&self) -> (r: String)
        ensures
            r@ == self.spec_describe(),
    ;
}

/// The lower edge of the excerpt window around a span.
pub open spec fn spec_window_low(start: int) -> int {
    if start > ERROR_WINDOW_SIZE {
        start - ERROR_WINDOW_SIZE
    } else {
        0
    }
}

/// The upper edge of the excerpt window around a span.
pub open spec fn spec_window_high(end: int, len: int) -> int {
    if end + ERROR_WINDOW_SIZE < len {
        end + ERROR_WINDOW_SIZE
    } else {
        len
    }
}

/// The rendered excerpt: up to `ERROR_WINDOW_SIZE` characters of context
/// on each side of the span, truncation ellipses where text was cut, and
/// a caret line marking the offending column. Empty when the span lies
/// outside the text.
pub open spec fn spec_error_area(span: LexicalSpan, text: Seq<char>) -> Seq<char> {
    let low = spec_window_low(span.spec_start() as int);
    let high = spec_window_high(span.spec_end() as int, text.len() as int);
    if high <= low {
        Seq::<char>::empty()
    } else {
        (if low > 0 {
            "..."@
        } else {
            Seq::<char>::empty()
        }) + text.subrange(low, high) + (if high < text.len() {
            "..."@
        } else {
            Seq::<char>::empty()
        }) + seq!['\n'] + spec_spaces(span.spec_start() - low) + seq!['^']
    }
}

/// Build the windowed excerpt for a span of the source text.
pub fn build_error_area(span: LexicalSpan, source_text: &str) -> (r: String)
    ensures
        r@ == spec_error_area(span, source_text@),
{
    let len = source_text.unicode_len();
    let low: usize = if span.start() > ERROR_WINDOW_SIZE {
        span.start() - ERROR_WINDOW_SIZE
    } else {
        0
    };
    let high: usize = if len >= ERROR_WINDOW_SIZE && span.end() < len - ERROR_WINDOW_SIZE {
        span.end() + ERROR_WINDOW_SIZE
    } else {
        len
    };
    assert(low == spec_window_low(span.spec_start() as int));
    assert(high == spec_window_high(span.spec_end() as int, source_text@.len() as int));
    if high <= low {
        let r = String::new();
        assert(r@ =~= spec_error_area(span, source_text@));
        return r;
    }
    let mut out = String::new();
    if low > 0 {
        out.append("...");
    }
    let window = source_text.substring_char(low, high);
    out.append(window);
    if high < len {
        out.append("...");
    }
    out.push('\n');
    let caret_col = span.start() - low;
    let mut i: usize = 0;
    let ghost before_spaces = out@;
    while i < caret_col
        invariant
            i <= caret_col,
            out@ =~= before_spaces + spec_spaces(i as int),
        decreases caret_col - i,
    {
        out.push(' ');
        assert(out@ =~= before_spaces + spec_spaces(i + 1));
        i = i + 1;
    }
    out.push('^');
    assert(out@ =~= spec_error_area(span, source_text@));
    out
}

/// The context line every span-located error is wrapped in: the row and
/// column of the offending span's start, rendered as `Error at
/// row:column`.
pub open spec fn spec_error_at_msg(span: LexicalSpan, text: Seq<char>) -> Seq<char> {
    let rc = span.spec_row_and_column(text);
    "Error at "@ + spec_fmt_nat(rc.0 as nat) + seq![':'] + spec_fmt_nat(rc.1 as nat)
}

impl<Kind> ConfigError<Kind> {
    /// A first-level error of the given kind, located on a span of the
    /// source text and wrapped in an `Error at row:column` context line.
    pub fn on_span(kind: Kind, span: LexicalSpan, source_text: &str) -> (r: ConfigError<Kind>)
        ensures
            ({
                &&& r matches ConfigError::ContextualizedError(msg, inner)
                &&& msg@ == spec_error_at_msg(span, source_text@)
                &&& *inner matches ConfigError::FirstLevelError(k, area)
                &&& k == kind
                &&& area@ == spec_error_area(span, source_text@)
            }),
            ({
                &&& r.spec_root() matches ConfigError::FirstLevelError(k2, area2)
                &&& k2 == kind
                &&& area2@ == spec_error_area(span, source_text@)
            }),
    {
        let (row, col) = span.find_row_and_column(source_text);
        let mut msg = String::new();
        msg.append("Error at ");
        let row_s = fmt_u128(row as u128);
        msg.append(row_s.as_str());
        msg.push(':');
        let col_s = fmt_u128(col as u128);
        msg.append(col_s.as_str());
        assert(msg@ =~= spec_error_at_msg(span, source_text@));
        let area = build_error_area(span, source_text);
        let first = ConfigError::FirstLevelError(kind, area);
        proof {
            assert(first.spec_root() == first);
        }
        first.contextualize(msg.as_str())
    }

    /// Wrap this error in an outer explanation, keeping the cause intact.
    pub fn contextualize(self, context: &str) -> (r: ConfigError<Kind>)
        ensures
            ({
                &&& r matches ConfigError::ContextualizedError(msg, inner)
                &&& msg@ == context@
                &&& *inner == self
            }),
            r.spec_root() == self.spec_root(),
    {
        let r = ConfigError::ContextualizedError(String::from_str(context), Box::new(self));
        assert(r.spec_root() == self.spec_root());
        r
    }

    /// The root cause at the bottom of the contextualization chain.
    pub open spec fn spec_root(&self) -> (Self)
        decreases self,
    {
        match self {
            ConfigError::FirstLevelError(_, _) => *self,
            ConfigError::ContextualizedError(_, inner) => inner.spec_root(),
        }
    }
}

impl<Kind: Describe> ConfigError<Kind> {
    /// The full rendering of an error: each context line, then the cause's
    /// description, then the source excerpt when there is one.
    pub open spec fn spec_render(&self) -> Seq<char>
        decreases self,
    {
        match self {
            ConfigError::FirstLevelError(kind, area) => if area@.len() == 0 {
                kind.spec_describe()
            } else {
                kind.spec_describe() + seq!['\n'] + area@
            },
            ConfigError::ContextualizedError(context, inner) => context@ + seq!['\n']
                + inner.spec_render(),
        }
    }

    /// Render the whole error chain as text, outermost context first.
    pub fn to_text(&self) -> (r: String)
        ensures
            r@ == self.spec_render(),
        decreases *self,
    {
        match self {
            ConfigError::FirstLevelError(kind, area) => {
                let mut out = kind.describe();
                if area.as_str().unicode_len() > 0 {
                    out.push('\n');
                    out.append(area.as_str());
                }
                assert(out@ =~= self.spec_render());
                out
            },
            ConfigError::ContextualizedError(context, inner) => {
                let mut out = String::from_str(context.as_str());
                out.push('\n');
                let rest = inner.to_text();
                out.append(rest.as_str());
                assert(out@ =~= self.spec_render());
                out
            },
        }
    }
}

/// Attaching context to the error inside a `Result` without touching a
/// success value.
pub trait Contextualize: Sized {
    /// What `contextualize` must return, given the receiver and the
    /// context message.
    spec fn spec_contextualized(self, context: Seq<char>, r: Self) -> bool;

    fn contextualize(self, context: &str) -> (r: Self)
        ensures
            self.spec_contextualized(context@, r),
    ;
}

impl<T, Kind> Contextualize for Result<T, ConfigError<Kind>> {
    open spec fn spec_contextualized(self, context: Seq<char>, r: Self) -> bool {
        match self {
            Ok(v) => r == Ok::<T, ConfigError<Kind>>(v),
            Err(e) => {
                &&& r matches Err(w)
                &&& w matches ConfigError::ContextualizedError(msg, inner)
                &&& msg@ == context
                &&& *inner == e
            },
        }
    }

    fn contextualize(self, context: &str) -> (r: Self) {
        match self {
            Ok(v) => Ok(v),
            Err(e) => Err(e.contextualize(context)),
        }
    }
}

} // verus!
