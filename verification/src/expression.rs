//! The expression tree: the three-variant value model every document
//! parses into, its renderings, and its span-preserving transformations.

use vstd::prelude::*;
use crate::lexical_span::LexicalSpan;
use crate::strutil::{join_strings, spec_join};

verus! {

broadcast use {vstd::seq::axiom_seq_index_decreases, vstd::std_specs::vec::axiom_vec_index_decreases};

/// A leaf scalar: the literal text of a bare token, tagged by whether it
/// looked numeric to the lexer.
#[derive(Debug)]
pub enum Atom {
    Text(String),
    Number(String),
}

/// The mathematical content of an atom.
pub enum AtomView {
    Text(Seq<char>),
    Number(Seq<char>),
}

/// The literal text an atom carries, whatever its tag.
pub open spec fn spec_atom_text(a: AtomView) -> Seq<char> {
    match a {
        AtomView::Text(s) => s,
        AtomView::Number(s) => s,
    }
}

impl View for Atom {
    type V = AtomView;

    open spec fn view(&self) -> AtomView {
        match self {
            Atom::Text(s) => AtomView::Text(s@),
            Atom::Number(s) => AtomView::Number(s@),
        }
    }
}

impl Atom {
    pub fn is_text(&self) -> (r: bool)
        ensures
            r == (self@ is Text),
    {
        matches!(self, Atom::Text(_))
    }

    pub fn is_number(&self) -> (r: bool)
        ensures
            r == (self@ is Number),
    {
        matches!(self, Atom::Number(_))
    }

    /// The literal text of the atom.
    pub fn text(&self) -> (r: &str)
        ensures
            r@ == spec_atom_text(self@),
    {
        match self {
            Atom::Text(s) => s.as_str(),
            Atom::Number(s) => s.as_str(),
        }
    }
}

impl Clone for Atom {
    /// A copy with the same content.
    fn clone(&self) -> (r: Atom)
        ensures
            r@ == self@,
    {
        match self {
            Atom::Text(s) => Atom::Text(s.clone()),
            Atom::Number(s) => Atom::Number(s.clone()),
        }
    }
}

impl PartialEq for Atom {
    fn eq(&self, other: &Atom) -> (r: bool)
        ensures
            r == (self@ == other@),
    {
        match (self, other) {
            (Atom::Text(a), Atom::Text(b)) => *a == *b,
            (Atom::Number(a), Atom::Number(b)) => *a == *b,
            _ => false,
        }
    }
}

impl Eq for Atom {

}

impl vstd::std_specs::cmp::PartialEqSpecImpl for Atom {
    open spec fn obeys_eq_spec() -> bool {
        true
    }

    open spec fn eq_spec(&self, other: &Atom) -> bool {
        self@ == other@
    }
}

/// A named key bound to a nested expression.
#[derive(Debug)]
pub struct Binding {
    pub name: String,
    pub value: Box<Expression>,
    pub span: LexicalSpan,
}

/// The mathematical content of a binding.
#[verifier::ext_equal]
pub struct BindingView {
    pub name: Seq<char>,
    pub value: Box<ExpressionView>,
    pub span: LexicalSpan,
}

/// The three shapes an expression can take.
#[derive(Debug)]
pub enum ExpressionData {
    Presence(Atom, LexicalSpan),
    BindingExpr(Binding),
    List(Vec<Expression>, LexicalSpan),
}

/// The mathematical content of an expression's data.
#[verifier::ext_equal]
pub enum ExpressionDataView {
    Presence(AtomView, LexicalSpan),
    BindingExpr(BindingView),
    List(Seq<ExpressionView>, LexicalSpan),
}

/// An expression node: its data and an optional attached comment, which
/// only the pretty renderer shows.
#[derive(Debug)]
pub struct Expression {
    pub data: ExpressionData,
    pub comment: Option<String>,
}

/// The mathematical content of an expression node.
#[verifier::ext_equal]
pub struct ExpressionView {
    pub data: ExpressionDataView,
    pub comment: Option<Seq<char>>,
}

pub open spec fn spec_view_of_comment(c: Option<String>) -> Option<Seq<char>> {
    match c {
        Some(s) => Some(s@),
        None => None,
    }
}

pub open spec fn spec_view_of_expr(e: Expression) -> ExpressionView
    decreases e, 1int,
{
    ExpressionView { data: spec_view_of_data(e.data), comment: spec_view_of_comment(e.comment) }
}

pub open spec fn spec_view_of_data(d: ExpressionData) -> ExpressionDataView
    decreases d, 0int,
{
    match d {
        ExpressionData::Presence(a, s) => ExpressionDataView::Presence(a@, s),
        ExpressionData::BindingExpr(b) => ExpressionDataView::BindingExpr(
            BindingView { name: b.name@, value: Box::new(spec_view_of_expr(*b.value)), span: b.span },
        ),
        ExpressionData::List(c, s) => ExpressionDataView::List(spec_view_of_list(c@), s),
    }
}

pub open spec fn spec_view_of_list(c: Seq<Expression>) -> Seq<ExpressionView>
    decreases c, 2int,
{
    Seq::new(
        c.len(),
        |i: int|
            if 0 <= i < c.len() {
                spec_view_of_expr(c[i])
            } else {
                arbitrary()
            },
    )
}

impl View for Expression {
    type V = ExpressionView;

    open spec fn view(&self) -> ExpressionView {
        spec_view_of_expr(*self)
    }
}

impl View for ExpressionData {
    type V = ExpressionDataView;

    open spec fn view(&self) -> ExpressionDataView {
        spec_view_of_data(*self)
    }
}

impl View for Binding {
    type V = BindingView;

    open spec fn view(&self) -> BindingView {
        BindingView {
            name: self.name@,
            value: Box::new(spec_view_of_expr(*self.value)),
            span: self.span,
        }
    }
}

/// The span attached to an expression's data.
pub open spec fn spec_span_of(d: ExpressionDataView) -> LexicalSpan {
    match d {
        ExpressionDataView::Presence(_, s) => s,
        ExpressionDataView::BindingExpr(b) => b.span,
        ExpressionDataView::List(_, s) => s,
    }
}

impl ExpressionData {
    pub fn span(&self) -> (r: LexicalSpan)
        ensures
            r == spec_span_of(self@),
    {
        match self {
            ExpressionData::Presence(_, s) => *s,
            ExpressionData::BindingExpr(b) => b.span,
            ExpressionData::List(_, s) => *s,
        }
    }

    pub fn is_presence(&self) -> (r: bool)
        ensures
            r == (self@ is Presence),
    {
        matches!(self, ExpressionData::Presence(_, _))
    }

    pub fn is_binding(&self) -> (r: bool)
        ensures
            r == (self@ is BindingExpr),
    {
        matches!(self, ExpressionData::BindingExpr(_))
    }

    pub fn is_list(&self) -> (r: bool)
        ensures
            r == (self@ is List),
    {
        matches!(self, ExpressionData::List(_, _))
    }

    /// The name of this shape, as error messages speak of it.
    pub fn name_of_kind(&self) -> (r: String)
        ensures
            r@ == spec_name_of_kind(self@),
    {
        match self {
            ExpressionData::Presence(_, _) => String::from_str("Presence"),
            ExpressionData::BindingExpr(_) => String::from_str("Binding"),
            ExpressionData::List(_, _) => String::from_str("List"),
        }
    }
}

pub open spec fn spec_name_of_kind(d: ExpressionDataView) -> Seq<char> {
    match d {
        ExpressionDataView::Presence(_, _) => "Presence"@,
        ExpressionDataView::BindingExpr(_) => "Binding"@,
        ExpressionDataView::List(_, _) => "List"@,
    }
}

/// Structural equality of expressions, spans and comments included.
fn eq_expr(a: &Expression, b: &Expression) -> (r: bool)
    ensures
        r == (a@ == b@),
    decreases *a,
{
    let comments_eq = match (&a.comment, &b.comment) {
        (Option::Some(x), Option::Some(y)) => *x == *y,
        (Option::None, Option::None) => true,
        _ => false,
    };
    if !comments_eq {
        return false;
    }
    match (&a.data, &b.data) {
        (ExpressionData::Presence(x, s), ExpressionData::Presence(y, t)) => {
            let r = *x == *y && *s == *t;
            proof {
                if r {
                    assert(a@ =~= b@);
                }
            }
            r
        },
        (ExpressionData::BindingExpr(x), ExpressionData::BindingExpr(y)) => {
            proof {
                assert(a@.data == ExpressionDataView::BindingExpr(x@));
                assert(b@.data == ExpressionDataView::BindingExpr(y@));
            }
            if !(x.name == y.name && x.span == y.span) {
                return false;
            }
            let r = eq_expr(&x.value, &y.value);
            proof {
                if r {
                    assert(a@ =~= b@);
                }
            }
            r
        },
        (ExpressionData::List(x, s), ExpressionData::List(y, t)) => {
            proof {
                assert(a@.data == ExpressionDataView::List(spec_view_of_list(x@), *s));
                assert(b@.data == ExpressionDataView::List(spec_view_of_list(y@), *t));
            }
            if !(*s == *t) || x.len() != y.len() {
                proof {
                    assert(spec_view_of_list(x@).len() == x@.len());
                    assert(spec_view_of_list(y@).len() == y@.len());
                }
                return false;
            }
            let mut i: usize = 0;
            while i < x.len()
                invariant
                    i <= x@.len(),
                    x@.len() == y@.len(),
                    a.data == ExpressionData::List(*x, *s),
                    b.data == ExpressionData::List(*y, *t),
                    a@.comment == b@.comment,
                    a@.data == ExpressionDataView::List(spec_view_of_list(x@), *s),
                    b@.data == ExpressionDataView::List(spec_view_of_list(y@), *t),
                    *s == *t,
                    forall|j: int|
                        0 <= j < i ==> spec_view_of_list(x@)[j] == spec_view_of_list(y@)[j],
                decreases x@.len() - i,
            {
                proof {
                    assert(a.data == ExpressionData::List(*x, *s));
                    assert(decreases_to!(*a => a.data));
                    assert(decreases_to!(a.data => *x));
                    assert(decreases_to!(*x => x@[i as int]));
                }
                if !eq_expr(&x[i], &y[i]) {
                    assert(spec_view_of_list(x@)[i as int] != spec_view_of_list(y@)[i as int]);
                    return false;
                }
                i = i + 1;
            }
            proof {
                assert(spec_view_of_list(x@) =~= spec_view_of_list(y@));
                assert(a@ =~= b@);
            }
            true
        },
        _ => false,
    }
}

impl Clone for Expression {
    /// A copy of the whole tree with the same content.
    fn clone(&self) -> (r: Expression)
        ensures
            r@ == self@,
    {
        self.deep_clone()
    }
}

impl PartialEq for Expression {
    fn eq(&self, other: &Expression) -> (r: bool)
        ensures
            r == (self@ == other@),
    {
        eq_expr(self, other)
    }
}

impl Eq for Expression {

}

impl vstd::std_specs::cmp::PartialEqSpecImpl for Expression {
    open spec fn obeys_eq_spec() -> bool {
        true
    }

    open spec fn eq_spec(&self, other: &Expression) -> bool {
        self@ == other@
    }
}

impl PartialEq for ExpressionData {
    fn eq(&self, other: &ExpressionData) -> (r: bool)
        ensures
            r == (self@ == other@),
    {
        let a = Expression { data: clone_data(self), comment: Option::None };
        let b = Expression { data: clone_data(other), comment: Option::None };
        let r = eq_expr(&a, &b);
        proof {
            if a@ == b@ {
                assert(self@ == other@);
            } else {
                assert(self@ != other@);
            }
        }
        r
    }
}

impl Eq for ExpressionData {

}

impl vstd::std_specs::cmp::PartialEqSpecImpl for ExpressionData {
    open spec fn obeys_eq_spec() -> bool {
        true
    }

    open spec fn eq_spec(&self, other: &ExpressionData) -> bool {
        self@ == other@
    }
}

/// A copy of an atom with the same content.
pub fn clone_atom(a: &Atom) -> (r: Atom)
    ensures
        r@ == a@,
{
    match a {
        Atom::Text(s) => Atom::Text(s.clone()),
        Atom::Number(s) => Atom::Number(s.clone()),
    }
}

/// A copy of expression data with the same content.
pub fn clone_data(d: &ExpressionData) -> (r: ExpressionData)
    ensures
        r@ == d@,
    decreases *d,
{
    match d {
        ExpressionData::Presence(a, s) => ExpressionData::Presence(clone_atom(a), *s),
        ExpressionData::BindingExpr(b) => {
            let value = Box::new(b.value.deep_clone());
            let r = ExpressionData::BindingExpr(
                Binding { name: b.name.clone(), value, span: b.span },
            );
            assert(r@ =~= d@);
            r
        },
        ExpressionData::List(c, s) => {
            let mut out: Vec<Expression> = Vec::new();
            let mut i: usize = 0;
            while i < c.len()
                invariant
                    i <= c@.len(),
                    out@.len() == i,
                    *d == ExpressionData::List(*c, *s),
                    forall|j: int|
                        0 <= j < i ==> spec_view_of_list(out@)[j] == spec_view_of_list(c@)[j],
                decreases c@.len() - i,
            {
                proof {
                    assert(*d == ExpressionData::List(*c, *s));
                    assert(d->List_0 == *c);
                    assert(decreases_to!(*d => d->List_0));
                    assert(decreases_to!(*c => c@[i as int]));
                }
                out.push(c[i].deep_clone());
                assert(spec_view_of_list(out@)[i as int] == spec_view_of_list(c@)[i as int]);
                assert(forall|j: int|
                    0 <= j < i ==> spec_view_of_list(out@)[j] == spec_view_of_list(c@)[j]);
                i = i + 1;
            }
            let r = ExpressionData::List(out, *s);
            proof {
                assert(spec_view_of_list(out@) =~= spec_view_of_list(c@));
                assert(r@ =~= d@);
            }
            r
        },
    }
}

impl Expression {
    /// A copy of this node and everything below it, with the same
    /// content.
    pub fn deep_clone(&self) -> (r: Expression)
        ensures
            r@ == self@,
        decreases *self,
    {
        let comment = match &self.comment {
            Option::Some(c) => Option::Some(c.clone()),
            Option::None => Option::None,
        };
        let r = Expression { data: clone_data(&self.data), comment };
        assert(r@ =~= self@);
        r
    }

    pub fn new(data: ExpressionData, comment: Option<String>) -> (r: Expression)
        ensures
            r@.data == data@,
            r@.comment == spec_view_of_comment(comment),
    {
        Expression { data, comment }
    }

    /// A bare scalar with no place in any source text yet.
    pub fn presence(value: Atom) -> (r: Expression)
        ensures
            r@ == (ExpressionView {
                data: ExpressionDataView::Presence(value@, LexicalSpan { start: 0, end: 0 }),
                comment: None,
            }),
    {
        Expression {
            data: ExpressionData::Presence(value, LexicalSpan::zeros()),
            comment: Option::None,
        }
    }

    /// A bare text scalar.
    pub fn presence_str(value: &str) -> (r: Expression)
        ensures
            r@ == (ExpressionView {
                data: ExpressionDataView::Presence(
                    AtomView::Text(value@),
                    LexicalSpan { start: 0, end: 0 },
                ),
                comment: None,
            }),
    {
        Expression::presence(Atom::Text(String::from_str(value)))
    }

    /// A key bound to a value.
    pub fn binding(key: &str, value: Expression) -> (r: Expression)
        ensures
            r@ == (ExpressionView {
                data: ExpressionDataView::BindingExpr(
                    BindingView {
                        name: key@,
                        value: Box::new(value@),
                        span: LexicalSpan { start: 0, end: 0 },
                    },
                ),
                comment: None,
            }),
    {
        let r = Expression {
            data: ExpressionData::BindingExpr(
                Binding {
                    name: String::from_str(key),
                    value: Box::new(value),
                    span: LexicalSpan::zeros(),
                },
            ),
            comment: Option::None,
        };
        assert(r@ =~= (ExpressionView {
            data: ExpressionDataView::BindingExpr(
                BindingView {
                    name: key@,
                    value: Box::new(value@),
                    span: LexicalSpan { start: 0, end: 0 },
                },
            ),
            comment: None,
        }));
        r
    }

    /// An ordered sequence of sibling expressions.
    pub fn list(vec: Vec<Expression>) -> (r: Expression)
        ensures
            r@ == (ExpressionView {
                data: ExpressionDataView::List(
                    spec_view_of_list(vec@),
                    LexicalSpan { start: 0, end: 0 },
                ),
                comment: None,
            }),
    {
        Expression { data: ExpressionData::List(vec, LexicalSpan::zeros()), comment: Option::None }
    }

    /// The same node with a comment attached.
    pub fn with_comment(self, comment: String) -> (r: Expression)
        ensures
            r@ == (ExpressionView { data: self@.data, comment: Some(comment@) }),
    {
        Expression { data: self.data, comment: Option::Some(comment) }
    }

    /// The same node, placed on the given span.
    pub fn with_span(self, lexical_span: LexicalSpan) -> (r: Expression)
        ensures
            r@ == spec_with_span(self@, lexical_span),
    {
        let ghost ov = self@;
        let Expression { data, comment } = self;
        let data = match data {
            ExpressionData::Presence(a, _) => ExpressionData::Presence(a, lexical_span),
            ExpressionData::BindingExpr(b) => ExpressionData::BindingExpr(
                Binding { name: b.name, value: b.value, span: lexical_span },
            ),
            ExpressionData::List(c, _) => ExpressionData::List(c, lexical_span),
        };
        let r = Expression { data, comment };
        assert(r@ =~= spec_with_span(ov, lexical_span));
        r
    }

    pub fn span(&self) -> (r: LexicalSpan)
        ensures
            r == spec_span_of(self@.data),
    {
        self.data.span()
    }

    pub fn is_presence(&self) -> (r: bool)
        ensures
            r == (self@.data is Presence),
    {
        self.data.is_presence()
    }

    pub fn is_binding(&self) -> (r: bool)
        ensures
            r == (self@.data is BindingExpr),
    {
        self.data.is_binding()
    }

    pub fn is_list(&self) -> (r: bool)
        ensures
            r == (self@.data is List),
    {
        self.data.is_list()
    }
}

/// The same view with the top node's span replaced.
pub open spec fn spec_with_span(v: ExpressionView, span: LexicalSpan) -> ExpressionView {
    ExpressionView {
        data: match v.data {
            ExpressionDataView::Presence(a, _) => ExpressionDataView::Presence(a, span),
            ExpressionDataView::BindingExpr(b) => ExpressionDataView::BindingExpr(
                BindingView { name: b.name, value: b.value, span },
            ),
            ExpressionDataView::List(c, _) => ExpressionDataView::List(c, span),
        },
        comment: v.comment,
    }
}

/// The characters that carry structure in the text format and must be
/// escaped inside atom text: `(`, `)`, `=`, `#` and the escape character
/// itself.
pub open spec fn spec_needs_escape(c: char) -> bool {
    c == '(' || c == ')' || c == '=' || c == '#' || c == '\\'
}

/// Escaping: a backslash is placed before every structural character.
pub open spec fn spec_escape(s: Seq<char>) -> Seq<char>
    decreases s.len(),
{
    if s.len() == 0 {
        Seq::<char>::empty()
    } else {
        (if spec_needs_escape(s[0]) {
            seq!['\\', s[0]]
        } else {
            seq![s[0]]
        }) + spec_escape(s.drop_first())
    }
}

/// Unescaping: a backslash followed by a structural character stands for
/// that character alone; any other character, a stray backslash included,
/// stands for itself.
pub open spec fn spec_unescape(s: Seq<char>) -> Seq<char>
    decreases s.len(),
{
    if s.len() == 0 {
        Seq::<char>::empty()
    } else if s[0] == '\\' && s.len() >= 2 && spec_needs_escape(s[1]) {
        seq![s[1]] + spec_unescape(s.skip(2))
    } else {
        seq![s[0]] + spec_unescape(s.drop_first())
    }
}

/// Escape invertibility under concatenation: an escaped string followed
/// by anything decodes to the string followed by the decoded rest.
pub proof fn lemma_unescape_escape_prefix(x: Seq<char>, rest: Seq<char>)
    ensures
        spec_unescape(spec_escape(x) + rest) == x + spec_unescape(rest),
    decreases x.len(),
{
    if x.len() == 0 {
        assert(spec_escape(x) + rest =~= rest);
        assert(x + spec_unescape(rest) =~= spec_unescape(rest));
    } else {
        lemma_unescape_escape_prefix(x.drop_first(), rest);
        let e = spec_escape(x) + rest;
        if spec_needs_escape(x[0]) {
            assert(spec_escape(x) =~= seq!['\\', x[0]] + spec_escape(x.drop_first()));
            assert(e[0] == '\\' && e.len() >= 2 && e[1] == x[0]);
            assert(e.skip(2) =~= spec_escape(x.drop_first()) + rest);
            assert(spec_unescape(e) == seq![x[0]] + spec_unescape(e.skip(2)));
            assert(spec_unescape(e) =~= x + spec_unescape(rest));
        } else {
            assert(spec_escape(x) =~= seq![x[0]] + spec_escape(x.drop_first()));
            assert(x[0] != '\\');
            assert(e[0] == x[0]);
            assert(e.drop_first() =~= spec_escape(x.drop_first()) + rest);
            assert(spec_unescape(e) == seq![e[0]] + spec_unescape(e.drop_first()));
            assert(spec_unescape(e) =~= x + spec_unescape(rest));
        }
    }
}

/// Escape invertibility: decoding an escaped string gives back exactly
/// the original, whatever characters it held.
pub proof fn lemma_unescape_escape(s: Seq<char>)
    ensures
        spec_unescape(spec_escape(s)) == s,
    decreases s.len(),
{
    if s.len() == 0 {
        assert(spec_escape(s) =~= Seq::<char>::empty());
        assert(spec_unescape(spec_escape(s)) =~= s);
    } else {
        lemma_unescape_escape(s.drop_first());
        let e = spec_escape(s);
        if spec_needs_escape(s[0]) {
            assert(e =~= seq!['\\', s[0]] + spec_escape(s.drop_first()));
            assert(e[0] == '\\' && e.len() >= 2 && spec_needs_escape(e[1]));
            assert(e.skip(2) =~= spec_escape(s.drop_first()));
            assert(spec_unescape(e) == seq![e[1]] + spec_unescape(e.skip(2)));
            assert(spec_unescape(e) =~= s);
        } else {
            assert(e =~= seq![s[0]] + spec_escape(s.drop_first()));
            assert(s[0] != '\\');
            assert(e.drop_first() =~= spec_escape(s.drop_first()));
            assert(spec_unescape(e) =~= s);
        }
    }
}

fn needs_escape(c: char) -> (r: bool)
    ensures
        r == spec_needs_escape(c),
{
    c == '(' || c == ')' || c == '=' || c == '#' || c == '\\'
}

/// Escape every structural character in a string.
pub fn escape(message: &str) -> (r: String)
    ensures
        r@ == spec_escape(message@),
{
    let n = message.unicode_len();
    let mut out = String::new();
    let mut i: usize = 0;
    assert(message@.skip(0) =~= message@);
    while i < n
        invariant
            i <= n,
            n == message@.len(),
            out@ + spec_escape(message@.skip(i as int)) == spec_escape(message@),
        decreases n - i,
    {
        let c = message.get_char(i);
        assert(message@.skip(i as int)[0] == c);
        assert(message@.skip(i as int).drop_first() =~= message@.skip(i + 1));
        if needs_escape(c) {
            out.push('\\');
        }
        out.push(c);
        assert(out@ + spec_escape(message@.skip(i + 1)) =~= spec_escape(message@));
        i = i + 1;
    }
    assert(message@.skip(n as int) =~= Seq::<char>::empty());
    assert(out@ =~= spec_escape(message@));
    out
}

/// Undo `escape`: collapse each backslash-plus-structural-character pair.
pub fn unescape(message: &str) -> (r: String)
    ensures
        r@ == spec_unescape(message@),
{
    let n = message.unicode_len();
    let mut out = String::new();
    let mut i: usize = 0;
    assert(message@.skip(0) =~= message@);
    while i < n
        invariant
            i <= n,
            n == message@.len(),
            out@ + spec_unescape(message@.skip(i as int)) == spec_unescape(message@),
        decreases n - i,
    {
        let c = message.get_char(i);
        assert(message@.skip(i as int)[0] == c);
        if c == '\\' && i + 1 < n && needs_escape(message.get_char(i + 1)) {
            assert(message@.skip(i as int)[1] == message@[i + 1]);
            assert(message@.skip(i as int).skip(2) =~= message@.skip(i + 2));
            out.push(message.get_char(i + 1));
            assert(out@ + spec_unescape(message@.skip(i + 2)) =~= spec_unescape(message@));
            i = i + 2;
        } else {
            assert(message@.skip(i as int).drop_first() =~= message@.skip(i + 1));
            assert(message@.skip(i as int).len() >= 2 ==> message@.skip(i as int)[1]
                == message@[i + 1]);
            out.push(c);
            assert(out@ + spec_unescape(message@.skip(i + 1)) =~= spec_unescape(message@));
            i = i + 1;
        }
    }
    assert(message@.skip(n as int) =~= Seq::<char>::empty());
    assert(out@ =~= spec_unescape(message@));
    out
}

/// A list of exactly one element, the shape minimization collapses.
pub open spec fn spec_is_singleton_list(v: ExpressionView) -> bool {
    v.data matches ExpressionDataView::List(c, _) && c.len() == 1
}

/// Minimization: a one-element list collapses to its sole element;
/// everything else is left alone.
pub open spec fn spec_minimized(v: ExpressionView) -> ExpressionView {
    match v.data {
        ExpressionDataView::List(c, _) => if c.len() == 1 {
            c[0]
        } else {
            v
        },
        _ => v,
    }
}

/// Minimization is idempotent, except on a singleton list whose sole
/// element is again a singleton list, where the second pass collapses
/// one level further.
pub proof fn lemma_minimized_idempotent(v: ExpressionView)
    requires
        !spec_is_singleton_list(spec_minimized(v)),
    ensures
        spec_minimized(spec_minimized(v)) == spec_minimized(v),
{
}

/// Minimizing a singleton list yields its sole element.
pub proof fn lemma_minimized_singleton(v: ExpressionView)
    requires
        spec_is_singleton_list(v),
    ensures
        spec_minimized(v) == v.data->List_0[0],
{
}

/// Minimization leaves every non-singleton-list expression unchanged.
pub proof fn lemma_minimized_no_op(v: ExpressionView)
    requires
        !spec_is_singleton_list(v),
    ensures
        spec_minimized(v) == v,
{
}

impl Expression {
    /// Convert this expression to the smallest form which holds it: a
    /// list of exactly one element is replaced by that element.
    pub fn minimized(self) -> (r: Expression)
        ensures
            r@ == spec_minimized(self@),
    {
        let ghost ov = self@;
        let Expression { data, comment } = self;
        proof {
            assert(ov == ExpressionView {
                data: spec_view_of_data(data),
                comment: spec_view_of_comment(comment),
            });
        }
        match data {
            ExpressionData::List(mut c, s) => {
                if c.len() == 1 {
                    let ghost c0 = c@;
                    let r = c.remove(0);
                    proof {
                        assert(ov.data == ExpressionDataView::List(spec_view_of_list(c0), s));
                        assert(spec_view_of_list(c0).len() == 1);
                        assert(spec_view_of_list(c0)[0] == c0[0]@);
                        assert(r@ == spec_minimized(ov));
                    }
                    r
                } else {
                    let r = Expression { data: ExpressionData::List(c, s), comment };
                    proof {
                        assert(ov.data == ExpressionDataView::List(spec_view_of_list(c@), s));
                        assert(spec_view_of_list(c@).len() == c@.len());
                        assert(r@ =~= spec_minimized(ov));
                    }
                    r
                }
            },
            other => {
                let r = Expression { data: other, comment };
                assert(r@ =~= spec_minimized(ov));
                r
            },
        }
    }
}

/// What `get` finds: the first binding named `key`, searched depth-first
/// through lists; a bare presence answers for any key with itself.
pub open spec fn spec_get(v: ExpressionView, key: Seq<char>) -> Option<ExpressionView>
    decreases v, 0int,
{
    match v.data {
        ExpressionDataView::Presence(_, _) => Some(v),
        ExpressionDataView::BindingExpr(b) => if b.name == key {
            Some(*b.value)
        } else {
            None
        },
        ExpressionDataView::List(c, _) => spec_get_list(c, key, 0),
    }
}

pub open spec fn spec_get_list(c: Seq<ExpressionView>, key: Seq<char>, i: int) -> Option<
    ExpressionView,
>
    decreases c, c.len() - i,
{
    if i < 0 || i >= c.len() {
        None
    } else {
        match spec_get(c[i], key) {
            Some(r) => Some(r),
            None => spec_get_list(c, key, i + 1),
        }
    }
}

/// What `release` yields: the atom of a presence, found through any
/// chain of bindings; a list holds no single atom.
pub open spec fn spec_release(v: ExpressionView) -> Option<AtomView>
    decreases v,
{
    match v.data {
        ExpressionDataView::Presence(a, _) => Some(a),
        ExpressionDataView::BindingExpr(b) => spec_release(*b.value),
        ExpressionDataView::List(_, _) => None,
    }
}

impl Expression {
    /// Depth-first search for the first binding with the given key,
    /// unwrapped to its value.
    pub fn get(&self, key: &str) -> (r: Option<Expression>)
        ensures
            match r {
                Some(e) => spec_get(self@, key@) == Some(e@),
                None => spec_get(self@, key@) is None,
            },
        decreases *self,
    {
        match &self.data {
            ExpressionData::Presence(_, _) => Some(self.deep_clone()),
            ExpressionData::BindingExpr(b) => {
                if crate::strutil::str_eq(b.name.as_str(), key) {
                    Some(b.value.deep_clone())
                } else {
                    None
                }
            },
            ExpressionData::List(c, s) => {
                proof {
                    assert(self@.data == ExpressionDataView::List(spec_view_of_list(c@), *s));
                }
                let mut i: usize = 0;
                while i < c.len()
                    invariant
                        i <= c@.len(),
                        self.data == ExpressionData::List(*c, *s),
                        self@.data == ExpressionDataView::List(spec_view_of_list(c@), *s),
                        spec_get_list(spec_view_of_list(c@), key@, 0) == spec_get_list(
                            spec_view_of_list(c@),
                            key@,
                            i as int,
                        ),
                    decreases c@.len() - i,
                {
                    proof {
                        assert(self.data == ExpressionData::List(*c, *s));
                        assert(decreases_to!(*self => self.data));
                        assert(self.data->List_0 == *c);
                        assert(decreases_to!(self.data => self.data->List_0));
                        assert(decreases_to!(*c => c@[i as int]));
                    }
                    match c[i].get(key) {
                        Some(e) => {
                            assert(spec_view_of_list(c@)[i as int] == c@[i as int]@);
                            return Some(e);
                        },
                        None => {
                            assert(spec_view_of_list(c@)[i as int] == c@[i as int]@);
                        },
                    }
                    i = i + 1;
                }
                None
            },
        }
    }

    /// The scalar atom this expression reduces to, if it is a presence
    /// or a chain of bindings ending in one.
    pub fn release(&self) -> (r: Option<&Atom>)
        ensures
            match r {
                Some(a) => spec_release(self@) == Some(a@),
                None => spec_release(self@) is None,
            },
        decreases *self,
    {
        match &self.data {
            ExpressionData::Presence(a, _) => Some(a),
            ExpressionData::BindingExpr(b) => b.value.release(),
            ExpressionData::List(_, _) => None,
        }
    }

    /// Put an expression at the front of this list's elements.
    pub fn prepend_into_list(&mut self, expr: Expression)
        requires
            old(self)@.data is List,
        ensures
            final(self)@.comment == old(self)@.comment,
            final(self)@.data == ExpressionDataView::List(
                seq![expr@] + old(self)@.data->List_0,
                spec_span_of(old(self)@.data),
            ),
    {
        let ghost ov = old(self)@;
        if let ExpressionData::List(l, s) = &mut self.data {
            let ghost oldl = l@;
            l.insert(0, expr);
            assert(spec_view_of_list(l@) =~= seq![expr@] + spec_view_of_list(oldl));
            assert(self@.data =~= ExpressionDataView::List(
                seq![expr@] + ov.data->List_0,
                spec_span_of(ov.data),
            ));
        } else {
            proof {
                assert(false);
            }
        }
    }

    /// Take the first element out of a non-empty list.
    pub fn get_first_expr_or_panic(self) -> (r: Expression)
        requires
            self@.data is List,
            self@.data->List_0.len() > 0,
        ensures
            r@ == self@.data->List_0[0],
    {
        let ghost ov = self@;
        match self.data {
            ExpressionData::List(mut l, _) => {
                proof {
                    assert(ov.data->List_0 == spec_view_of_list(l@));
                    assert(spec_view_of_list(l@).len() == l@.len());
                    assert(spec_view_of_list(l@)[0] == l@[0]@);
                }
                l.remove(0)
            },
            _ => vstd::pervasive::unreached(),
        }
    }
}

/// The compact rendering: a presence is its literal text, a binding is
/// `name = value`, a list wraps its space-joined children in
/// parentheses. Comments are never emitted.
pub open spec fn spec_dump(v: ExpressionView) -> Seq<char>
    decreases v, 0int,
{
    match v.data {
        ExpressionDataView::Presence(a, _) => spec_atom_text(a),
        ExpressionDataView::BindingExpr(b) => b.name + " = "@ + spec_dump(*b.value),
        ExpressionDataView::List(c, _) => seq!['('] + spec_join(spec_dump_list(c), " "@)
            + seq![')'],
    }
}

pub open spec fn spec_dump_list(c: Seq<ExpressionView>) -> Seq<Seq<char>>
    decreases c, 1int,
{
    Seq::new(
        c.len(),
        |i: int|
            if 0 <= i < c.len() {
                spec_dump(c[i])
            } else {
                arbitrary()
            },
    )
}

/// Indentation: the prefix placed at the start and again after every
/// newline.
pub open spec fn spec_indent_body(s: Seq<char>, w: Seq<char>) -> Seq<char>
    decreases s.len(),
{
    if s.len() == 0 {
        Seq::<char>::empty()
    } else {
        (if s[0] == '\n' {
            seq!['\n'] + w
        } else {
            seq![s[0]]
        }) + spec_indent_body(s.drop_first(), w)
    }
}

pub open spec fn spec_indent(s: Seq<char>, w: Seq<char>) -> Seq<char> {
    w + spec_indent_body(s, w)
}

/// The indented rendering without this node's own comment: one child per
/// line, tab-indented inside lists; children still show their comments.
pub open spec fn spec_uncommented_pretty(v: ExpressionView) -> Seq<char>
    decreases v, 0int,
{
    match v.data {
        ExpressionDataView::Presence(a, _) => spec_atom_text(a),
        ExpressionDataView::BindingExpr(b) => b.name + " = "@ + spec_pretty(*b.value),
        ExpressionDataView::List(c, _) => seq!['(', '\n'] + spec_indent(
            spec_join(spec_pretty_list(c), seq!['\n']),
            seq!['\t'],
        ) + seq!['\n', ')'],
    }
}

/// The indented rendering: the attached comment, each line prefixed with
/// `# `, above the node itself.
pub open spec fn spec_pretty(v: ExpressionView) -> Seq<char>
    decreases v, 1int,
{
    match v.comment {
        Some(cm) => spec_indent(cm, "# "@) + seq!['\n'] + spec_uncommented_pretty(v),
        None => spec_uncommented_pretty(v),
    }
}

pub open spec fn spec_pretty_list(c: Seq<ExpressionView>) -> Seq<Seq<char>>
    decreases c, 2int,
{
    Seq::new(
        c.len(),
        |i: int|
            if 0 <= i < c.len() {
                spec_pretty(c[i])
            } else {
                arbitrary()
            },
    )
}

/// Prefix a text with `with`, repeating the prefix after each newline.
fn indent(string: &str, with: &str) -> (r: String)
    ensures
        r@ == spec_indent(string@, with@),
{
    let n = string.unicode_len();
    let mut out = String::from_str(with);
    let mut i: usize = 0;
    assert(string@.skip(0) =~= string@);
    while i < n
        invariant
            i <= n,
            n == string@.len(),
            out@ + spec_indent_body(string@.skip(i as int), with@) == spec_indent(
                string@,
                with@,
            ),
        decreases n - i,
    {
        let c = string.get_char(i);
        assert(string@.skip(i as int)[0] == c);
        assert(string@.skip(i as int).drop_first() =~= string@.skip(i + 1));
        out.push(c);
        if c == '\n' {
            out.append(with);
        }
        assert(out@ + spec_indent_body(string@.skip(i + 1), with@) =~= spec_indent(
            string@,
            with@,
        ));
        i = i + 1;
    }
    assert(string@.skip(n as int) =~= Seq::<char>::empty());
    assert(out@ =~= spec_indent(string@, with@));
    out
}

impl Expression {
    /// Render compactly, never emitting comments.
    pub fn uncomented_dump(&self) -> (r: String)
        ensures
            r@ == spec_dump(self@),
        decreases *self, 0int,
    {
        match &self.data {
            ExpressionData::Presence(a, _) => {
                let r = String::from_str(a.text());
                assert(r@ =~= spec_dump(self@));
                r
            },
            ExpressionData::BindingExpr(b) => {
                let mut out = String::from_str(b.name.as_str());
                out.append(" = ");
                let v = b.value.uncomented_dump();
                out.append(v.as_str());
                assert(out@ =~= spec_dump(self@));
                out
            },
            ExpressionData::List(c, s) => {
                let ghost cv = spec_view_of_list(c@);
                proof {
                    assert(self@.data == ExpressionDataView::List(cv, *s));
                }
                let mut parts: Vec<String> = Vec::new();
                let mut i: usize = 0;
                while i < c.len()
                    invariant
                        i <= c@.len(),
                        parts@.len() == i,
                        self.data == ExpressionData::List(*c, *s),
                        cv == spec_view_of_list(c@),
                        forall|j: int| 0 <= j < i ==> #[trigger] parts@[j]@ == spec_dump_list(cv)[j],
                    decreases c@.len() - i,
                {
                    proof {
                        assert(decreases_to!(*self => self.data));
                        assert(self.data->List_0 == *c);
                        assert(decreases_to!(self.data => self.data->List_0));
                        assert(decreases_to!(*c => c@[i as int]));
                    }
                    let part = c[i].uncomented_dump();
                    proof {
                        assert(spec_view_of_list(c@)[i as int] == c@[i as int]@);
                        assert(spec_dump_list(cv)[i as int] == spec_dump(cv[i as int]));
                    }
                    parts.push(part);
                    i = i + 1;
                }
                let joined = join_strings(&parts, " ");
                proof {
                    assert(parts@.map_values(|p: String| p@) =~= spec_dump_list(cv));
                }
                let mut out = String::new();
                out.push('(');
                out.append(joined.as_str());
                out.push(')');
                assert(out@ =~= spec_dump(self@));
                out
            },
        }
    }

    /// Render compactly. Comments are never part of this rendering, so
    /// re-parsing it reproduces an equivalent tree.
    pub fn dump(&self) -> (r: String)
        ensures
            r@ == spec_dump(self@),
    {
        self.uncomented_dump()
    }

    /// Render with indentation, leaving out this node's own comment.
    pub fn uncomented_pretty(&self) -> (r: String)
        ensures
            r@ == spec_uncommented_pretty(self@),
        decreases *self, 0int,
    {
        match &self.data {
            ExpressionData::Presence(a, _) => {
                let r = String::from_str(a.text());
                assert(r@ =~= spec_uncommented_pretty(self@));
                r
            },
            ExpressionData::BindingExpr(b) => {
                let mut out = String::from_str(b.name.as_str());
                out.append(" = ");
                let v = b.value.pretty();
                out.append(v.as_str());
                assert(out@ =~= spec_uncommented_pretty(self@));
                out
            },
            ExpressionData::List(c, s) => {
                let ghost cv = spec_view_of_list(c@);
                proof {
                    assert(self@.data == ExpressionDataView::List(cv, *s));
                }
                let mut parts: Vec<String> = Vec::new();
                let mut i: usize = 0;
                while i < c.len()
                    invariant
                        i <= c@.len(),
                        parts@.len() == i,
                        self.data == ExpressionData::List(*c, *s),
                        cv == spec_view_of_list(c@),
                        forall|j: int|
                            0 <= j < i ==> #[trigger] parts@[j]@ == spec_pretty_list(cv)[j],
                    decreases c@.len() - i,
                {
                    proof {
                        assert(decreases_to!(*self => self.data));
                        assert(self.data->List_0 == *c);
                        assert(decreases_to!(self.data => self.data->List_0));
                        assert(decreases_to!(*c => c@[i as int]));
                    }
                    let part = c[i].pretty();
                    proof {
                        assert(spec_view_of_list(c@)[i as int] == c@[i as int]@);
                        assert(spec_pretty_list(cv)[i as int] == spec_pretty(cv[i as int]));
                    }
                    parts.push(part);
                    i = i + 1;
                }
                let all = join_strings(&parts, "\n");
                proof {
                    assert(parts@.map_values(|p: String| p@) =~= spec_pretty_list(cv));
                }
                let body = indent(all.as_str(), "\t");
                let mut out = String::new();
                out.push('(');
                out.push('\n');
                out.append(body.as_str());
                out.push('\n');
                out.push(')');
                proof {
                    assert("\n"@ =~= seq!['\n']) by {
                        reveal_strlit("\n");
                    }
                    assert("\t"@ =~= seq!['\t']) by {
                        reveal_strlit("\t");
                    }
                    assert(out@ =~= spec_uncommented_pretty(self@));
                }
                out
            },
        }
    }

    /// Render with indentation, the attached comment above the node as
    /// `# `-prefixed lines.
    pub fn pretty(&self) -> (r: String)
        ensures
            r@ == spec_pretty(self@),
        decreases *self, 1int,
    {
        match &self.comment {
            Option::Some(comment) => {
                let mut out = indent(comment.as_str(), "# ");
                out.push('\n');
                let rest = self.uncomented_pretty();
                out.append(rest.as_str());
                assert(out@ =~= spec_pretty(self@));
                out
            },
            Option::None => {
                let r = self.uncomented_pretty();
                assert(r@ =~= spec_pretty(self@));
                r
            },
        }
    }

    /// The compact rendering with every structural character escaped.
    pub fn escaped_dump(&self) -> (r: String)
        ensures
            r@ == spec_escape(spec_dump(self@)),
    {
        let d = self.dump();
        escape(d.as_str())
    }

    /// The indented rendering with every structural character escaped.
    pub fn escaped_pretty(&self) -> (r: String)
        ensures
            r@ == spec_escape(spec_pretty(self@)),
    {
        let p = self.pretty();
        escape(p.as_str())
    }
}

} // verus!
