//! The grammar of the derive's attribute arguments:
//! `item (, item)* [,]` where an item is a path, optionally followed by
//! `= expression`. Which items take a value depends on the attribute.
//!
//! Expressions are read as far as the derive interprets them: paths, string,
//! integer and boolean literals, and calls of a path on such arguments. Any
//! other expression is kept as `Other`.
use vstd::prelude::*;
use vstd::string::*;
use crate::model::{TokenTree, Delimiter};
use crate::symbol::{Symbol, spec_symbol_of};
use crate::parser::literal::{lit_str_value, string_literal_value};

verus! {

/// Span of a token tree.
pub open spec fn spec_span(t: TokenTree) -> usize {
    match t {
        TokenTree::Group { span, .. } => span,
        TokenTree::Ident { span, .. } => span,
        TokenTree::Punct { span, .. } => span,
        TokenTree::Literal { span, .. } => span,
    }
}

/// Span of a token tree.
pub fn span_of(t: &TokenTree) -> (r: usize)
    ensures
        r == spec_span(*t),
{
    match t {
        TokenTree::Group { span, .. } => *span,
        TokenTree::Ident { span, .. } => *span,
        TokenTree::Punct { span, .. } => *span,
        TokenTree::Literal { span, .. } => *span,
    }
}

/// Whether a token is the punctuation `c`.
pub open spec fn is_punct(t: TokenTree, c: char) -> bool {
    match t {
        TokenTree::Punct { ch, .. } => ch == c,
        _ => false,
    }
}

fn punct_is(t: &TokenTree, c: char) -> (r: bool)
    ensures
        r == is_punct(*t, c),
{
    match t {
        TokenTree::Punct { ch, .. } => *ch == c,
        _ => false,
    }
}

/// Whether `::` starts at position `i`.
pub open spec fn colon2_at(toks: Seq<TokenTree>, i: int) -> bool {
    &&& 0 <= i
    &&& i + 1 < toks.len()
    &&& match toks[i] {
        TokenTree::Punct { ch, joint, .. } => ch == ':' && joint,
        _ => false,
    }
    &&& is_punct(toks[i + 1], ':')
}

fn colon2(toks: &Vec<TokenTree>, i: usize) -> (r: bool)
    ensures
        r == colon2_at(toks@, i as int),
{
    if i >= toks.len() || toks.len() - i < 2 {
        return false;
    }
    let first = match &toks[i] {
        TokenTree::Punct { ch, joint, .. } => *ch == ':' && *joint,
        _ => false,
    };
    first && punct_is(&toks[i + 1], ':')
}

/// The identifier at position `i`, if there is one.
pub open spec fn ident_at(toks: Seq<TokenTree>, i: int) -> Option<Seq<char>> {
    if 0 <= i < toks.len() {
        match toks[i] {
            TokenTree::Ident { text, .. } => Some(text@),
            _ => None,
        }
    } else {
        None
    }
}

fn ident_text(toks: &Vec<TokenTree>, i: usize) -> (r: Option<String>)
    ensures
        match r {
            Some(s) => ident_at(toks@, i as int) == Some(s@),
            None => ident_at(toks@, i as int) is None,
        },
{
    if i >= toks.len() {
        return None;
    }
    match &toks[i] {
        TokenTree::Ident { text, .. } => Some(text.clone()),
        _ => None,
    }
}

/// A path inside attribute arguments: `a`, `a::b`, `::a`.
#[derive(Debug)]
pub struct MetaPath {
    pub leading_colon: bool,
    pub segments: Vec<String>,
    pub span: usize,
}

/// What a `MetaPath` denotes.
pub struct MetaPathV {
    pub leading_colon: bool,
    pub segments: Seq<Seq<char>>,
    pub span: usize,
}

impl View for MetaPath {
    type V = MetaPathV;

    open spec fn view(&self) -> MetaPathV {
        MetaPathV {
            leading_colon: self.leading_colon,
            segments: self.segments@.map_values(|s: String| s@),
            span: self.span,
        }
    }
}

/// The path's only identifier, when it is one plain identifier.
pub open spec fn spec_require_ident(p: MetaPathV) -> Option<Seq<char>> {
    if !p.leading_colon && p.segments.len() == 1 {
        Some(p.segments[0])
    } else {
        None
    }
}

impl MetaPath {
    /// The path's only identifier, when it is one plain identifier.
    pub fn require_ident(&self) -> (r: Option<&String>)
        ensures
            match r {
                Some(s) => spec_require_ident(self@) == Some(s@),
                None => spec_require_ident(self@) is None,
            },
    {
        if !self.leading_colon && self.segments.len() == 1 {
            Some(&self.segments[0])
        } else {
            None
        }
    }

    /// The symbol the path names, when it is one plain identifier.
    pub fn symbol(&self) -> (r: Option<Symbol>)
        ensures
            r == spec_path_symbol(self@),
    {
        match self.require_ident() {
            Some(s) => Symbol::from_text(s),
            None => None,
        }
    }
}

/// The symbol a path names.
pub open spec fn spec_path_symbol(p: MetaPathV) -> Option<Symbol> {
    match spec_require_ident(p) {
        Some(s) => spec_symbol_of(s),
        None => None,
    }
}

/// The rest of a path after its first segment: `(:: ident)*`.
pub open spec fn spec_path_tail(toks: Seq<TokenTree>, p: int, segs: Seq<Seq<char>>) -> Option<
    (Seq<Seq<char>>, int),
>
    decreases toks.len() - p,
{
    if colon2_at(toks, p) {
        match ident_at(toks, p + 2) {
            Some(t) => spec_path_tail(toks, p + 3, segs.push(t)),
            None => None,
        }
    } else {
        Some((segs, p))
    }
}

/// A path starting at position `p`, and the position after it.
pub open spec fn spec_parse_path(toks: Seq<TokenTree>, p: int) -> Option<(MetaPathV, int)> {
    let lead = colon2_at(toks, p);
    let q = if lead { p + 2 } else { p };
    match ident_at(toks, q) {
        Some(t) => match spec_path_tail(toks, q + 1, seq![t]) {
            Some((segs, r)) => Some(
                (MetaPathV { leading_colon: lead, segments: segs, span: spec_span(toks[p]) }, r),
            ),
            None => None,
        },
        None => None,
    }
}

proof fn lemma_path_tail_progress(toks: Seq<TokenTree>, p: int, segs: Seq<Seq<char>>)
    requires
        0 <= p <= toks.len(),
    ensures
        spec_path_tail(toks, p, segs) matches Some((s, r)) ==> p <= r <= toks.len() && s.len()
            >= segs.len(),
    decreases toks.len() - p,
{
    if colon2_at(toks, p) {
        if let Some(t) = ident_at(toks, p + 2) {
            lemma_path_tail_progress(toks, p + 3, segs.push(t));
        }
    }
}

/// A path that parses starts where asked and ends after it, within the tokens.
pub proof fn lemma_parse_path_progress(toks: Seq<TokenTree>, p: int)
    requires
        0 <= p,
    ensures
        spec_parse_path(toks, p) matches Some((path, q)) ==> p < q <= toks.len()
            && path.segments.len() >= 1,
{
    let lead = colon2_at(toks, p);
    let q = if lead { p + 2 } else { p };
    if let Some(t) = ident_at(toks, q) {
        lemma_path_tail_progress(toks, q + 1, seq![t]);
    }
}

fn parse_path_tail(toks: &Vec<TokenTree>, p: usize, segs: Vec<String>) -> (r: Option<
    (Vec<String>, usize),
>)
    requires
        p <= toks@.len(),
    ensures
        match r {
            Some((s, q)) => spec_path_tail(toks@, p as int, segs@.map_values(|x: String| x@))
                == Some((s@.map_values(|x: String| x@), q as int)),
            None => spec_path_tail(toks@, p as int, segs@.map_values(|x: String| x@)) is None,
        },
    decreases toks@.len() - p,
{
    let n = toks.len();
    if colon2(toks, p) {
        match ident_text(toks, p + 2) {
            Some(t) => {
                let mut segs2 = segs;
                let ghost old_view = segs2@.map_values(|x: String| x@);
                segs2.push(t);
                assert(segs2@.map_values(|x: String| x@) =~= old_view.push(t@));
                parse_path_tail(toks, p + 3, segs2)
            },
            None => None,
        }
    } else {
        Some((segs, p))
    }
}

/// Reads a path at position `p`.
pub fn parse_path(toks: &Vec<TokenTree>, p: usize) -> (r: Option<(MetaPath, usize)>)
    requires
        p <= toks@.len(),
    ensures
        match r {
            Some((path, q)) => spec_parse_path(toks@, p as int) == Some((path@, q as int)),
            None => spec_parse_path(toks@, p as int) is None,
        },
{
    let n = toks.len();
    let lead = colon2(toks, p);
    let q = if lead { p + 2 } else { p };
    match ident_text(toks, q) {
        Some(t) => {
            let mut first: Vec<String> = Vec::new();
            first.push(t);
            assert(first@.map_values(|x: String| x@) =~= seq![t@]);
            match parse_path_tail(toks, q + 1, first) {
                Some((segs, r)) => {
                    let span = span_of(&toks[p]);
                    Some((MetaPath { leading_colon: lead, segments: segs, span }, r))
                },
                None => None,
            }
        },
        None => None,
    }
}

/// The end of the expression that starts at `p`: the next top-level comma,
/// or the end of the tokens.
pub open spec fn spec_run_end(toks: Seq<TokenTree>, p: int) -> int
    decreases toks.len() - p,
{
    if p >= toks.len() {
        toks.len() as int
    } else if is_punct(toks[p], ',') {
        p
    } else {
        spec_run_end(toks, p + 1)
    }
}

pub proof fn lemma_run_end_bounds(toks: Seq<TokenTree>, p: int)
    requires
        0 <= p <= toks.len(),
    ensures
        p <= spec_run_end(toks, p) <= toks.len(),
        spec_run_end(toks, p) < toks.len() ==> is_punct(toks[spec_run_end(toks, p)], ','),
    decreases toks.len() - p,
{
    if p < toks.len() && !is_punct(toks[p], ',') {
        lemma_run_end_bounds(toks, p + 1);
    }
}

fn run_end(toks: &Vec<TokenTree>, p: usize) -> (r: usize)
    requires
        p <= toks@.len(),
    ensures
        r == spec_run_end(toks@, p as int),
        p <= r <= toks@.len(),
{
    proof {
        lemma_run_end_bounds(toks@, p as int);
    }
    let mut i = p;
    while i < toks.len() && !punct_is(&toks[i], ',')
        invariant
            p <= i <= toks@.len(),
            spec_run_end(toks@, i as int) == spec_run_end(toks@, p as int),
        decreases toks@.len() - i,
    {
        i = i + 1;
    }
    i
}


/// An expression that is not a call.
#[derive(Debug)]
pub enum SimpleExpr {
    Path(MetaPath),
    /// A plain string literal, by its contents.
    LitStr { value: String, span: usize },
    /// A numeric literal, by its source text.
    LitNum { text: String, span: usize },
    LitBool { flag: bool, span: usize },
    /// Any other expression.
    Other { span: usize },
}

/// An expression in attribute arguments.
#[derive(Debug)]
pub enum Expr {
    Simple(SimpleExpr),
    /// `path(arg, ...)`
    Call { func: MetaPath, args: Vec<SimpleExpr>, span: usize },
}

pub enum SimpleExprV {
    Path(MetaPathV),
    LitStr(Seq<char>, usize),
    LitNum(Seq<char>, usize),
    LitBool(bool, usize),
    Other(usize),
}

pub enum ExprV {
    Simple(SimpleExprV),
    Call(MetaPathV, Seq<SimpleExprV>, usize),
}

impl View for SimpleExpr {
    type V = SimpleExprV;

    open spec fn view(&self) -> SimpleExprV {
        match self {
            SimpleExpr::Path(p) => SimpleExprV::Path(p@),
            SimpleExpr::LitStr { value, span } => SimpleExprV::LitStr(value@, *span),
            SimpleExpr::LitNum { text, span } => SimpleExprV::LitNum(text@, *span),
            SimpleExpr::LitBool { flag, span } => SimpleExprV::LitBool(*flag, *span),
            SimpleExpr::Other { span } => SimpleExprV::Other(*span),
        }
    }
}

impl View for Expr {
    type V = ExprV;

    open spec fn view(&self) -> ExprV {
        match self {
            Expr::Simple(e) => ExprV::Simple(e@),
            Expr::Call { func, args, span } => ExprV::Call(
                func@,
                args@.map_values(|a: SimpleExpr| a@),
                *span,
            ),
        }
    }
}

/// What a literal token denotes: a string literal by its value, a numeric
/// literal by its source text, anything else by its span.
pub open spec fn spec_classify_literal(t: Seq<char>, span: usize) -> SimpleExprV {
    match lit_str_value(t) {
        Some(v) => SimpleExprV::LitStr(v, span),
        None => if t.len() > 0 && '0' <= t[0] && t[0] <= '9' {
            SimpleExprV::LitNum(t, span)
        } else {
            SimpleExprV::Other(span)
        },
    }
}

fn classify_literal(text: &String, span: usize) -> (r: SimpleExpr)
    ensures
        r@ == spec_classify_literal(text@, span),
{
    match string_literal_value(text) {
        Some(value) => SimpleExpr::LitStr { value, span },
        None => {
            let n = text.as_str().unicode_len();
            if n == 0 {
                return SimpleExpr::Other { span };
            }
            let first = text.as_str().get_char(0);
            if '0' <= first && first <= '9' {
                SimpleExpr::LitNum { text: text.clone(), span }
            } else {
                SimpleExpr::Other { span }
            }
        },
    }
}

/// The expression formed by the tokens from `a` to `b`, if it is not a call;
/// `None` when there is no expression at all.
pub open spec fn spec_classify_simple(toks: Seq<TokenTree>, a: int, b: int) -> Option<SimpleExprV> {
    if b <= a || a < 0 || b > toks.len() {
        None
    } else if b == a + 1 {
        match toks[a] {
            TokenTree::Literal { text, span } => Some(spec_classify_literal(text@, span)),
            TokenTree::Ident { text, span } => if text@ == "true"@ {
                Some(SimpleExprV::LitBool(true, span))
            } else if text@ == "false"@ {
                Some(SimpleExprV::LitBool(false, span))
            } else {
                Some(
                    SimpleExprV::Path(
                        MetaPathV { leading_colon: false, segments: seq![text@], span },
                    ),
                )
            },
            _ => Some(SimpleExprV::Other(spec_span(toks[a]))),
        }
    } else {
        match spec_parse_path(toks, a) {
            Some((path, q)) => if q == b {
                Some(SimpleExprV::Path(path))
            } else {
                Some(SimpleExprV::Other(spec_span(toks[a])))
            },
            None => Some(SimpleExprV::Other(spec_span(toks[a]))),
        }
    }
}

fn classify_simple(toks: &Vec<TokenTree>, a: usize, b: usize) -> (r: Option<SimpleExpr>)
    requires
        b <= toks@.len(),
    ensures
        match r {
            Some(e) => spec_classify_simple(toks@, a as int, b as int) == Some(e@),
            None => spec_classify_simple(toks@, a as int, b as int) is None,
        },
{
    if b <= a {
        return None;
    }
    if b == a + 1 {
        match &toks[a] {
            TokenTree::Literal { text, span } => Some(classify_literal(text, *span)),
            TokenTree::Ident { text, span } => {
                if *text == String::from_str("true") {
                    Some(SimpleExpr::LitBool { flag: true, span: *span })
                } else if *text == String::from_str("false") {
                    Some(SimpleExpr::LitBool { flag: false, span: *span })
                } else {
                    let mut segs: Vec<String> = Vec::new();
                    segs.push(text.clone());
                    assert(segs@.map_values(|x: String| x@) =~= seq![text@]);
                    Some(
                        SimpleExpr::Path(
                            MetaPath { leading_colon: false, segments: segs, span: *span },
                        ),
                    )
                }
            },
            _ => Some(SimpleExpr::Other { span: span_of(&toks[a]) }),
        }
    } else {
        match parse_path(toks, a) {
            Some((path, q)) => {
                if q == b {
                    Some(SimpleExpr::Path(path))
                } else {
                    Some(SimpleExpr::Other { span: span_of(&toks[a]) })
                }
            },
            None => Some(SimpleExpr::Other { span: span_of(&toks[a]) }),
        }
    }
}

/// The comma-separated arguments from position `p` of a call's token stream;
/// `None` when one of them is missing.
pub open spec fn spec_split_args(s: Seq<TokenTree>, p: int) -> Option<Seq<SimpleExprV>>
    decreases s.len() - p,
{
    if p < 0 || p >= s.len() {
        Some(Seq::empty())
    } else {
        let e = spec_run_end(s, p);
        match spec_classify_simple(s, p, e) {
            None => None,
            Some(x) => if e >= s.len() {
                Some(seq![x])
            } else {
                proof {
                    lemma_run_end_bounds(s, p);
                }
                match spec_split_args(s, e + 1) {
                    Some(rest) => Some(seq![x] + rest),
                    None => None,
                }
            },
        }
    }
}

fn split_args(s: &Vec<TokenTree>, p: usize) -> (r: Option<Vec<SimpleExpr>>)
    requires
        p <= s@.len(),
    ensures
        match r {
            Some(args) => spec_split_args(s@, p as int) == Some(args@.map_values(|a: SimpleExpr| a@)),
            None => spec_split_args(s@, p as int) is None,
        },
    decreases s@.len() - p,
{
    if p >= s.len() {
        let v: Vec<SimpleExpr> = Vec::new();
        assert(v@.map_values(|a: SimpleExpr| a@) =~= Seq::<SimpleExprV>::empty());
        return Some(v);
    }
    let e = run_end(s, p);
    proof {
        lemma_run_end_bounds(s@, p as int);
    }
    match classify_simple(s, p, e) {
        None => None,
        Some(x) => {
            if e >= s.len() {
                let mut v: Vec<SimpleExpr> = Vec::new();
                let ghost xv = x@;
                v.push(x);
                assert(v@.map_values(|a: SimpleExpr| a@) =~= seq![xv]);
                Some(v)
            } else {
                match split_args(s, e + 1) {
                    Some(rest) => {
                        let mut v: Vec<SimpleExpr> = Vec::new();
                        let ghost xv = x@;
                        let ghost rv = rest@.map_values(|a: SimpleExpr| a@);
                        v.push(x);
                        let mut rest = rest;
                        v.append(&mut rest);
                        assert(v@.map_values(|a: SimpleExpr| a@) =~= seq![xv] + rv);
                        Some(v)
                    },
                    None => None,
                }
            }
        },
    }
}

/// The expression formed by the tokens from `a` to `b`; `None` when there is
/// no expression or a call lacks an argument.
pub open spec fn spec_classify_expr(toks: Seq<TokenTree>, a: int, b: int) -> Option<ExprV> {
    if 0 <= a && a + 2 <= b <= toks.len() && (match toks[b - 1] {
        TokenTree::Group { delimiter, .. } => delimiter == Delimiter::Parenthesis,
        _ => false,
    }) && (spec_parse_path(toks, a) matches Some((_, q)) && q == b - 1) {
        let path = spec_parse_path(toks, a).unwrap().0;
        match toks[b - 1] {
            TokenTree::Group { stream, .. } => match spec_split_args(stream@, 0) {
                Some(args) => Some(ExprV::Call(path, args, spec_span(toks[a]))),
                None => None,
            },
            _ => None,
        }
    } else {
        match spec_classify_simple(toks, a, b) {
            Some(x) => Some(ExprV::Simple(x)),
            None => None,
        }
    }
}

fn classify_expr(toks: &Vec<TokenTree>, a: usize, b: usize) -> (r: Option<Expr>)
    requires
        b <= toks@.len(),
    ensures
        match r {
            Some(e) => spec_classify_expr(toks@, a as int, b as int) == Some(e@),
            None => spec_classify_expr(toks@, a as int, b as int) is None,
        },
{
    if a < b && b - a >= 2 {
        let is_paren = match &toks[b - 1] {
            TokenTree::Group { delimiter, .. } => match delimiter {
                Delimiter::Parenthesis => true,
                _ => false,
            },
            _ => false,
        };
        if is_paren {
            match parse_path(toks, a) {
                Some((path, q)) => {
                    if q == b - 1 {
                        match &toks[b - 1] {
                            TokenTree::Group { stream, .. } => {
                                return match split_args(stream, 0) {
                                    Some(args) => {
                                        let span = span_of(&toks[a]);
                                        Some(Expr::Call { func: path, args, span })
                                    },
                                    None => None,
                                };
                            },
                            _ => {},
                        }
                    }
                },
                None => {},
            }
        }
    }
    match classify_simple(toks, a, b) {
        Some(x) => Some(Expr::Simple(x)),
        None => None,
    }
}


/// The value part of an item.
#[derive(Debug)]
pub enum MetaValue {
    /// No `= value` was read.
    Absent,
    /// `= value`, with the value read.
    Parsed(Expr),
    /// `=` followed by no readable expression.
    Unparseable,
}

/// One item of an attribute's arguments.
#[derive(Debug)]
pub struct MetaItem {
    pub path: MetaPath,
    pub value: MetaValue,
}

pub enum MetaValueV {
    Absent,
    Parsed(ExprV),
    Unparseable,
}

pub struct MetaItemV {
    pub path: MetaPathV,
    pub value: MetaValueV,
}

impl View for MetaItem {
    type V = MetaItemV;

    open spec fn view(&self) -> MetaItemV {
        MetaItemV {
            path: self.path@,
            value: match &self.value {
                MetaValue::Absent => MetaValueV::Absent,
                MetaValue::Parsed(e) => MetaValueV::Parsed(e@),
                MetaValue::Unparseable => MetaValueV::Unparseable,
            },
        }
    }
}

/// Which attribute the arguments belong to; it decides which items take a value.
#[derive(Debug, Clone, Copy, PartialEq, Eq, Structural)]
pub enum AttrContext {
    /// `#[builder(...)]` on a field.
    FieldBuilder,
    /// `#[builder(...)]` on the container.
    ContainerBuilder,
    /// `#[group(...)]` on the container.
    GroupDefinition,
}

/// Whether an item with this path reads `= value` when one follows.
pub open spec fn takes_value(ctx: AttrContext, path: MetaPathV) -> bool {
    match ctx {
        AttrContext::FieldBuilder => match spec_path_symbol(path) {
            Some(Symbol::Mandatory) | Some(Symbol::Optional) | Some(Symbol::Group) => true,
            _ => false,
        },
        AttrContext::ContainerBuilder => match spec_path_symbol(path) {
            Some(Symbol::AssumeMandatory) | Some(Symbol::Solver) => true,
            _ => false,
        },
        AttrContext::GroupDefinition => spec_require_ident(path) is Some,
    }
}

fn item_takes_value(ctx: AttrContext, path: &MetaPath) -> (r: bool)
    ensures
        r == takes_value(ctx, path@),
{
    match ctx {
        AttrContext::FieldBuilder => match path.symbol() {
            Some(Symbol::Mandatory) | Some(Symbol::Optional) | Some(Symbol::Group) => true,
            _ => false,
        },
        AttrContext::ContainerBuilder => match path.symbol() {
            Some(Symbol::AssumeMandatory) | Some(Symbol::Solver) => true,
            _ => false,
        },
        AttrContext::GroupDefinition => path.require_ident().is_some(),
    }
}

/// The items from position `p` on, after the items `acc`; the flag tells
/// whether the arguments were well formed to their end.
pub open spec fn spec_items(
    toks: Seq<TokenTree>,
    ctx: AttrContext,
    p: int,
    acc: Seq<MetaItemV>,
) -> (Seq<MetaItemV>, bool)
    decreases toks.len() - p,
{
    if p < 0 {
        (acc, false)
    } else {
        match spec_parse_path(toks, p) {
            None => (acc, false),
            Some((path, q)) => {
                let has_value = takes_value(ctx, path) && q < toks.len() && is_punct(toks[q], '=');
                let e = spec_run_end(toks, q + 1);
                let value = if has_value {
                    match spec_classify_expr(toks, q + 1, e) {
                        Some(x) => MetaValueV::Parsed(x),
                        None => MetaValueV::Unparseable,
                    }
                } else {
                    MetaValueV::Absent
                };
                let r = if has_value { e } else { q };
                let acc2 = acc.push(MetaItemV { path, value });
                if r >= toks.len() {
                    (acc2, true)
                } else if is_punct(toks[r], ',') {
                    if r + 1 >= toks.len() {
                        (acc2, true)
                    } else {
                        proof {
                            lemma_parse_path_progress(toks, p);
                        }
                        if r + 1 > p {
                            spec_items(toks, ctx, r + 1, acc2)
                        } else {
                            (acc2, false)
                        }
                    }
                } else {
                    (acc2, false)
                }
            },
        }
    }
}

/// The items of an attribute's arguments, and whether they were well formed
/// to their end. Empty arguments are well formed and hold no items.
pub open spec fn spec_parse_nested_meta(toks: Seq<TokenTree>, ctx: AttrContext) -> (
    Seq<MetaItemV>,
    bool,
) {
    if toks.len() == 0 {
        (Seq::empty(), true)
    } else {
        spec_items(toks, ctx, 0, Seq::empty())
    }
}

/// Reads the items of an attribute's arguments; tells whether they were well
/// formed to their end.
pub fn parse_nested_meta(toks: &Vec<TokenTree>, ctx: AttrContext) -> (r: (Vec<MetaItem>, bool))
    ensures
        (r.0@.map_values(|m: MetaItem| m@), r.1) == spec_parse_nested_meta(toks@, ctx),
{
    let mut items: Vec<MetaItem> = Vec::new();
    let n = toks.len();
    if n == 0 {
        assert(items@.map_values(|m: MetaItem| m@) =~= Seq::<MetaItemV>::empty());
        return (items, true);
    }
    let mut p: usize = 0;
    assert(items@.map_values(|m: MetaItem| m@) =~= Seq::<MetaItemV>::empty());
    loop
        invariant
            n == toks@.len(),
            p < n,
            spec_items(toks@, ctx, p as int, items@.map_values(|m: MetaItem| m@))
                == spec_parse_nested_meta(toks@, ctx),
        decreases n - p,
    {
        let ghost acc = items@.map_values(|m: MetaItem| m@);
        proof {
            lemma_parse_path_progress(toks@, p as int);
        }
        match parse_path(toks, p) {
            None => {
                return (items, false);
            },
            Some((path, q)) => {
                let has_value = item_takes_value(ctx, &path) && q < n && punct_is(&toks[q], '=');
                let r;
                let value;
                if has_value {
                    let e = run_end(toks, q + 1);
                    value = match classify_expr(toks, q + 1, e) {
                        Some(x) => MetaValue::Parsed(x),
                        None => MetaValue::Unparseable,
                    };
                    r = e;
                } else {
                    value = MetaValue::Absent;
                    r = q;
                }
                let item = MetaItem { path, value };
                let ghost iv = item@;
                items.push(item);
                assert(items@.map_values(|m: MetaItem| m@) =~= acc.push(iv));
                if r >= n {
                    return (items, true);
                } else if punct_is(&toks[r], ',') {
                    if r + 1 >= n {
                        return (items, true);
                    }
                    p = r + 1;
                } else {
                    return (items, false);
                }
            },
        }
    }
}

} // verus!
