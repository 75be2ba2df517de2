//! `#[group(name = exact(N) | at_least(N) | at_most(N) | single, ...)]`
use vstd::prelude::*;
use vstd::string::*;
use crate::diagnostic::{Diagnostic, DiagnosticKind, error, error_at};
use crate::info::group::{Group, GroupType, GroupV, GroupCollection, spec_define, spec_find};
use crate::model::{Attribute, AttrMeta};
use crate::parser::meta::{
    AttrContext, Expr, ExprV, MetaItem, MetaItemV, MetaPath, MetaPathV, MetaValue, MetaValueV,
    SimpleExpr, SimpleExprV, parse_nested_meta, spec_parse_nested_meta, spec_require_ident,
};
use crate::symbol::{Symbol, spec_symbol_of};
use crate::parser::literal::{lit_int_value, int_literal_value};

verus! {

/// Span of a simple expression.
pub open spec fn simple_span(e: SimpleExprV) -> usize {
    match e {
        SimpleExprV::Path(p) => p.span,
        SimpleExprV::LitStr(_, s) => s,
        SimpleExprV::LitNum(_, s) => s,
        SimpleExprV::LitBool(_, s) => s,
        SimpleExprV::Other(s) => s,
    }
}

fn span_of_simple(e: &SimpleExpr) -> (r: usize)
    ensures
        r == simple_span(e@),
{
    match e {
        SimpleExpr::Path(p) => p.span,
        SimpleExpr::LitStr { span, .. } => *span,
        SimpleExpr::LitNum { span, .. } => *span,
        SimpleExpr::LitBool { span, .. } => *span,
        SimpleExpr::Other { span } => *span,
    }
}

/// The group type of `func(args)`, or what is wrong with it.
pub open spec fn spec_call_group_type(func: MetaPathV, args: Seq<SimpleExprV>, span: usize) -> Result<
    GroupType,
    Diagnostic,
> {
    match spec_require_ident(func) {
        None => Err(error_at(DiagnosticKind::GroupTypeNotIdent, span)),
        Some(type_ident) => if args.len() != 1 {
            Err(error_at(DiagnosticKind::GroupArgumentCount, func.span))
        } else {
            match args[0] {
                SimpleExprV::LitNum(text, _) => match lit_int_value(text) {
                    Some(n) => match spec_symbol_of(type_ident) {
                        Some(Symbol::Exact) => Ok(GroupType::Exact(n)),
                        Some(Symbol::AtLeast) => Ok(GroupType::AtLeast(n)),
                        Some(Symbol::AtMost) => Ok(GroupType::AtMost(n)),
                        Some(Symbol::Single) => Err(
                            error_at(DiagnosticKind::SingleTakesNoArgument, simple_span(args[0])),
                        ),
                        _ => Err(error_at(DiagnosticKind::UnknownGroupType, func.span)),
                    },
                    None => Err(
                        error_at(DiagnosticKind::GroupArgumentUnreadable, simple_span(args[0])),
                    ),
                },
                _ => Err(error_at(DiagnosticKind::GroupArgumentUnreadable, simple_span(args[0]))),
            }
        },
    }
}

/// The group type a bare path names, or what is wrong with it.
pub open spec fn spec_path_group_type(p: MetaPathV) -> Result<GroupType, Diagnostic> {
    match spec_require_ident(p) {
        None => Err(error_at(DiagnosticKind::GroupTypeNotIdent, p.span)),
        Some(t) => match spec_symbol_of(t) {
            Some(Symbol::Single) => Ok(GroupType::Exact(1)),
            Some(Symbol::Exact) | Some(Symbol::AtLeast) | Some(Symbol::AtMost) => Err(
                error_at(DiagnosticKind::MissingGroupArgument, p.span),
            ),
            _ => Err(error_at(DiagnosticKind::UnknownGroupType, p.span)),
        },
    }
}

fn handle_group_call(func: &MetaPath, args: &Vec<SimpleExpr>, span: usize) -> (r: Result<
    GroupType,
    Diagnostic,
>)
    ensures
        r == spec_call_group_type(func@, args@.map_values(|a: SimpleExpr| a@), span),
{
    let ghost argv = args@.map_values(|a: SimpleExpr| a@);
    let type_ident = match func.require_ident() {
        Some(t) => t,
        None => {
            return Err(error(DiagnosticKind::GroupTypeNotIdent, span));
        },
    };
    if args.len() != 1 {
        return Err(error(DiagnosticKind::GroupArgumentCount, func.span));
    }
    assert(argv[0] == args@[0]@);
    let arg_span = span_of_simple(&args[0]);
    let n = match &args[0] {
        SimpleExpr::LitNum { text, .. } => match int_literal_value(text) {
            Some(n) => n,
            None => {
                return Err(error(DiagnosticKind::GroupArgumentUnreadable, arg_span));
            },
        },
        _ => {
            return Err(error(DiagnosticKind::GroupArgumentUnreadable, arg_span));
        },
    };
    match Symbol::from_text(type_ident) {
        Some(Symbol::Exact) => Ok(GroupType::Exact(n)),
        Some(Symbol::AtLeast) => Ok(GroupType::AtLeast(n)),
        Some(Symbol::AtMost) => Ok(GroupType::AtMost(n)),
        Some(Symbol::Single) => Err(error(DiagnosticKind::SingleTakesNoArgument, arg_span)),
        _ => Err(error(DiagnosticKind::UnknownGroupType, func.span)),
    }
}

fn handle_group_path(p: &MetaPath) -> (r: Result<GroupType, Diagnostic>)
    ensures
        r == spec_path_group_type(p@),
{
    match p.require_ident() {
        None => Err(error(DiagnosticKind::GroupTypeNotIdent, p.span)),
        Some(t) => match Symbol::from_text(t) {
            Some(Symbol::Single) => Ok(GroupType::Exact(1)),
            Some(Symbol::Exact) | Some(Symbol::AtLeast) | Some(Symbol::AtMost) => Err(
                error(DiagnosticKind::MissingGroupArgument, p.span),
            ),
            _ => Err(error(DiagnosticKind::UnknownGroupType, p.span)),
        },
    }
}

/// The effect of one item of a group attribute: the groups after it, what it
/// reports, and whether reading stops there.
pub open spec fn spec_group_item(gs: Seq<GroupV>, item: MetaItemV, attr_span: usize) -> (
    Seq<GroupV>,
    Seq<Diagnostic>,
    bool,
) {
    match spec_require_ident(item.path) {
        None => (gs, seq![error_at(DiagnosticKind::GroupNameNotIdent, item.path.span)], false),
        Some(name) => match item.value {
            MetaValueV::Parsed(e) => {
                let t = match e {
                    ExprV::Call(f, args, sp) => spec_call_group_type(f, args, sp),
                    ExprV::Simple(SimpleExprV::Path(p)) => spec_path_group_type(p),
                    ExprV::Simple(_) => Err(
                        error_at(DiagnosticKind::UnreadableGroupType, attr_span),
                    ),
                };
                match t {
                    Err(d) => (gs, seq![d], false),
                    Ok(t) => {
                        let g = GroupV {
                            name,
                            span: item.path.span,
                            indices: Seq::empty(),
                            group_type: t,
                        };
                        (
                            spec_define(gs, g),
                            if spec_find(gs, name) is Some {
                                seq![error_at(DiagnosticKind::GroupDefinedTwice, item.path.span)]
                            } else {
                                Seq::empty()
                            },
                            false,
                        )
                    },
                }
            },
            _ => (gs, Seq::empty(), true),
        },
    }
}

/// The effect of the items of a group attribute, in order, stopping at an
/// item that stops reading.
pub open spec fn spec_group_items(gs: Seq<GroupV>, items: Seq<MetaItemV>, attr_span: usize) -> (
    Seq<GroupV>,
    Seq<Diagnostic>,
    bool,
)
    decreases items.len(),
{
    if items.len() == 0 {
        (gs, Seq::empty(), false)
    } else {
        let (g1, d1, stop) = spec_group_item(gs, items[0], attr_span);
        if stop {
            (g1, d1, true)
        } else {
            let (g2, d2, stop2) = spec_group_items(g1, items.drop_first(), attr_span);
            (g2, d1 + d2, stop2)
        }
    }
}

/// The groups after a `#[group(...)]` attribute, and what it reports.
pub open spec fn spec_group_attribute(gs: Seq<GroupV>, attr: &Attribute) -> (
    Seq<GroupV>,
    Seq<Diagnostic>,
) {
    match &attr.meta {
        AttrMeta::List { tokens, .. } => {
            let (items, ok) = spec_parse_nested_meta(tokens@, AttrContext::GroupDefinition);
            let (g, d, stop) = spec_group_items(gs, items, attr.span);
            (g, if stop || !ok {
                d.push(error_at(DiagnosticKind::MalformedArguments, attr.span))
            } else {
                d
            })
        },
        _ => (gs, seq![error_at(DiagnosticKind::MalformedArguments, attr.span)]),
    }
}

/// Reads group definitions into a collection of groups.
#[derive(Debug)]
pub struct GroupParser {
    pub groups: GroupCollection,
}

impl GroupParser {
    /// A parser that adds to `groups`.
    pub fn new(groups: GroupCollection) -> (r: GroupParser)
        ensures
            r.groups == groups,
    {
        GroupParser { groups }
    }

    fn item(&mut self, item: &MetaItem, attr_span: usize, diags: &mut Vec<Diagnostic>) -> (stop: bool)
        requires
            old(self).groups.wf(),
        ensures
            final(self).groups.wf(),
            ({
                let (g, d, s) = spec_group_item(old(self).groups@, item@, attr_span);
                final(self).groups@ == g && final(diags)@ == old(diags)@ + d && stop == s
            }),
    {
        let name = match item.path.require_ident() {
            None => {
                diags.push(error(DiagnosticKind::GroupNameNotIdent, item.path.span));
                return false;
            },
            Some(n) => n,
        };
        let e = match &item.value {
            MetaValue::Parsed(e) => e,
            _ => {
                assert(old(diags)@ + Seq::<Diagnostic>::empty() =~= old(diags)@);
                return true;
            },
        };
        let t = match e {
            Expr::Call { func, args, span } => handle_group_call(func, args, *span),
            Expr::Simple(SimpleExpr::Path(p)) => handle_group_path(p),
            Expr::Simple(_) => Err(error(DiagnosticKind::UnreadableGroupType, attr_span)),
        };
        match t {
            Err(d) => {
                diags.push(d);
                false
            },
            Ok(t) => {
                let g = Group::new(name.clone(), item.path.span, t);
                assert(g@.indices =~= Seq::<usize>::empty());
                match self.groups.insert(g) {
                    Some(_) => {
                        diags.push(error(DiagnosticKind::GroupDefinedTwice, item.path.span));
                    },
                    None => {
                        assert(old(diags)@ + Seq::<Diagnostic>::empty() =~= old(diags)@);
                    },
                }
                false
            },
        }
    }

    /// Reads one `#[group(...)]` attribute.
    pub fn parse(&mut self, attr: &Attribute, diags: &mut Vec<Diagnostic>)
        requires
            old(self).groups.wf(),
        ensures
            final(self).groups.wf(),
            ({
                let (g, d) = spec_group_attribute(old(self).groups@, attr);
                final(self).groups@ == g && final(diags)@ == old(diags)@ + d
            }),
    {
        let tokens = match &attr.meta {
            AttrMeta::List { tokens, .. } => tokens,
            _ => {
                diags.push(error(DiagnosticKind::MalformedArguments, attr.span));
                return;
            },
        };
        let (items, ok) = parse_nested_meta(tokens, AttrContext::GroupDefinition);
        let ghost itemsv = items@.map_values(|m: MetaItem| m@);
        let ghost start_diags = diags@;
        let ghost total = spec_group_items(self.groups@, itemsv, attr.span);
        let mut i: usize = 0;
        let mut stopped = false;
        assert(itemsv.skip(0) =~= itemsv);
        assert(diags@.subrange(start_diags.len() as int, diags@.len() as int) =~= Seq::<Diagnostic>::empty());
        assert(diags@.subrange(0, start_diags.len() as int) =~= start_diags);
        while i < items.len() && !stopped
            invariant
                i <= items@.len(),
                itemsv == items@.map_values(|m: MetaItem| m@),
                self.groups.wf(),
                !stopped ==> ({
                    let (g, d, s) = spec_group_items(self.groups@, itemsv.skip(i as int), attr.span);
                    total == (g, diags@.subrange(start_diags.len() as int, diags@.len() as int) + d, s)
                }),
                stopped ==> total == (self.groups@, diags@.subrange(start_diags.len() as int, diags@.len() as int), true),
                diags@.subrange(0, start_diags.len() as int) == start_diags,
                start_diags.len() <= diags@.len(),
            decreases items@.len() - i,
        {
            let ghost before_groups = self.groups@;
            let ghost before_diags = diags@;
            assert(itemsv.skip(i as int)[0] == items@[i as int]@);
            assert(itemsv.skip(i as int).drop_first() =~= itemsv.skip(i + 1));
            let stop = self.item(&items[i], attr.span, diags);
            proof {
                let (g1, d1, s1) = spec_group_item(before_groups, items@[i as int]@, attr.span);
                assert(diags@.subrange(start_diags.len() as int, diags@.len() as int) =~= before_diags.subrange(
                    start_diags.len() as int,
                    before_diags.len() as int,
                ) + d1);
                assert(diags@.subrange(0, start_diags.len() as int) =~= before_diags.subrange(
                    0,
                    start_diags.len() as int,
                ));
            }
            stopped = stop;
            i = i + 1;
        }
        proof {
            if !stopped {
                assert(itemsv.skip(i as int) =~= Seq::<MetaItemV>::empty());
                assert(diags@.subrange(start_diags.len() as int, diags@.len() as int) + Seq::<Diagnostic>::empty()
                    =~= diags@.subrange(start_diags.len() as int, diags@.len() as int));
            }
        }
        if stopped || !ok {
            diags.push(error(DiagnosticKind::MalformedArguments, attr.span));
        }
        assert(diags@ =~= start_diags + diags@.subrange(start_diags.len() as int, diags@.len() as int));
    }

    /// The groups read so far.
    pub fn into_groups(self) -> (r: GroupCollection)
        ensures
            r == self.groups,
    {
        self.groups
    }
}

} // verus!
