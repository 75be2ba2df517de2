//! Reads the container: its attributes, then its fields.
use vstd::prelude::*;
use crate::diagnostic::{Diagnostic, DiagnosticKind, error, warning, error_at, warning_at};
use crate::info::container::{Container, SolverKind};
use crate::info::field::{Field, FieldKind, SetterKind, spec_is_option};
use crate::info::group::{GroupV, GroupCollection, sorted_insert, spec_define, spec_associate, spec_find};
use crate::model::{Attribute, AttrMeta, Data, DeriveInput, FieldInput, Fields};
use crate::parser::field_parser::{
    FieldParser, FieldState, spec_field_attribute, spec_field_attributes, spec_field_item,
    spec_field_items, spec_final_kind, spec_final_setter, spec_flag_value, spec_group_name,
    spec_initial_state,
};
use crate::parser::group_parser::{
    GroupParser, spec_group_attribute, spec_group_item, spec_group_items, spec_call_group_type,
    spec_path_group_type,
};
use crate::parser::meta::{
    AttrContext, Expr, ExprV, MetaItem, MetaItemV, MetaValue, MetaValueV, SimpleExpr,
    SimpleExprV, parse_nested_meta, spec_parse_nested_meta, spec_require_ident,
};
use crate::symbol::{Symbol, spec_symbol_of};

verus! {

/// The container's settings while its attributes are read.
pub struct ContainerState {
    pub assume_mandatory: bool,
    pub assume_into: bool,
    pub groups: Seq<GroupV>,
    pub solver: SolverKind,
}

/// The state after one item of the container's `#[builder(...)]`, what it
/// reports, and whether reading stops there.
pub open spec fn spec_builder_item(st: ContainerState, item: MetaItemV, attr_span: usize) -> (
    ContainerState,
    Seq<Diagnostic>,
    bool,
) {
    match spec_require_ident(item.path) {
        None => (st, seq![error_at(DiagnosticKind::SpecifierPathNotIdent, attr_span)], false),
        Some(id) => match spec_symbol_of(id) {
            Some(Symbol::AssumeMandatory) => match spec_flag_value(item.value) {
                None => (st, Seq::empty(), true),
                Some(b) => (ContainerState { assume_mandatory: b, ..st }, Seq::empty(), false),
            },
            Some(Symbol::Into) => (ContainerState { assume_into: true, ..st }, Seq::empty(), false),
            Some(Symbol::Solver) => match item.value {
                MetaValueV::Parsed(ExprV::Simple(SimpleExprV::Path(p))) => match spec_require_ident(
                    p,
                ) {
                    None => (st, Seq::empty(), true),
                    Some(s) => match spec_symbol_of(s) {
                        Some(Symbol::BruteForce) => (
                            ContainerState { solver: SolverKind::BruteForce, ..st },
                            Seq::empty(),
                            false,
                        ),
                        Some(Symbol::Compiler) => (
                            ContainerState { solver: SolverKind::Compiler, ..st },
                            Seq::empty(),
                            false,
                        ),
                        _ => (st, seq![error_at(DiagnosticKind::UnknownSolver, p.span)], false),
                    },
                },
                _ => (st, Seq::empty(), true),
            },
            _ => (st, seq![error_at(DiagnosticKind::UnknownSpecifier, item.path.span)], false),
        },
    }
}

/// The effect of the items of the container's `#[builder(...)]`, in order.
pub open spec fn spec_builder_items(st: ContainerState, items: Seq<MetaItemV>, attr_span: usize) -> (
    ContainerState,
    Seq<Diagnostic>,
    bool,
)
    decreases items.len(),
{
    if items.len() == 0 {
        (st, Seq::empty(), false)
    } else {
        let (s1, d1, stop) = spec_builder_item(st, items[0], attr_span);
        if stop {
            (s1, d1, true)
        } else {
            let (s2, d2, stop2) = spec_builder_items(s1, items.drop_first(), attr_span);
            (s2, d1 + d2, stop2)
        }
    }
}

/// The effect of the container's `#[builder(...)]` attribute.
pub open spec fn spec_builder_attribute(st: ContainerState, attr: &Attribute) -> (
    ContainerState,
    Seq<Diagnostic>,
) {
    match &attr.meta {
        AttrMeta::List { tokens, .. } => {
            let (items, ok) = spec_parse_nested_meta(tokens@, AttrContext::ContainerBuilder);
            let (s, d, stop) = spec_builder_items(st, items, attr.span);
            (s, if stop || !ok {
                d.push(error_at(DiagnosticKind::MalformedArguments, attr.span))
            } else {
                d
            })
        },
        _ => (st, seq![error_at(DiagnosticKind::MalformedArguments, attr.span)]),
    }
}

/// The effect of one attribute of the container.
pub open spec fn spec_container_attribute(st: ContainerState, attr: &Attribute) -> (
    ContainerState,
    Seq<Diagnostic>,
) {
    match attr.path_ident {
        None => (st, seq![error_at(DiagnosticKind::AttributePathNotIdent, attr.span)]),
        Some(id) => {
            let pre = match &attr.meta {
                AttrMeta::List { tokens, .. } => if tokens@.len() == 0 {
                    seq![warning_at(DiagnosticKind::EmptyAttributeList, attr.span)]
                } else {
                    Seq::empty()
                },
                _ => seq![error_at(DiagnosticKind::AttributeNotList, attr.span)],
            };
            match spec_symbol_of(id@) {
                Some(Symbol::Group) => {
                    let (g, d) = spec_group_attribute(st.groups, attr);
                    (ContainerState { groups: g, ..st }, pre + d)
                },
                Some(Symbol::Builder) => {
                    let (s, d) = spec_builder_attribute(st, attr);
                    (s, pre + d)
                },
                _ => (st, pre.push(error_at(DiagnosticKind::UnknownAttribute, attr.span))),
            }
        },
    }
}

/// The effect of the container's attributes, in order.
pub open spec fn spec_container_attributes(st: ContainerState, attrs: Seq<Attribute>) -> (
    ContainerState,
    Seq<Diagnostic>,
)
    decreases attrs.len(),
{
    if attrs.len() == 0 {
        (st, Seq::empty())
    } else {
        let (s1, d1) = spec_container_attribute(st, &attrs[0]);
        let (s2, d2) = spec_container_attributes(s1, attrs.drop_first());
        (s2, d1 + d2)
    }
}

/// What the derive reads of a field: its kind and setter kind.
pub struct FieldReading {
    pub kind: FieldKind,
    pub setter: SetterKind,
}

/// The fields from position `i` on, read in order with the groups threaded
/// through: what is read of each, the groups after them, and what they report.
pub open spec fn spec_named_fields(
    gs: Seq<GroupV>,
    fields: Seq<FieldInput>,
    i: int,
    assume_mandatory: bool,
    assume_into: bool,
) -> (Seq<FieldReading>, Seq<GroupV>, Seq<Diagnostic>)
    decreases fields.len() - i,
{
    if i < 0 || i >= fields.len() {
        (Seq::empty(), gs, Seq::empty())
    } else {
        let (st, d1) = spec_field_attributes(
            spec_initial_state(spec_is_option(&fields[i].ty), gs),
            fields[i].attrs@,
            i as usize,
        );
        let r = FieldReading {
            kind: spec_final_kind(st.kind, assume_mandatory),
            setter: spec_final_setter(st.setter, assume_into),
        };
        let (rest, g2, d2) = spec_named_fields(
            st.groups,
            fields,
            i + 1,
            assume_mandatory,
            assume_into,
        );
        (seq![r] + rest, g2, d1 + d2)
    }
}


/// What reading the container's body gives: the readings of its fields
/// (`None` when the body is not supported), the groups after them, and what
/// is reported.
pub open spec fn spec_handle_data(
    gs: Seq<GroupV>,
    data: &Data,
    span: usize,
    assume_mandatory: bool,
    assume_into: bool,
) -> (Option<Seq<FieldReading>>, Seq<GroupV>, Seq<Diagnostic>) {
    match data {
        Data::Struct(Fields::Named(fs)) => {
            let (rs, g, d) = spec_named_fields(gs, fs@, 0, assume_mandatory, assume_into);
            (Some(rs), g, d)
        },
        Data::Struct(Fields::Unnamed { span: s }) => (
            None,
            gs,
            seq![error_at(DiagnosticKind::UnnamedFieldsUnsupported, *s)],
        ),
        Data::Struct(Fields::Unit) => (Some(Seq::empty()), gs, Seq::empty()),
        Data::Enum { .. } => (None, gs, seq![error_at(DiagnosticKind::EnumsUnsupported, span)]),
        Data::Union => (None, gs, seq![error_at(DiagnosticKind::UnionsUnsupported, span)]),
    }
}

/// Whether every named field of the input has a name.
pub open spec fn named_fields_have_idents(data: &Data) -> bool {
    match data {
        Data::Struct(Fields::Named(fs)) => forall|i: int|
            0 <= i < fs@.len() ==> (#[trigger] fs@[i]).ident is Some,
        _ => true,
    }
}


/// Every member index of every group is below `n`.
pub open spec fn indices_below(gs: Seq<GroupV>, n: nat) -> bool {
    forall|g: int, k: int|
        0 <= g < gs.len() && 0 <= k < gs[g].indices.len() ==> #[trigger] gs[g].indices[k] < n
}

proof fn lemma_sorted_insert_elements(s: Seq<usize>, x: usize, k: int)
    requires
        0 <= k < sorted_insert(s, x).len(),
    ensures
        s.contains(sorted_insert(s, x)[k]) || sorted_insert(s, x)[k] == x,
    decreases s.len(),
{
    if s.len() == 0 {
    } else if x < s[0] {
        if k > 0 {
            assert(sorted_insert(s, x)[k] == s[k - 1]);
        }
    } else if x == s[0] {
        assert(sorted_insert(s, x)[k] == s[k]);
    } else {
        if k > 0 {
            let t = s.drop_first();
            assert(sorted_insert(s, x)[k] == sorted_insert(t, x)[k - 1]);
            lemma_sorted_insert_elements(t, x, k - 1);
            if t.contains(sorted_insert(t, x)[k - 1]) {
                let j = choose|j: int| 0 <= j < t.len() && t[j] == sorted_insert(t, x)[k - 1];
                assert(s[j + 1] == t[j]);
            }
        } else {
            assert(sorted_insert(s, x)[0] == s[0]);
        }
    }
}

proof fn lemma_define_below(gs: Seq<GroupV>, g: GroupV, n: nat)
    requires
        indices_below(gs, n),
        g.indices.len() == 0,
    ensures
        indices_below(spec_define(gs, g), n),
        spec_define(gs, g).len() >= gs.len(),
{
}

proof fn lemma_associate_below(gs: Seq<GroupV>, name: Seq<char>, index: usize, n: nat)
    requires
        indices_below(gs, n),
        index < n,
    ensures
        indices_below(spec_associate(gs, name, index).0, n),
        spec_associate(gs, name, index).0.len() == gs.len(),
{
    let r = spec_associate(gs, name, index).0;
    if let Some(i) = spec_find(gs, name) {
        assert forall|g: int, k: int| 0 <= g < r.len() && 0 <= k < r[g].indices.len() implies #[trigger] r[g].indices[k] < n by {
            if g == i {
                lemma_sorted_insert_elements(gs[i].indices, index, k);
                let y = sorted_insert(gs[i].indices, index)[k];
                if gs[i].indices.contains(y) {
                    let j = choose|j: int| 0 <= j < gs[i].indices.len() && gs[i].indices[j] == y;
                    assert(gs[i].indices[j] < n);
                }
            }
        }
    }
}

proof fn lemma_group_items_below(gs: Seq<GroupV>, items: Seq<MetaItemV>, span: usize, n: nat)
    requires
        indices_below(gs, n),
    ensures
        indices_below(spec_group_items(gs, items, span).0, n),
    decreases items.len(),
{
    if items.len() > 0 {
        let (g1, d1, stop) = spec_group_item(gs, items[0], span);
        match spec_require_ident(items[0].path) {
            Some(name) => {
                if let MetaValueV::Parsed(e) = items[0].value {
                    let t = match e {
                        ExprV::Call(f, args, sp) => spec_call_group_type(f, args, sp),
                        ExprV::Simple(SimpleExprV::Path(p)) => spec_path_group_type(p),
                        ExprV::Simple(_) => Err(error_at(DiagnosticKind::UnreadableGroupType, span)),
                    };
                    if let Ok(t) = t {
                        lemma_define_below(gs, GroupV { name, span: items[0].path.span, indices: Seq::empty(), group_type: t }, n);
                    }
                }
            },
            None => {},
        }
        if !stop {
            lemma_group_items_below(g1, items.drop_first(), span, n);
        }
    }
}

proof fn lemma_field_items_below(st: FieldState, items: Seq<MetaItemV>, index: usize, span: usize, n: nat)
    requires
        indices_below(st.groups, n),
        index < n,
    ensures
        indices_below(spec_field_items(st, items, index, span).0.groups, n),
    decreases items.len(),
{
    if items.len() > 0 {
        let (s1, d1, stop) = spec_field_item(st, items[0], index, span);
        if let Some((name, _)) = spec_group_name(items[0].value) {
            lemma_associate_below(st.groups, name, index, n);
        }
        if !stop {
            lemma_field_items_below(s1, items.drop_first(), index, span, n);
        }
    }
}

proof fn lemma_field_attributes_below(st: FieldState, attrs: Seq<Attribute>, index: usize, n: nat)
    requires
        indices_below(st.groups, n),
        index < n,
    ensures
        indices_below(spec_field_attributes(st, attrs, index).0.groups, n),
    decreases attrs.len(),
{
    if attrs.len() > 0 {
        let attr = &attrs[0];
        if let AttrMeta::List { tokens, .. } = &attr.meta {
            let (items, ok) = spec_parse_nested_meta(tokens@, AttrContext::FieldBuilder);
            lemma_field_items_below(st, items, index, attr.span, n);
        }
        let (s1, d1) = spec_field_attribute(st, attr, index);
        lemma_field_attributes_below(s1, attrs.drop_first(), index, n);
    }
}

proof fn lemma_builder_items_keep_groups(st: ContainerState, items: Seq<MetaItemV>, span: usize)
    ensures
        spec_builder_items(st, items, span).0.groups == st.groups,
    decreases items.len(),
{
    if items.len() > 0 {
        let (s1, d1, stop) = spec_builder_item(st, items[0], span);
        if !stop {
            lemma_builder_items_keep_groups(s1, items.drop_first(), span);
        }
    }
}

proof fn lemma_container_attributes_below(st: ContainerState, attrs: Seq<Attribute>, n: nat)
    requires
        indices_below(st.groups, n),
    ensures
        indices_below(spec_container_attributes(st, attrs).0.groups, n),
    decreases attrs.len(),
{
    if attrs.len() > 0 {
        let attr = &attrs[0];
        if let AttrMeta::List { tokens, .. } = &attr.meta {
            let (items, ok) = spec_parse_nested_meta(tokens@, AttrContext::GroupDefinition);
            lemma_group_items_below(st.groups, items, attr.span, n);
            let (items2, ok2) = spec_parse_nested_meta(tokens@, AttrContext::ContainerBuilder);
            lemma_builder_items_keep_groups(st, items2, attr.span);
        }
        let (s1, d1) = spec_container_attribute(st, attr);
        lemma_container_attributes_below(s1, attrs.drop_first(), n);
    }
}

/// Reads the container.
#[derive(Debug)]
pub struct ContainerParser {
    pub assume_mandatory: bool,
    pub assume_into: bool,
    pub groups: GroupCollection,
    pub solver_kind: SolverKind,
}

impl ContainerParser {
    /// A parser with no assumptions, no groups and the brute-force solver.
    pub fn new() -> (r: ContainerParser)
        ensures
            !r.assume_mandatory,
            !r.assume_into,
            r.groups@ == Seq::<GroupV>::empty(),
            r.solver_kind == SolverKind::BruteForce,
            r.groups.wf(),
    {
        ContainerParser {
            assume_mandatory: false,
            assume_into: false,
            groups: GroupCollection::new(),
            solver_kind: SolverKind::BruteForce,
        }
    }

    /// The parser's settings.
    pub open spec fn state(&self) -> ContainerState {
        ContainerState {
            assume_mandatory: self.assume_mandatory,
            assume_into: self.assume_into,
            groups: self.groups@,
            solver: self.solver_kind,
        }
    }

    fn builder_item(&mut self, item: &MetaItem, attr_span: usize, diags: &mut Vec<Diagnostic>) -> (stop: bool)
        requires
            old(self).groups.wf(),
        ensures
            final(self).groups.wf(),
            ({
                let (st, d, s) = spec_builder_item(old(self).state(), item@, attr_span);
                final(self).state() == st && final(diags)@ == old(diags)@ + d && stop == s
            }),
    {
        let ghost same = old(diags)@ + Seq::<Diagnostic>::empty();
        assert(same =~= old(diags)@);
        let id = match item.path.require_ident() {
            None => {
                diags.push(error(DiagnosticKind::SpecifierPathNotIdent, attr_span));
                return false;
            },
            Some(id) => id,
        };
        match Symbol::from_text(id) {
            Some(Symbol::AssumeMandatory) => match &item.value {
                MetaValue::Absent => {
                    self.assume_mandatory = true;
                    false
                },
                MetaValue::Parsed(Expr::Simple(SimpleExpr::LitBool { flag, .. })) => {
                    self.assume_mandatory = *flag;
                    false
                },
                _ => true,
            },
            Some(Symbol::Into) => {
                self.assume_into = true;
                false
            },
            Some(Symbol::Solver) => match &item.value {
                MetaValue::Parsed(Expr::Simple(SimpleExpr::Path(p))) => match p.require_ident() {
                    None => true,
                    Some(s) => match Symbol::from_text(s) {
                        Some(Symbol::BruteForce) => {
                            self.solver_kind = SolverKind::BruteForce;
                            false
                        },
                        Some(Symbol::Compiler) => {
                            self.solver_kind = SolverKind::Compiler;
                            false
                        },
                        _ => {
                            diags.push(error(DiagnosticKind::UnknownSolver, p.span));
                            false
                        },
                    },
                },
                _ => true,
            },
            _ => {
                diags.push(error(DiagnosticKind::UnknownSpecifier, item.path.span));
                false
            },
        }
    }

    fn handle_attribute_builder(&mut self, attr: &Attribute, diags: &mut Vec<Diagnostic>)
        requires
            old(self).groups.wf(),
        ensures
            final(self).groups.wf(),
            ({
                let (st, d) = spec_builder_attribute(old(self).state(), attr);
                final(self).state() == st && final(diags)@ == old(diags)@ + d
            }),
    {
        let tokens = match &attr.meta {
            AttrMeta::List { tokens, .. } => tokens,
            _ => {
                diags.push(error(DiagnosticKind::MalformedArguments, attr.span));
                return;
            },
        };
        let (items, ok) = parse_nested_meta(tokens, AttrContext::ContainerBuilder);
        let ghost itemsv = items@.map_values(|m: MetaItem| m@);
        let ghost start_diags = diags@;
        let ghost total = spec_builder_items(self.state(), itemsv, attr.span);
        let mut i: usize = 0;
        let mut stopped = false;
        assert(itemsv.skip(0) =~= itemsv);
        assert(diags@.subrange(start_diags.len() as int, diags@.len() as int) =~= Seq::<Diagnostic>::empty());
        assert(diags@.subrange(0, start_diags.len() as int) =~= start_diags);
        while i < items.len() && !stopped
            invariant
                i <= items@.len(),
                itemsv == items@.map_values(|m: MetaItem| m@),
                self.groups.wf(),
                !stopped ==> ({
                    let (st, d, s) = spec_builder_items(self.state(), itemsv.skip(i as int), attr.span);
                    total == (st, diags@.subrange(start_diags.len() as int, diags@.len() as int) + d, s)
                }),
                stopped ==> total == (self.state(), diags@.subrange(start_diags.len() as int, diags@.len() as int), true),
                diags@.subrange(0, start_diags.len() as int) == start_diags,
                start_diags.len() <= diags@.len(),
            decreases items@.len() - i,
        {
            let ghost before_state = self.state();
            let ghost before_diags = diags@;
            assert(itemsv.skip(i as int)[0] == items@[i as int]@);
            assert(itemsv.skip(i as int).drop_first() =~= itemsv.skip(i + 1));
            let stop = self.builder_item(&items[i], attr.span, diags);
            proof {
                let (s1, d1, t1) = spec_builder_item(before_state, items@[i as int]@, attr.span);
                assert(diags@.subrange(start_diags.len() as int, diags@.len() as int) =~= before_diags.subrange(
                    start_diags.len() as int,
                    before_diags.len() as int,
                ) + d1);
                assert(diags@.subrange(0, start_diags.len() as int) =~= before_diags.subrange(
                    0,
                    start_diags.len() as int,
                ));
            }
            stopped = stop;
            i = i + 1;
        }
        proof {
            if !stopped {
                assert(itemsv.skip(i as int) =~= Seq::<MetaItemV>::empty());
                assert(diags@.subrange(start_diags.len() as int, diags@.len() as int) + Seq::<Diagnostic>::empty()
                    =~= diags@.subrange(start_diags.len() as int, diags@.len() as int));
            }
        }
        if stopped || !ok {
            diags.push(error(DiagnosticKind::MalformedArguments, attr.span));
        }
        assert(diags@ =~= start_diags + diags@.subrange(start_diags.len() as int, diags@.len() as int));
    }

    fn handle_attribute(&mut self, attr: &Attribute, diags: &mut Vec<Diagnostic>)
        requires
            old(self).groups.wf(),
        ensures
            final(self).groups.wf(),
            ({
                let (st, d) = spec_container_attribute(old(self).state(), attr);
                final(self).state() == st && final(diags)@ == old(diags)@ + d
            }),
    {
        let id = match &attr.path_ident {
            None => {
                diags.push(error(DiagnosticKind::AttributePathNotIdent, attr.span));
                return;
            },
            Some(id) => id,
        };
        let ghost start_diags = diags@;
        match &attr.meta {
            AttrMeta::List { tokens, .. } => {
                if tokens.len() == 0 {
                    diags.push(warning(DiagnosticKind::EmptyAttributeList, attr.span));
                }
            },
            _ => {
                diags.push(error(DiagnosticKind::AttributeNotList, attr.span));
            },
        }
        let ghost pre_diags = diags@;
        match Symbol::from_text(id) {
            Some(Symbol::Group) => {
                let mut groups = GroupCollection::new();
                std::mem::swap(&mut groups, &mut self.groups);
                let mut parser = GroupParser::new(groups);
                parser.parse(attr, diags);
                self.groups = parser.into_groups();
            },
            Some(Symbol::Builder) => {
                self.handle_attribute_builder(attr, diags);
            },
            _ => {
                diags.push(error(DiagnosticKind::UnknownAttribute, attr.span));
            },
        }
        proof {
            assert(diags@ =~= start_diags + (pre_diags.subrange(start_diags.len() as int, pre_diags.len() as int)
                + diags@.subrange(pre_diags.len() as int, diags@.len() as int)));
        }
    }

    fn handle_named_fields(&mut self, fields: Vec<FieldInput>, diags: &mut Vec<Diagnostic>) -> (r: Vec<Field>)
        requires
            old(self).groups.wf(),
            indices_below(old(self).groups@, 0),
            forall|i: int| 0 <= i < fields@.len() ==> (#[trigger] fields@[i]).ident is Some,
        ensures
            final(self).groups.wf(),
            final(self).assume_mandatory == old(self).assume_mandatory,
            final(self).assume_into == old(self).assume_into,
            final(self).solver_kind == old(self).solver_kind,
            ({
                let (rs, g, d) = spec_named_fields(
                    old(self).groups@,
                    fields@,
                    0,
                    old(self).assume_mandatory,
                    old(self).assume_into,
                );
                &&& final(self).groups@ == g
                &&& final(diags)@ == old(diags)@ + d
                &&& r@.len() == rs.len()
                &&& r@.len() == fields@.len()
                &&& forall|i: int| 0 <= i < r@.len() ==> {
                    &&& (#[trigger] r@[i]).kind == rs[i].kind
                    &&& r@[i].setter_kind == rs[i].setter
                    &&& r@[i].index == i
                    &&& r@[i].ty == fields@[i].ty
                    &&& r@[i].span == fields@[i].span
                    &&& r@[i].ident@ == fields@[i].ident.unwrap()@
                }
            }),
            indices_below(final(self).groups@, fields@.len()),
    {
        let ghost all = fields@;
        let ghost am = self.assume_mandatory;
        let ghost ai = self.assume_into;
        let ghost total = spec_named_fields(self.groups@, all, 0, am, ai);
        let ghost start_diags = diags@;
        let mut rest = fields;
        let mut out: Vec<Field> = Vec::new();
        let mut i: usize = 0;
        let n = rest.len();
        assert(all.skip(0) =~= all);
        assert(diags@.subrange(start_diags.len() as int, diags@.len() as int) =~= Seq::<Diagnostic>::empty());
        while rest.len() > 0
            invariant
                n == all.len(),
                i <= n,
                rest@ == all.skip(i as int),
                out@.len() == i,
                i <= total.0.len(),
                self.groups.wf(),
                self.assume_mandatory == am,
                self.assume_into == ai,
                self.solver_kind == old(self).solver_kind,
                indices_below(self.groups@, i as nat),
                forall|k: int| 0 <= k < all.len() ==> (#[trigger] all[k]).ident is Some,
                ({
                    let (rs, g, d) = spec_named_fields(self.groups@, all, i as int, am, ai);
                    let (trs, tg, td) = total;
                    &&& tg == g
                    &&& td == diags@.subrange(start_diags.len() as int, diags@.len() as int) + d
                    &&& trs == trs.subrange(0, i as int) + rs
                }),
                forall|k: int| 0 <= k < i ==> {
                    &&& (#[trigger] out@[k]).kind == total.0[k].kind
                    &&& out@[k].setter_kind == total.0[k].setter
                    &&& out@[k].index == k
                    &&& out@[k].ty == all[k].ty
                    &&& out@[k].span == all[k].span
                    &&& out@[k].ident@ == all[k].ident.unwrap()@
                },
                diags@.subrange(0, start_diags.len() as int) == start_diags,
                start_diags.len() <= diags@.len(),
            decreases rest@.len(),
        {
            let ghost before_groups = self.groups@;
            let ghost before_diags = diags@;
            let ghost before_rs = spec_named_fields(self.groups@, all, i as int, am, ai).0;
            let f = rest.remove(0);
            assert(f == all[i as int]);
            let ident = match &f.ident {
                Some(id) => id.clone(),
                None => {
                    proof {
                        assert(all[i as int].ident is Some);
                    }
                    String::new()
                },
            };
            let ghost fv = f;
            let field = FieldParser::new(i, self.assume_mandatory, self.assume_into).parse(
                ident,
                f,
                &mut self.groups,
                diags,
            );
            proof {
                let (st, d1) = spec_field_attributes(
                    spec_initial_state(spec_is_option(&fv.ty), before_groups),
                    fv.attrs@,
                    i,
                );
                lemma_field_attributes_below(
                    spec_initial_state(spec_is_option(&fv.ty), before_groups),
                    fv.attrs@,
                    i,
                    (i + 1) as nat,
                );
                let r_i = FieldReading {
                    kind: spec_final_kind(st.kind, am),
                    setter: spec_final_setter(st.setter, ai),
                };
                let (rs_next, g_next, d_next) = spec_named_fields(st.groups, all, i + 1, am, ai);
                assert(spec_named_fields(before_groups, all, i as int, am, ai) == (
                    seq![r_i] + rs_next,
                    g_next,
                    d1 + d_next,
                ));
                let before_sub = before_diags.subrange(start_diags.len() as int, before_diags.len() as int);
                let new_sub = diags@.subrange(start_diags.len() as int, diags@.len() as int);
                assert(new_sub =~= before_sub + d1);
                assert(before_sub + (d1 + d_next) =~= new_sub + d_next);
                assert(diags@.subrange(0, start_diags.len() as int) =~= before_diags.subrange(
                    0,
                    start_diags.len() as int,
                ));
                assert(rest@ =~= all.skip(i + 1));
                let (trs, tg, td) = total;
                assert(trs == trs.subrange(0, i as int) + (seq![r_i] + rs_next));
                assert(trs.subrange(0, i + 1) =~= trs.subrange(0, i as int) + seq![r_i]);
                assert(trs =~= trs.subrange(0, i + 1) + rs_next);
                assert(trs[i as int] == r_i);
            }
            out.push(field);
            i = i + 1;
        }
        proof {
            let (trs, tg, td) = total;
            let (rs, g, d) = spec_named_fields(self.groups@, all, i as int, am, ai);
            assert(d =~= Seq::<Diagnostic>::empty());
            assert(trs =~= trs.subrange(0, i as int));
            assert(diags@ =~= start_diags + td);
        }
        out
    }

    fn handle_data(&mut self, data: Data, span: usize, diags: &mut Vec<Diagnostic>) -> (r: Option<Vec<Field>>)
        requires
            old(self).groups.wf(),
            indices_below(old(self).groups@, 0),
            named_fields_have_idents(&data),
        ensures
            final(self).groups.wf(),
            final(self).assume_mandatory == old(self).assume_mandatory,
            final(self).assume_into == old(self).assume_into,
            final(self).solver_kind == old(self).solver_kind,
            ({
                let (rs, g, d) = spec_handle_data(
                    old(self).groups@,
                    &data,
                    span,
                    old(self).assume_mandatory,
                    old(self).assume_into,
                );
                &&& final(self).groups@ == g
                &&& final(diags)@ == old(diags)@ + d
                &&& match r {
                    None => rs is None,
                    Some(fs) => rs matches Some(rs) && fs@.len() == rs.len() && indices_below(g, fs@.len())
                        && forall|i: int| 0 <= i < fs@.len() ==> {
                            &&& (#[trigger] fs@[i]).kind == rs[i].kind
                            &&& fs@[i].setter_kind == rs[i].setter
                            &&& fs@[i].index == i
                        },
                }
            }),
            match (r, data) {
                (Some(fs), Data::Struct(Fields::Named(inputs))) => fs@.len() == inputs@.len()
                    && forall|i: int| 0 <= i < fs@.len() ==> {
                        &&& (#[trigger] fs@[i]).ty == inputs@[i].ty
                        &&& fs@[i].span == inputs@[i].span
                        &&& fs@[i].ident@ == inputs@[i].ident.unwrap()@
                    },
                (Some(fs), _) => fs@.len() == 0,
                _ => true,
            },
    {
        match data {
            Data::Struct(Fields::Named(fields)) => {
                let r = self.handle_named_fields(fields, diags);
                Some(r)
            },
            Data::Struct(Fields::Unnamed { span: s }) => {
                diags.push(error(DiagnosticKind::UnnamedFieldsUnsupported, s));
                None
            },
            Data::Struct(Fields::Unit) => {
                assert(diags@ =~= old(diags)@ + Seq::<Diagnostic>::empty());
                let v: Vec<Field> = Vec::new();
                assert(indices_below(self.groups@, 0nat));
                Some(v)
            },
            Data::Enum { .. } => {
                diags.push(error(DiagnosticKind::EnumsUnsupported, span));
                None
            },
            Data::Union => {
                diags.push(error(DiagnosticKind::UnionsUnsupported, span));
                None
            },
        }
    }

    /// Reads the derive input into a container; `None` when its body is not a
    /// struct with named fields or no fields.
    pub fn parse(self, ast: DeriveInput, diags: &mut Vec<Diagnostic>) -> (r: Option<Container>)
        requires
            self.groups.wf(),
            indices_below(self.groups@, 0),
            named_fields_have_idents(&ast.data),
        ensures
            ({
                let (st, d1) = spec_container_attributes(self.state(), ast.attrs@);
                let (rs, g, d2) = spec_handle_data(
                    st.groups,
                    &ast.data,
                    ast.span,
                    st.assume_mandatory,
                    st.assume_into,
                );
                &&& final(diags)@ == old(diags)@ + d1 + d2
                &&& match r {
                    None => rs is None,
                    Some(c) => {
                        &&& rs matches Some(rs)
                        &&& c.wf()
                        &&& c.ident@ == ast.ident@
                        &&& c.vis@ == ast.vis@
                        &&& c.generics == ast.generics
                        &&& c.groups@ == g
                        &&& c.solver_kind == st.solver
                        &&& c.fields@.len() == rs.len()
                        &&& forall|i: int| 0 <= i < c.fields@.len() ==> {
                            &&& (#[trigger] c.fields@[i]).kind == rs[i].kind
                            &&& c.fields@[i].setter_kind == rs[i].setter
                        }
                    },
                }
            }),
            r matches Some(c) ==> match ast.data {
                Data::Struct(Fields::Named(inputs)) => c.fields@.len() == inputs@.len()
                    && forall|i: int| 0 <= i < c.fields@.len() ==> {
                        &&& (#[trigger] c.fields@[i]).ty == inputs@[i].ty
                        &&& c.fields@[i].span == inputs@[i].span
                        &&& c.fields@[i].ident@ == inputs@[i].ident.unwrap()@
                    },
                _ => c.fields@.len() == 0,
            },
    {
        let mut parser = self;
        let DeriveInput { attrs, vis, ident, generics, data, span } = ast;
        let ghost start_diags = diags@;
        let ghost total = spec_container_attributes(parser.state(), attrs@);
        let mut i: usize = 0;
        assert(attrs@.skip(0) =~= attrs@);
        assert(diags@.subrange(start_diags.len() as int, diags@.len() as int) =~= Seq::<Diagnostic>::empty());
        proof {
            lemma_container_attributes_below(parser.state(), attrs@, 0);
        }
        while i < attrs.len()
            invariant
                i <= attrs@.len(),
                parser.groups.wf(),
                ({
                    let (st, d) = spec_container_attributes(parser.state(), attrs@.skip(i as int));
                    total == (st, diags@.subrange(start_diags.len() as int, diags@.len() as int) + d)
                }),
                indices_below(spec_container_attributes(parser.state(), attrs@.skip(i as int)).0.groups, 0),
                diags@.subrange(0, start_diags.len() as int) == start_diags,
                start_diags.len() <= diags@.len(),
            decreases attrs@.len() - i,
        {
            let ghost before_state = parser.state();
            let ghost before_diags = diags@;
            assert(attrs@.skip(i as int)[0] == attrs@[i as int]);
            assert(attrs@.skip(i as int).drop_first() =~= attrs@.skip(i + 1));
            parser.handle_attribute(&attrs[i], diags);
            proof {
                let (s1, d1) = spec_container_attribute(before_state, &attrs@[i as int]);
                assert(diags@.subrange(start_diags.len() as int, diags@.len() as int) =~= before_diags.subrange(
                    start_diags.len() as int,
                    before_diags.len() as int,
                ) + d1);
                assert(diags@.subrange(0, start_diags.len() as int) =~= before_diags.subrange(
                    0,
                    start_diags.len() as int,
                ));
            }
            i = i + 1;
        }
        proof {
            assert(attrs@.skip(i as int) =~= Seq::<Attribute>::empty());
            assert(diags@ =~= start_diags + diags@.subrange(start_diags.len() as int, diags@.len() as int));
        }
        let ghost mid = diags@;
        let fields = parser.handle_data(data, span, diags);
        match fields {
            None => None,
            Some(fields) => {
                let c = Container::new(vis, generics, ident, parser.groups, fields, parser.solver_kind);
                Some(c)
            },
        }
    }
}

} // verus!
