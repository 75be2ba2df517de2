//! `#[builder(skip | mandatory | optional | group = name | propagate | ...)]` on fields.
use vstd::prelude::*;
use crate::diagnostic::{Diagnostic, DiagnosticKind, error, warning, error_at, warning_at};
use crate::info::field::{Field, FieldKind, SetterKind, is_option, spec_is_option};
use crate::info::group::{GroupV, GroupCollection, spec_associate};
use crate::model::{Attribute, AttrMeta, FieldInput};
use crate::parser::meta::{
    AttrContext, Expr, ExprV, MetaItem, MetaItemV, MetaValue, MetaValueV, SimpleExpr,
    SimpleExprV, parse_nested_meta, spec_parse_nested_meta, spec_require_ident,
};
use crate::symbol::{Symbol, spec_symbol_of};

verus! {

/// The state of a field while its attributes are read.
pub struct FieldState {
    pub kind: Option<FieldKind>,
    pub setter: Option<SetterKind>,
    pub groups: Seq<GroupV>,
}

/// The kind after asking for `requested`, and what that reports.
pub open spec fn spec_kind_step(requested: FieldKind, kind: Option<FieldKind>, span: usize) -> (
    Option<FieldKind>,
    Seq<Diagnostic>,
) {
    match kind {
        None => (Some(requested), Seq::empty()),
        Some(k) => if k == requested {
            (kind, if requested == FieldKind::Grouped {
                Seq::empty()
            } else {
                seq![warning_at(DiagnosticKind::KindRepeated(k), span)]
            })
        } else {
            (kind, seq![error_at(DiagnosticKind::KindConflict { requested, existing: k }, span)])
        },
    }
}

/// The setter kind after asking for `requested`, and what that reports.
pub open spec fn spec_setter_step(requested: SetterKind, setter: Option<SetterKind>, span: usize) -> (
    Option<SetterKind>,
    Seq<Diagnostic>,
) {
    match setter {
        None => (Some(requested), Seq::empty()),
        Some(_) => (setter, seq![error_at(DiagnosticKind::SetterKindRepeated, span)]),
    }
}

/// What a flag item says: `Some(true)` for `flag`, `Some(b)` for `flag = b`
/// with a boolean literal `b`, `None` for any other value, which makes the
/// arguments malformed.
pub open spec fn spec_flag_value(v: MetaValueV) -> Option<bool> {
    match v {
        MetaValueV::Absent => Some(true),
        MetaValueV::Parsed(ExprV::Simple(SimpleExprV::LitBool(b, _))) => Some(b),
        _ => None,
    }
}

/// The group name a `group = ...` item gives, with its span.
pub open spec fn spec_group_name(v: MetaValueV) -> Option<(Seq<char>, usize)> {
    match v {
        MetaValueV::Parsed(ExprV::Simple(SimpleExprV::Path(p))) => match spec_require_ident(p) {
            Some(n) => Some((n, p.span)),
            None => None,
        },
        MetaValueV::Parsed(ExprV::Simple(SimpleExprV::LitStr(v, sp))) => Some((v, sp)),
        _ => None,
    }
}

/// The state after one item of a field's `#[builder(...)]`, what it reports,
/// and whether reading stops there. A `group = name` that names no defined
/// group makes the field grouped and is otherwise ignored.
pub open spec fn spec_field_item(
    st: FieldState,
    item: MetaItemV,
    index: usize,
    attr_span: usize,
) -> (FieldState, Seq<Diagnostic>, bool) {
    let span = item.path.span;
    match spec_require_ident(item.path) {
        None => (st, seq![error_at(DiagnosticKind::SpecifierPathNotIdent, attr_span)], false),
        Some(id) => match spec_symbol_of(id) {
            Some(Symbol::Skip) => match spec_flag_value(item.value) {
                None => (st, Seq::empty(), true),
                Some(true) => {
                    let (k, d) = spec_kind_step(FieldKind::Skipped, st.kind, span);
                    (FieldState { kind: k, ..st }, d, false)
                },
                Some(false) => (st, Seq::empty(), false),
            },
            Some(Symbol::Mandatory) => match spec_flag_value(item.value) {
                None => (st, Seq::empty(), true),
                Some(b) => {
                    let (k, d) = spec_kind_step(
                        if b { FieldKind::Mandatory } else { FieldKind::Optional },
                        st.kind,
                        span,
                    );
                    (FieldState { kind: k, ..st }, d, false)
                },
            },
            Some(Symbol::Optional) => match spec_flag_value(item.value) {
                None => (st, Seq::empty(), true),
                Some(b) => {
                    let (k, d) = spec_kind_step(
                        if b { FieldKind::Optional } else { FieldKind::Mandatory },
                        st.kind,
                        span,
                    );
                    (FieldState { kind: k, ..st }, d, false)
                },
            },
            Some(Symbol::Group) => {
                let (k, d1) = spec_kind_step(FieldKind::Grouped, st.kind, span);
                match spec_group_name(item.value) {
                    None => (
                        FieldState { kind: k, ..st },
                        d1.push(error_at(DiagnosticKind::GroupNameNotIdent, span)),
                        false,
                    ),
                    Some((name, name_span)) => {
                        let (gs, r) = spec_associate(st.groups, name, index);
                        (FieldState { kind: k, groups: gs, ..st }, match r {
                            None => d1,
                            Some(false) => d1.push(
                                error_at(DiagnosticKind::GroupMemberTwice, name_span),
                            ),
                            Some(true) => d1,
                        }, false)
                    },
                }
            },
            Some(Symbol::Propagate) | Some(Symbol::AsRef) | Some(Symbol::AsMut) | Some(Symbol::Into)
            | Some(Symbol::Standard) => {
                let requested = match spec_symbol_of(id) {
                    Some(Symbol::Propagate) => SetterKind::Propagate,
                    Some(Symbol::AsRef) => SetterKind::AsRef,
                    Some(Symbol::AsMut) => SetterKind::AsMut,
                    Some(Symbol::Into) => SetterKind::Into,
                    _ => SetterKind::Standard,
                };
                let (s, d) = spec_setter_step(requested, st.setter, span);
                (FieldState { setter: s, ..st }, d, false)
            },
            Some(_) => (st, seq![error_at(DiagnosticKind::SpecifierNotAllowedHere, attr_span)], false),
            None => (st, seq![error_at(DiagnosticKind::UnknownSpecifier, attr_span)], false),
        },
    }
}

/// The effect of the items of a field's `#[builder(...)]`, in order.
pub open spec fn spec_field_items(
    st: FieldState,
    items: Seq<MetaItemV>,
    index: usize,
    attr_span: usize,
) -> (FieldState, Seq<Diagnostic>, bool)
    decreases items.len(),
{
    if items.len() == 0 {
        (st, Seq::empty(), false)
    } else {
        let (s1, d1, stop) = spec_field_item(st, items[0], index, attr_span);
        if stop {
            (s1, d1, true)
        } else {
            let (s2, d2, stop2) = spec_field_items(s1, items.drop_first(), index, attr_span);
            (s2, d1 + d2, stop2)
        }
    }
}

/// The effect of one attribute on a field.
pub open spec fn spec_field_attribute(st: FieldState, attr: &Attribute, index: usize) -> (
    FieldState,
    Seq<Diagnostic>,
) {
    match attr.path_ident {
        None => (st, seq![error_at(DiagnosticKind::AttributePathNotIdent, attr.span)]),
        Some(id) => if spec_symbol_of(id@) != Some(Symbol::Builder) {
            (st, seq![error_at(DiagnosticKind::NotAFieldAttribute, attr.span)])
        } else {
            match &attr.meta {
                AttrMeta::List { tokens, .. } => {
                    let pre = if tokens@.len() == 0 {
                        seq![warning_at(DiagnosticKind::EmptyAttributeList, attr.span)]
                    } else {
                        Seq::empty()
                    };
                    let (items, ok) = spec_parse_nested_meta(tokens@, AttrContext::FieldBuilder);
                    let (s, d, stop) = spec_field_items(st, items, index, attr.span);
                    (s, pre + d + if stop || !ok {
                        seq![error_at(DiagnosticKind::MalformedArguments, attr.span)]
                    } else {
                        Seq::empty()
                    })
                },
                _ => (
                    st,
                    seq![
                        error_at(DiagnosticKind::AttributeNotList, attr.span),
                        error_at(DiagnosticKind::MalformedArguments, attr.span),
                    ],
                ),
            }
        },
    }
}

/// The effect of a field's attributes, in order.
pub open spec fn spec_field_attributes(st: FieldState, attrs: Seq<Attribute>, index: usize) -> (
    FieldState,
    Seq<Diagnostic>,
)
    decreases attrs.len(),
{
    if attrs.len() == 0 {
        (st, Seq::empty())
    } else {
        let (s1, d1) = spec_field_attribute(st, &attrs[0], index);
        let (s2, d2) = spec_field_attributes(s1, attrs.drop_first(), index);
        (s2, d1 + d2)
    }
}

/// The state of a field before its attributes: a type that is not an
/// `Option` makes the field mandatory.
pub open spec fn spec_initial_state(ty_is_option: bool, groups: Seq<GroupV>) -> FieldState {
    FieldState {
        kind: if ty_is_option { None } else { Some(FieldKind::Mandatory) },
        setter: None,
        groups,
    }
}

/// The kind a field ends with.
pub open spec fn spec_final_kind(kind: Option<FieldKind>, assume_mandatory: bool) -> FieldKind {
    match kind {
        Some(k) => k,
        None => if assume_mandatory { FieldKind::Mandatory } else { FieldKind::Optional },
    }
}

/// `assume_mandatory` only decides the kind of a field that no attribute gave
/// a kind: a kind that was given is kept whatever the assumption, and a field
/// without one becomes mandatory exactly when the assumption holds, else
/// optional.
pub proof fn lemma_assumption_only_fills_unset_kind(kind: Option<FieldKind>, assume_mandatory: bool)
    ensures
        kind matches Some(k) ==> spec_final_kind(kind, assume_mandatory) == k,
        kind matches Some(k) ==> spec_final_kind(kind, true) == spec_final_kind(kind, false),
        kind is None ==> (spec_final_kind(kind, assume_mandatory) == FieldKind::Mandatory
            <==> assume_mandatory),
        kind is None ==> (spec_final_kind(kind, assume_mandatory) == FieldKind::Optional
            <==> !assume_mandatory),
{
}

/// The setter kind a field ends with.
pub open spec fn spec_final_setter(setter: Option<SetterKind>, assume_into: bool) -> SetterKind {
    match setter {
        Some(s) => s,
        None => if assume_into { SetterKind::Into } else { SetterKind::Standard },
    }
}

/// Once a field has a kind, no item of an attribute changes it.
proof fn lemma_items_keep_kind(st: FieldState, items: Seq<MetaItemV>, index: usize, span: usize)
    requires
        st.kind is Some,
    ensures
        spec_field_items(st, items, index, span).0.kind == st.kind,
    decreases items.len(),
{
    if items.len() > 0 {
        let (s1, d1, stop) = spec_field_item(st, items[0], index, span);
        assert(s1.kind == st.kind);
        if !stop {
            lemma_items_keep_kind(s1, items.drop_first(), index, span);
        }
    }
}

/// The first kind a field is given wins: once a field has a kind, its
/// attributes do not change it (a different kind asked for later is reported).
pub proof fn lemma_first_kind_wins(st: FieldState, attrs: Seq<Attribute>, index: usize)
    requires
        st.kind is Some,
    ensures
        spec_field_attributes(st, attrs, index).0.kind == st.kind,
    decreases attrs.len(),
{
    if attrs.len() > 0 {
        let attr = &attrs[0];
        let (s1, d1) = spec_field_attribute(st, attr, index);
        match attr.path_ident {
            None => {},
            Some(id) => {
                if spec_symbol_of(id@) == Some(Symbol::Builder) {
                    match &attr.meta {
                        AttrMeta::List { tokens, .. } => {
                            let (items, ok) = spec_parse_nested_meta(tokens@, AttrContext::FieldBuilder);
                            lemma_items_keep_kind(st, items, index, attr.span);
                        },
                        _ => {},
                    }
                }
            },
        }
        assert(s1.kind == st.kind);
        lemma_first_kind_wins(s1, attrs.drop_first(), index);
    }
}

/// A field whose type is not an `Option` is mandatory, whatever its
/// attributes say.
pub proof fn lemma_non_option_field_is_mandatory(
    attrs: Seq<Attribute>,
    groups: Seq<GroupV>,
    index: usize,
    assume_mandatory: bool,
)
    ensures
        spec_final_kind(
            spec_field_attributes(spec_initial_state(false, groups), attrs, index).0.kind,
            assume_mandatory,
        ) == FieldKind::Mandatory,
{
    lemma_first_kind_wins(spec_initial_state(false, groups), attrs, index);
}

/// An `Option` field without attributes is optional, unless the container
/// assumes its fields mandatory.
pub proof fn lemma_bare_option_field(groups: Seq<GroupV>, index: usize, assume_mandatory: bool)
    ensures
        spec_final_kind(
            spec_field_attributes(spec_initial_state(true, groups), Seq::empty(), index).0.kind,
            assume_mandatory,
        ) == if assume_mandatory { FieldKind::Mandatory } else { FieldKind::Optional },
{
}

/// Reads the attributes of one field.
#[derive(Debug)]
pub struct FieldParser {
    pub kind: Option<FieldKind>,
    pub setter_kind: Option<SetterKind>,
    pub index: usize,
    pub assume_mandatory: bool,
    pub assume_into: bool,
}

impl FieldParser {
    /// A parser for the field at `index`.
    pub fn new(index: usize, assume_mandatory: bool, assume_into: bool) -> (r: FieldParser)
        ensures
            r.kind is None,
            r.setter_kind is None,
            r.index == index,
            r.assume_mandatory == assume_mandatory,
            r.assume_into == assume_into,
    {
        FieldParser { kind: None, setter_kind: None, index, assume_mandatory, assume_into }
    }

    fn kind_step(&mut self, requested: FieldKind, span: usize, diags: &mut Vec<Diagnostic>)
        ensures
            ({
                let (k, d) = spec_kind_step(requested, old(self).kind, span);
                final(self).kind == k && final(diags)@ == old(diags)@ + d
            }),
            final(self).setter_kind == old(self).setter_kind,
            final(self).index == old(self).index,
            final(self).assume_mandatory == old(self).assume_mandatory,
            final(self).assume_into == old(self).assume_into,
    {
        match self.kind {
            None => {
                self.kind = Some(requested);
                assert(diags@ =~= old(diags)@ + Seq::<Diagnostic>::empty());
            },
            Some(k) => {
                if k == requested {
                    if requested != FieldKind::Grouped {
                        diags.push(warning(DiagnosticKind::KindRepeated(k), span));
                    } else {
                        assert(diags@ =~= old(diags)@ + Seq::<Diagnostic>::empty());
                    }
                } else {
                    diags.push(
                        error(DiagnosticKind::KindConflict { requested, existing: k }, span),
                    );
                }
            },
        }
    }

    fn handle_setter_kind(&mut self, requested: SetterKind, span: usize, diags: &mut Vec<Diagnostic>)
        ensures
            ({
                let (s, d) = spec_setter_step(requested, old(self).setter_kind, span);
                final(self).setter_kind == s && final(diags)@ == old(diags)@ + d
            }),
            final(self).kind == old(self).kind,
            final(self).index == old(self).index,
            final(self).assume_mandatory == old(self).assume_mandatory,
            final(self).assume_into == old(self).assume_into,
    {
        match self.setter_kind {
            None => {
                self.setter_kind = Some(requested);
                assert(diags@ =~= old(diags)@ + Seq::<Diagnostic>::empty());
            },
            Some(_) => {
                diags.push(error(DiagnosticKind::SetterKindRepeated, span));
            },
        }
    }

    /// The parser's state together with the groups.
    pub open spec fn state(&self, groups: Seq<GroupV>) -> FieldState {
        FieldState { kind: self.kind, setter: self.setter_kind, groups }
    }

    /// Keeps `index` and the assumptions fixed.
    pub open spec fn same_settings(&self, other: &FieldParser) -> bool {
        &&& self.index == other.index
        &&& self.assume_mandatory == other.assume_mandatory
        &&& self.assume_into == other.assume_into
    }

    fn flag_value(value: &MetaValue) -> (r: Option<bool>)
        ensures
            r == spec_flag_value(match value {
                MetaValue::Absent => MetaValueV::Absent,
                MetaValue::Parsed(e) => MetaValueV::Parsed(e@),
                MetaValue::Unparseable => MetaValueV::Unparseable,
            }),
    {
        match value {
            MetaValue::Absent => Some(true),
            MetaValue::Parsed(Expr::Simple(SimpleExpr::LitBool { flag, .. })) => Some(*flag),
            _ => None,
        }
    }

    /// Whether one item of an attribute was handled as `spec_field_item` says.
    pub open spec fn item_handled(
        &self,
        after: &FieldParser,
        groups: Seq<GroupV>,
        groups_after: Seq<GroupV>,
        diags: Seq<Diagnostic>,
        diags_after: Seq<Diagnostic>,
        item: MetaItemV,
        attr_span: usize,
        stop: bool,
    ) -> bool {
        let (st, d, s) = spec_field_item(self.state(groups), item, self.index, attr_span);
        &&& after.same_settings(self)
        &&& after.state(groups_after) == st
        &&& diags_after == diags + d
        &&& stop == s
    }

    fn handle_attribute_skip(
        &mut self,
        item: &MetaItem,
        attr_span: usize,
        groups: &GroupCollection,
        diags: &mut Vec<Diagnostic>,
    ) -> (stop: bool)
        requires
            spec_require_ident(item@.path) matches Some(id) && spec_symbol_of(id) == Some(Symbol::Skip),
        ensures
            old(self).item_handled(final(self), groups@, groups@, old(diags)@, final(diags)@, item@, attr_span, stop),
    {
        assert(old(diags)@ + Seq::<Diagnostic>::empty() =~= old(diags)@);
        match Self::flag_value(&item.value) {
            None => true,
            Some(true) => {
                self.kind_step(FieldKind::Skipped, item.path.span, diags);
                false
            },
            Some(false) => false,
        }
    }

    fn handle_attribute_mandatory(
        &mut self,
        item: &MetaItem,
        attr_span: usize,
        groups: &GroupCollection,
        diags: &mut Vec<Diagnostic>,
    ) -> (stop: bool)
        requires
            spec_require_ident(item@.path) matches Some(id) && spec_symbol_of(id) == Some(Symbol::Mandatory),
        ensures
            old(self).item_handled(final(self), groups@, groups@, old(diags)@, final(diags)@, item@, attr_span, stop),
    {
        assert(old(diags)@ + Seq::<Diagnostic>::empty() =~= old(diags)@);
        match Self::flag_value(&item.value) {
            None => true,
            Some(b) => {
                self.kind_step(
                    if b { FieldKind::Mandatory } else { FieldKind::Optional },
                    item.path.span,
                    diags,
                );
                false
            },
        }
    }

    fn handle_attribute_optional(
        &mut self,
        item: &MetaItem,
        attr_span: usize,
        groups: &GroupCollection,
        diags: &mut Vec<Diagnostic>,
    ) -> (stop: bool)
        requires
            spec_require_ident(item@.path) matches Some(id) && spec_symbol_of(id) == Some(Symbol::Optional),
        ensures
            old(self).item_handled(final(self), groups@, groups@, old(diags)@, final(diags)@, item@, attr_span, stop),
    {
        assert(old(diags)@ + Seq::<Diagnostic>::empty() =~= old(diags)@);
        match Self::flag_value(&item.value) {
            None => true,
            Some(b) => {
                self.kind_step(
                    if b { FieldKind::Optional } else { FieldKind::Mandatory },
                    item.path.span,
                    diags,
                );
                false
            },
        }
    }

    /// The group name of a `group = name` or `group = "name"` item, with its span.
    fn extract_group_name(value: &MetaValue) -> (r: Option<(&String, usize)>)
        ensures
            match r {
                Some((n, sp)) => spec_group_name(match value {
                    MetaValue::Absent => MetaValueV::Absent,
                    MetaValue::Parsed(e) => MetaValueV::Parsed(e@),
                    MetaValue::Unparseable => MetaValueV::Unparseable,
                }) == Some((n@, sp)),
                None => spec_group_name(match value {
                    MetaValue::Absent => MetaValueV::Absent,
                    MetaValue::Parsed(e) => MetaValueV::Parsed(e@),
                    MetaValue::Unparseable => MetaValueV::Unparseable,
                }) is None,
            },
    {
        match value {
            MetaValue::Parsed(Expr::Simple(SimpleExpr::Path(p))) => match p.require_ident() {
                Some(n) => Some((n, p.span)),
                None => None,
            },
            MetaValue::Parsed(Expr::Simple(SimpleExpr::LitStr { value, span })) => Some(
                (value, *span),
            ),
            _ => None,
        }
    }

    fn handle_attribute_group(
        &mut self,
        item: &MetaItem,
        attr_span: usize,
        groups: &mut GroupCollection,
        diags: &mut Vec<Diagnostic>,
    ) -> (stop: bool)
        requires
            old(groups).wf(),
            spec_require_ident(item@.path) matches Some(id) && spec_symbol_of(id) == Some(Symbol::Group),
        ensures
            final(groups).wf(),
            old(self).item_handled(final(self), old(groups)@, final(groups)@, old(diags)@, final(diags)@, item@, attr_span, stop),
    {
        let span = item.path.span;
        self.kind_step(FieldKind::Grouped, span, diags);
        match Self::extract_group_name(&item.value) {
            None => {
                diags.push(error(DiagnosticKind::GroupNameNotIdent, span));
            },
            Some((n, name_span)) => {
                match groups.associate(n, self.index) {
                    None => {},
                    Some(false) => {
                        diags.push(error(DiagnosticKind::GroupMemberTwice, name_span));
                    },
                    Some(true) => {},
                }
            },
        }
        false
    }

    fn handle_item(
        &mut self,
        item: &MetaItem,
        attr_span: usize,
        groups: &mut GroupCollection,
        diags: &mut Vec<Diagnostic>,
    ) -> (stop: bool)
        requires
            old(groups).wf(),
        ensures
            final(groups).wf(),
            old(self).item_handled(final(self), old(groups)@, final(groups)@, old(diags)@, final(diags)@, item@, attr_span, stop),
    {
        let span = item.path.span;
        let id = match item.path.require_ident() {
            None => {
                diags.push(error(DiagnosticKind::SpecifierPathNotIdent, attr_span));
                assert(diags@ =~= old(diags)@ + seq![error_at(DiagnosticKind::SpecifierPathNotIdent, attr_span)]);
                return false;
            },
            Some(id) => id,
        };
        let ghost same = old(diags)@ + Seq::<Diagnostic>::empty();
        assert(same =~= old(diags)@);
        match Symbol::from_text(id) {
            Some(Symbol::Skip) => self.handle_attribute_skip(item, attr_span, groups, diags),
            Some(Symbol::Mandatory) => self.handle_attribute_mandatory(item, attr_span, groups, diags),
            Some(Symbol::Optional) => self.handle_attribute_optional(item, attr_span, groups, diags),
            Some(Symbol::Group) => self.handle_attribute_group(item, attr_span, groups, diags),
            Some(Symbol::Propagate) => {
                self.handle_setter_kind(SetterKind::Propagate, span, diags);
                false
            },
            Some(Symbol::AsRef) => {
                self.handle_setter_kind(SetterKind::AsRef, span, diags);
                false
            },
            Some(Symbol::AsMut) => {
                self.handle_setter_kind(SetterKind::AsMut, span, diags);
                false
            },
            Some(Symbol::Into) => {
                self.handle_setter_kind(SetterKind::Into, span, diags);
                false
            },
            Some(Symbol::Standard) => {
                self.handle_setter_kind(SetterKind::Standard, span, diags);
                false
            },
            Some(_) => {
                diags.push(error(DiagnosticKind::SpecifierNotAllowedHere, attr_span));
                false
            },
            None => {
                diags.push(error(DiagnosticKind::UnknownSpecifier, attr_span));
                false
            },
        }
    }

    fn handle_attribute(&mut self, attr: &Attribute, groups: &mut GroupCollection, diags: &mut Vec<Diagnostic>)
        requires
            old(groups).wf(),
        ensures
            final(groups).wf(),
            final(self).same_settings(old(self)),
            ({
                let (st, d) = spec_field_attribute(old(self).state(old(groups)@), attr, old(self).index);
                final(self).state(final(groups)@) == st && final(diags)@ == old(diags)@ + d
            }),
    {
        let ghost start_diags = diags@;
        match &attr.path_ident {
            None => {
                diags.push(error(DiagnosticKind::AttributePathNotIdent, attr.span));
                return;
            },
            Some(id) => {
                match Symbol::from_text(id) {
                    Some(Symbol::Builder) => {},
                    _ => {
                        diags.push(error(DiagnosticKind::NotAFieldAttribute, attr.span));
                        return;
                    },
                }
            },
        }
        let tokens = match &attr.meta {
            AttrMeta::List { tokens, .. } => tokens,
            _ => {
                diags.push(error(DiagnosticKind::AttributeNotList, attr.span));
                diags.push(error(DiagnosticKind::MalformedArguments, attr.span));
                assert(diags@ =~= start_diags + seq![
                    error_at(DiagnosticKind::AttributeNotList, attr.span),
                    error_at(DiagnosticKind::MalformedArguments, attr.span),
                ]);
                return;
            },
        };
        if tokens.len() == 0 {
            diags.push(warning(DiagnosticKind::EmptyAttributeList, attr.span));
        }
        let ghost pre_diags = diags@;
        let (items, ok) = parse_nested_meta(tokens, AttrContext::FieldBuilder);
        let ghost itemsv = items@.map_values(|m: MetaItem| m@);
        let ghost total = spec_field_items(self.state(groups@), itemsv, self.index, attr.span);
        let mut i: usize = 0;
        let mut stopped = false;
        assert(itemsv.skip(0) =~= itemsv);
        assert(diags@.subrange(pre_diags.len() as int, diags@.len() as int) =~= Seq::<Diagnostic>::empty());
        assert(diags@.subrange(0, pre_diags.len() as int) =~= pre_diags);
        while i < items.len() && !stopped
            invariant
                i <= items@.len(),
                itemsv == items@.map_values(|m: MetaItem| m@),
                groups.wf(),
                self.same_settings(old(self)),
                !stopped ==> ({
                    let (st, d, s) = spec_field_items(self.state(groups@), itemsv.skip(i as int), old(self).index, attr.span);
                    total == (st, diags@.subrange(pre_diags.len() as int, diags@.len() as int) + d, s)
                }),
                stopped ==> total == (self.state(groups@), diags@.subrange(pre_diags.len() as int, diags@.len() as int), true),
                diags@.subrange(0, pre_diags.len() as int) == pre_diags,
                pre_diags.len() <= diags@.len(),
            decreases items@.len() - i,
        {
            let ghost before_state = self.state(groups@);
            let ghost before_diags = diags@;
            assert(itemsv.skip(i as int)[0] == items@[i as int]@);
            assert(itemsv.skip(i as int).drop_first() =~= itemsv.skip(i + 1));
            let stop = self.handle_item(&items[i], attr.span, groups, diags);
            proof {
                let (s1, d1, t1) = spec_field_item(before_state, items@[i as int]@, old(self).index, attr.span);
                assert(diags@.subrange(pre_diags.len() as int, diags@.len() as int) =~= before_diags.subrange(
                    pre_diags.len() as int,
                    before_diags.len() as int,
                ) + d1);
                assert(diags@.subrange(0, pre_diags.len() as int) =~= before_diags.subrange(
                    0,
                    pre_diags.len() as int,
                ));
            }
            stopped = stop;
            i = i + 1;
        }
        proof {
            if !stopped {
                assert(itemsv.skip(i as int) =~= Seq::<MetaItemV>::empty());
                assert(diags@.subrange(pre_diags.len() as int, diags@.len() as int) + Seq::<Diagnostic>::empty()
                    =~= diags@.subrange(pre_diags.len() as int, diags@.len() as int));
            }
        }
        let ghost mid = diags@;
        if stopped || !ok {
            diags.push(error(DiagnosticKind::MalformedArguments, attr.span));
        }
        proof {
            let pre = if tokens@.len() == 0 {
                seq![warning_at(DiagnosticKind::EmptyAttributeList, attr.span)]
            } else {
                Seq::<Diagnostic>::empty()
            };
            assert(pre_diags =~= start_diags + pre);
            assert(mid =~= pre_diags + mid.subrange(pre_diags.len() as int, mid.len() as int));
            let tail = if stopped || !ok {
                seq![error_at(DiagnosticKind::MalformedArguments, attr.span)]
            } else {
                Seq::<Diagnostic>::empty()
            };
            assert(diags@ =~= start_diags + (pre + mid.subrange(pre_diags.len() as int, mid.len() as int) + tail));
        }
    }

    /// Reads a field: its kind, from its type and attributes, and its setter
    /// kind; makes it a member of the groups it names.
    pub fn parse(
        self,
        ident: String,
        field: FieldInput,
        groups: &mut GroupCollection,
        diags: &mut Vec<Diagnostic>,
    ) -> (f: Field)
        requires
            self.kind is None,
            self.setter_kind is None,
            old(groups).wf(),
        ensures
            final(groups).wf(),
            ({
                let (st, d) = spec_field_attributes(
                    spec_initial_state(spec_is_option(&field.ty), old(groups)@),
                    field.attrs@,
                    self.index,
                );
                &&& final(groups)@ == st.groups
                &&& final(diags)@ == old(diags)@ + d
                &&& f.kind == spec_final_kind(st.kind, self.assume_mandatory)
                &&& f.setter_kind == spec_final_setter(st.setter, self.assume_into)
            }),
            f.ident@ == ident@,
            f.ty == field.ty,
            f.index == self.index,
            f.span == field.span,
    {
        let mut parser = self;
        let FieldInput { ident: _, ty, attrs, span } = field;
        if !is_option(&ty) {
            parser.kind = Some(FieldKind::Mandatory);
        }
        let ghost start_diags = diags@;
        let ghost total = spec_field_attributes(parser.state(groups@), attrs@, parser.index);
        let mut i: usize = 0;
        assert(attrs@.skip(0) =~= attrs@);
        assert(diags@.subrange(start_diags.len() as int, diags@.len() as int) =~= Seq::<Diagnostic>::empty());
        while i < attrs.len()
            invariant
                i <= attrs@.len(),
                groups.wf(),
                parser.same_settings(&self),
                ({
                    let (st, d) = spec_field_attributes(parser.state(groups@), attrs@.skip(i as int), self.index);
                    total == (st, diags@.subrange(start_diags.len() as int, diags@.len() as int) + d)
                }),
                diags@.subrange(0, start_diags.len() as int) == start_diags,
                start_diags.len() <= diags@.len(),
            decreases attrs@.len() - i,
        {
            let ghost before_state = parser.state(groups@);
            let ghost before_diags = diags@;
            assert(attrs@.skip(i as int)[0] == attrs@[i as int]);
            assert(attrs@.skip(i as int).drop_first() =~= attrs@.skip(i + 1));
            parser.handle_attribute(&attrs[i], groups, diags);
            proof {
                let (s1, d1) = spec_field_attribute(before_state, &attrs@[i as int], self.index);
                assert(diags@.subrange(start_diags.len() as int, diags@.len() as int) =~= before_diags.subrange(
                    start_diags.len() as int,
                    before_diags.len() as int,
                ) + d1);
                assert(diags@.subrange(0, start_diags.len() as int) =~= before_diags.subrange(
                    0,
                    start_diags.len() as int,
                ));
            }
            i = i + 1;
        }
        proof {
            assert(attrs@.skip(i as int) =~= Seq::<Attribute>::empty());
            assert(diags@ =~= start_diags + diags@.subrange(start_diags.len() as int, diags@.len() as int));
        }
        let kind = match parser.kind {
            Some(k) => k,
            None => if parser.assume_mandatory { FieldKind::Mandatory } else { FieldKind::Optional },
        };
        let setter_kind = match parser.setter_kind {
            Some(s) => s,
            None => if parser.assume_into { SetterKind::Into } else { SetterKind::Standard },
        };
        Field::new(ident, ty, parser.index, kind, setter_kind, span)
    }
}

} // verus!
