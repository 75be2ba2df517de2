//! The builder struct: its constructor, one setter per field, and `build`.
use vstd::prelude::*;
use vstd::string::*;
use crate::info::container::{
    Container, SolverKind, spec_builder_ident, spec_data_ident, spec_data_field_ident,
};
use crate::info::field::{
    Field, FieldKind, SetterKind, spec_is_option, spec_option_inner_type, spec_setter_input_type,
    spec_const_ident,
};
use crate::info::group::{GroupType, GroupV, spec_expected_count, spec_function_symbol, satisfied_by};
use crate::symbol::spec_symbol_text;
use crate::text::{decimal, append_decimal};
use crate::generator::generics::{
    impl_generics_text, generics_text, type_generics_text, valued_generics_text, join, strs,
    append_impl_generics, append_generics, append_type_generics, append_joined,
};
use crate::generator::util::{
    ConstArgs, ConstArgsV, const_texts, const_texts_vec, spec_const_generics_all_valued,
    const_generics_all_valued, add_const_valued_generics_for_type, tracked_fields, bool_text,
    lemma_build_flags,
};
use crate::generator::solver::{
    spec_valid_combinations, valid_groupident_combinations, lists_accepted, all_accept, in_some_group,
};

verus! {

/// Every field that has a setter has the types its setter needs: the inner
/// type of an `Option` field, and of a grouped field.
pub open spec fn setter_types_known(fs: Seq<Field>) -> bool {
    forall|i: int| 0 <= i < fs.len() && (#[trigger] fs[i]).kind != FieldKind::Skipped
        && (spec_is_option(&fs[i].ty) || fs[i].kind == FieldKind::Grouped)
        ==> spec_option_inner_type(&fs[i].ty) is Some
}

/// The type a setter takes, before propagation.
pub open spec fn setter_field_type(f: Field) -> Seq<char> {
    spec_setter_input_type(&f).unwrap().text@
}

/// The type whose builder a propagating setter hands over: the inner type of
/// an `Option` field, else the setter's type.
pub open spec fn bottom_type(f: Field) -> Seq<char> {
    if spec_is_option(&f.ty) {
        spec_option_inner_type(&f.ty).unwrap().text@
    } else {
        setter_field_type(f)
    }
}

/// The parameter type of a setter: a function of the field type's builder
/// when the setter propagates.
#[verifier::opaque]
pub open spec fn setter_type_text(f: Field) -> Seq<char> {
    if f.setter_kind == SetterKind::Propagate {
        "fn(<"@ + bottom_type(f) + " as Builder>::BuilderImpl) -> "@ + setter_field_type(f)
    } else {
        setter_field_type(f)
    }
}

/// The value a setter stores: wrapped in `Some` unless the field is optional.
#[verifier::opaque]
pub open spec fn setter_value_text(f: Field) -> Seq<char> {
    let value = if f.setter_kind == SetterKind::Propagate {
        f.ident@ + "(<"@ + bottom_type(f) + " as Builder>::builder())"@
    } else {
        f.ident@
    };
    if f.kind == FieldKind::Optional {
        value
    } else {
        "Some("@ + value + ")"@
    }
}

/// The documentation of a setter.
#[verifier::opaque]
pub open spec fn setter_doc(c: &Container, f: Field) -> Seq<char> {
    "\nSetter for the [`"@ + c.ident@ + "::"@ + f.ident@ + "`] field.\n\n# Arguments\n\n- `"@
        + f.ident@ + "`: field to be set\n\n# Returns\n\n`"@ + spec_builder_ident(c.ident@)
        + "` with `"@ + f.ident@ + "` initialized"@
}

/// The impl that holds the setter of one field: the builder with the field's
/// flag unset, generic over the other flags.
pub open spec fn setter_impl_head(c: &Container, f: Field) -> Seq<char> {
    let ps = c.generics.params@;
    let fs = c.fields@;
    "impl"@ + generics_text(ps, const_texts(fs, ConstArgsV::DeclaredExcept(f.index))) + " "@
        + spec_builder_ident(c.ident@) + valued_generics_text(ps, const_texts(fs, ConstArgsV::Setter(f.index, false)))
        + " "@ + c.generics.where_clause@ + " {\n"@
}

/// The setter method of one field: it gives the builder back with the
/// field's flag set and the other flags unchanged.
pub open spec fn setter_fn_text(c: &Container, f: Field) -> Seq<char> {
    let ps = c.generics.params@;
    let fs = c.fields@;
    let builder = spec_builder_ident(c.ident@);
    let data_field = spec_data_field_ident(c.ident@);
    "    #[doc = \""@ + setter_doc(c, f) + "\"]\n"@
        + "    pub fn "@ + f.ident@ + "(self, "@ + f.ident@ + ": "@ + setter_type_text(f) + ") -> "@
        + builder + valued_generics_text(ps, const_texts(fs, ConstArgsV::Setter(f.index, true)))
        + " {\n"@
        + "        let mut "@ + data_field + " = self."@ + data_field + ";\n"@
        + "        "@ + data_field + "."@ + f.ident@ + " = "@ + setter_value_text(f) + ";\n"@
        + "        "@ + builder + " {\n"@
        + "            "@ + data_field + ",\n"@
        + "        }\n"@
        + "    }\n"@
}

/// The setter of one field, in an impl of its own.
pub open spec fn setter_text(c: &Container, f: Field) -> Seq<char> {
    setter_impl_head(c, f) + setter_fn_text(c, f) + "}\n"@
}

/// The setters of the fields that are not skipped, in order.
pub open spec fn setters_text(c: &Container, fs: Seq<Field>) -> Seq<char>
    decreases fs.len(),
{
    if fs.len() == 0 {
        Seq::empty()
    } else {
        setters_text(c, fs.drop_last()) + if fs.last().kind == FieldKind::Skipped {
            Seq::empty()
        } else {
            setter_text(c, fs.last())
        }
    }
}

/// The builder struct: generic over a `bool` flag for each tracked field.
pub open spec fn builder_struct_text(c: &Container) -> Seq<char> {
    let ps = c.generics.params@;
    "#[doc = \"Builder for [`"@ + c.ident@ + "`] derived using the `const_typed_builder` crate\"]\n"@
        + c.vis@ + " struct "@ + spec_builder_ident(c.ident@)
        + impl_generics_text(ps, const_texts(c.fields@, ConstArgsV::Declared)) + " "@
        + c.generics.where_clause@ + " {\n"@
        + "    "@ + spec_data_field_ident(c.ident@) + ": "@ + spec_data_ident(c.ident@)
        + type_generics_text(ps) + "\n"@
        + "}\n"@
}

/// The documentation of `new` and `default`.
pub open spec fn new_doc(c: &Container) -> Seq<char> {
    "Creates a new [`"@ + spec_builder_ident(c.ident@) + "`] without any fields initialized"@
}

/// `new` and `Default` of the builder, with every flag unset.
pub open spec fn builder_new_text(c: &Container) -> Seq<char> {
    let ps = c.generics.params@;
    let ig = impl_generics_text(ps, Seq::empty());
    let builder = spec_builder_ident(c.ident@);
    let unset = spec_const_generics_all_valued(false, c.fields@, ps);
    let wc = c.generics.where_clause@;
    "impl"@ + ig + " "@ + builder + unset + " "@ + wc + " {\n"@
        + "    #[doc = \""@ + new_doc(c) + "\"]\n"@
        + "    pub fn new() -> "@ + builder + unset + " {\n"@
        + "        Self::default()\n"@
        + "    }\n"@
        + "}\n"@
        + "impl"@ + ig + " Default for "@ + builder + unset + " "@ + wc + " {\n"@
        + "    #[doc = \""@ + new_doc(c) + "\"]\n"@
        + "    fn default() -> Self {\n"@
        + "        "@ + builder + " {\n"@
        + "            "@ + spec_data_field_ident(c.ident@) + ": "@ + spec_data_ident(c.ident@)
        + "::default(),\n"@
        + "        }\n"@
        + "    }\n"@
        + "}\n"@
}

/// The documentation of `build`.
pub open spec fn build_doc(c: &Container) -> Seq<char> {
    "Build an instance of [`"@ + c.ident@ + "`], consuming the [`"@ + spec_builder_ident(c.ident@)
        + "`]"@
}

/// The `build` method, for the builder type with the given flags.
pub open spec fn build_impl_text(c: &Container, chosen: Seq<usize>) -> Seq<char> {
    let ps = c.generics.params@;
    "impl"@ + impl_generics_text(ps, Seq::empty()) + " "@ + spec_builder_ident(c.ident@)
        + valued_generics_text(ps, const_texts(c.fields@, ConstArgsV::Build(chosen))) + " "@
        + c.generics.where_clause@ + " {\n"@
        + "    #[doc = \""@ + build_doc(c) + "\"]\n"@
        + "    pub fn build(self) -> "@ + c.ident@ + type_generics_text(ps) + " {\n"@
        + "        self."@ + spec_data_field_ident(c.ident@) + ".into()\n"@
        + "    }\n"@
        + "}\n"@
}

/// A `build` method for each of the given choices of grouped fields.
pub open spec fn build_impls_text(c: &Container, combos: Seq<Seq<usize>>) -> Seq<char>
    decreases combos.len(),
{
    if combos.len() == 0 {
        Seq::empty()
    } else {
        build_impls_text(c, combos.drop_last()) + build_impl_text(c, combos.last())
    }
}

/// The names of the flags of the given fields.
pub open spec fn member_flags(fs: Seq<Field>, indices: Seq<usize>) -> Seq<Seq<char>> {
    indices.map_values(|i: usize| spec_const_ident(fs[i as int].index))
}

/// The message of a group whose bound is not met.
pub open spec fn group_error_text(g: GroupV) -> Seq<char> {
    "`.build()` failed because the bounds of group `"@ + g.name + "` where not met ("@
        + spec_symbol_text(spec_function_symbol(g.group_type)) + " "@
        + decimal(spec_expected_count(g.group_type) as nat) + ")"@
}

/// The compile-time check of one group.
pub open spec fn group_check_text(fs: Seq<Field>, g: GroupV) -> Seq<char> {
    "        if !Self::"@ + spec_symbol_text(spec_function_symbol(g.group_type)) + "(&["@
        + join(member_flags(fs, g.indices)) + "], "@
        + decimal(spec_expected_count(g.group_type) as nat) + "usize) {\n"@
        + "            panic!(\""@ + group_error_text(g) + "\");\n"@
        + "        }\n"@
}

/// The compile-time checks of the groups, in order.
pub open spec fn group_checks_text(fs: Seq<Field>, gs: Seq<GroupV>) -> Seq<char>
    decreases gs.len(),
{
    if gs.len() == 0 {
        Seq::empty()
    } else {
        group_checks_text(fs, gs.drop_last()) + group_check_text(fs, gs.last())
    }
}

/// The constant whose evaluation checks every group, if there are groups.
pub open spec fn verifier_text(c: &Container) -> Seq<char> {
    if c.groups@.len() == 0 {
        Seq::empty()
    } else {
        "    const GROUP_VERIFIER: () = {\n"@ + group_checks_text(c.fields@, c.groups@)
            + "        ()\n"@ + "    };\n"@
    }
}

/// A `const fn` that compares the number of set flags with a count.
pub open spec fn counting_fn_text(name: Seq<char>, op: Seq<char>) -> Seq<char> {
    "    const fn "@ + name + "(input: &[bool], count: usize) -> bool {\n"@
        + "        let mut this_count = 0;\n"@
        + "        let mut i = 0;\n"@
        + "        while i < input.len() {\n"@
        + "            if input[i] {\n"@
        + "                this_count += 1\n"@
        + "            }\n"@
        + "            i += 1;\n"@
        + "        }\n"@
        + "        this_count "@ + op + " count\n"@
        + "    }\n"@
}

/// Whether some group has a bound of the same kind as `t`.
pub open spec fn has_group_kind(gs: Seq<GroupV>, t: GroupType) -> bool {
    exists|i: int| 0 <= i < gs.len() && spec_function_symbol(#[trigger] gs[i].group_type)
        == spec_function_symbol(t)
}

/// The counting functions that the groups' checks call, if there are groups.
pub open spec fn helper_fns_text(c: &Container) -> Seq<char> {
    let gs = c.groups@;
    if gs.len() == 0 {
        Seq::empty()
    } else {
        (if has_group_kind(gs, GroupType::Exact(0)) {
            counting_fn_text("exact"@, "=="@)
        } else {
            Seq::empty()
        }) + (if has_group_kind(gs, GroupType::AtLeast(0)) {
            counting_fn_text("at_least"@, ">="@)
        } else {
            Seq::empty()
        }) + (if has_group_kind(gs, GroupType::AtMost(0)) {
            counting_fn_text("at_most"@, "<="@)
        } else {
            Seq::empty()
        })
    }
}

/// Whether `count op bound` holds for a Rust comparison operator `op`.
pub open spec fn comparison_holds(op: Seq<char>, count: nat, bound: nat) -> bool {
    if op == "=="@ {
        count == bound
    } else if op == "!="@ {
        count != bound
    } else if op == "<"@ {
        count < bound
    } else if op == "<="@ {
        count <= bound
    } else if op == ">"@ {
        count > bound
    } else if op == ">="@ {
        count >= bound
    } else {
        false
    }
}

/// Whether the comparison `op` with the group type's count accepts a number of
/// set members exactly when the group type does.
pub open spec fn compares_as(op: Seq<char>, t: GroupType) -> bool {
    forall|count: nat| comparison_holds(op, count, spec_expected_count(t) as nat) == satisfied_by(t, count)
}

/// Whether `text` is `pre`, then `mid`, then `post`.
pub open spec fn splits_as(text: Seq<char>, pre: Seq<char>, mid: Seq<char>, post: Seq<char>) -> bool {
    text == pre + mid + post
}

/// The comparison operators are told apart by their spelling.
proof fn lemma_comparison_ops_differ()
    ensures
        ">="@ != "=="@,
        ">="@ != "!="@,
        ">="@ != "<"@,
        ">="@ != "<="@,
        ">="@ != ">"@,
        "<="@ != "=="@,
        "<="@ != "!="@,
        "<="@ != "<"@,
{
    reveal_strlit("==");
    reveal_strlit("!=");
    reveal_strlit("<");
    reveal_strlit("<=");
    reveal_strlit(">");
    reveal_strlit(">=");
    assert(">="@[0] != "=="@[0]);
    assert(">="@[0] != "!="@[0]);
    assert(">="@.len() != "<"@.len());
    assert(">="@[0] != "<="@[0]);
    assert(">="@.len() != ">"@.len());
    assert("<="@[0] != "=="@[0]);
    assert("<="@[0] != "!="@[0]);
    assert("<="@.len() != "<"@.len());
}

/// With the compiler solver, the check of every group calls a counting
/// function, named after the group's kind, that is written out among the
/// helpers and accepts a number of set members exactly when the group's bound
/// does.
pub proof fn lemma_helpers_match_bounds(c: &Container, g: int)
    requires
        0 <= g < c.groups@.len(),
    ensures
        exists|pre: Seq<char>, op: Seq<char>, post: Seq<char>|
            #[trigger] splits_as(
                helper_fns_text(c),
                pre,
                counting_fn_text(
                    spec_symbol_text(spec_function_symbol(c.groups@[g].group_type)),
                    op,
                ),
                post,
            ) && compares_as(op, c.groups@[g].group_type),
{
    lemma_comparison_ops_differ();
    let gs = c.groups@;
    let t = gs[g].group_type;
    let e = if has_group_kind(gs, GroupType::Exact(0)) {
        counting_fn_text("exact"@, "=="@)
    } else {
        Seq::empty()
    };
    let l = if has_group_kind(gs, GroupType::AtLeast(0)) {
        counting_fn_text("at_least"@, ">="@)
    } else {
        Seq::empty()
    };
    let m = if has_group_kind(gs, GroupType::AtMost(0)) {
        counting_fn_text("at_most"@, "<="@)
    } else {
        Seq::empty()
    };
    assert(helper_fns_text(c) == e + l + m);
    assert(spec_function_symbol(gs[g].group_type) == spec_function_symbol(t));
    let (front, op, back) = match t {
        GroupType::Exact(_) => {
            assert(has_group_kind(gs, GroupType::Exact(0)));
            (Seq::<char>::empty(), "=="@, l + m)
        },
        GroupType::AtLeast(_) => {
            assert(has_group_kind(gs, GroupType::AtLeast(0)));
            (e, ">="@, m)
        },
        GroupType::AtMost(_) => {
            assert(has_group_kind(gs, GroupType::AtMost(0)));
            (e + l, "<="@, Seq::<char>::empty())
        },
    };
    let mid = counting_fn_text(spec_symbol_text(spec_function_symbol(t)), op);
    assert(helper_fns_text(c) =~= front + mid + back);
    assert(splits_as(helper_fns_text(c), front, mid, back));
    assert(compares_as(op, t));
}

/// A setter stores what it is given in its field: an optional field gets the
/// value made from the setter's argument as it is, a mandatory or grouped
/// field gets it wrapped in `Some`. The value is made from the argument, which
/// is named like the field, and without propagation it is the argument itself.
pub proof fn lemma_setter_stores_its_argument(f: Field)
    requires
        f.kind != FieldKind::Skipped,
    ensures
        f.kind == FieldKind::Optional ==> setter_value_text(f).take(f.ident@.len() as int) == f.ident@,
        f.kind != FieldKind::Optional ==> ({
            let v = setter_value_text(f);
            &&& v.take(("Some("@.len() + f.ident@.len()) as int) == "Some("@ + f.ident@
            &&& v.len() > "Some("@.len() + f.ident@.len()
            &&& v.last() == ')'
        }),
        f.setter_kind != SetterKind::Propagate ==> setter_value_text(f) == if f.kind
            == FieldKind::Optional {
            f.ident@
        } else {
            "Some("@ + f.ident@ + ")"@
        },
{
    reveal(setter_value_text);
    reveal_strlit(")");
    let id = f.ident@;
    let value = if f.setter_kind == SetterKind::Propagate {
        id + "(<"@ + bottom_type(f) + " as Builder>::builder())"@
    } else {
        id
    };
    assert(value.take(id.len() as int) =~= id);
    if f.kind != FieldKind::Optional {
        let v = "Some("@ + value + ")"@;
        assert(v.take(("Some("@.len() + id.len()) as int) =~= "Some("@ + id);
    }
}

/// The use of the checking constant in `build`, if there are groups.
pub open spec fn check_text(c: &Container) -> Seq<char> {
    if c.groups@.len() == 0 {
        Seq::empty()
    } else {
        "        let _ = Self::GROUP_VERIFIER;\n"@
    }
}

/// One `build` method, generic over the grouped flags, whose groups are
/// checked when it is instantiated.
pub open spec fn compiler_build_text(c: &Container) -> Seq<char> {
    let ps = c.generics.params@;
    let fs = c.fields@;
    "impl"@ + generics_text(ps, const_texts(fs, ConstArgsV::GroupedDeclared)) + " "@
        + spec_builder_ident(c.ident@) + valued_generics_text(ps, const_texts(fs, ConstArgsV::UnsetGroups))
        + " "@ + c.generics.where_clause@ + " {\n"@
        + verifier_text(c) + helper_fns_text(c)
        + "    #[doc = \""@ + build_doc(c) + "\"]\n"@
        + "    pub fn build(self) -> "@ + c.ident@ + type_generics_text(ps) + " {\n"@
        + check_text(c)
        + "        self."@ + spec_data_field_ident(c.ident@) + ".into()\n"@
        + "    }\n"@
        + "}\n"@
}

/// The `build` methods: by brute force, one for each choice of grouped fields
/// that all groups accept; else one checked by the compiler.
pub open spec fn build_text(c: &Container) -> Seq<char> {
    match c.solver_kind {
        SolverKind::BruteForce => build_impls_text(c, spec_valid_combinations(c.groups@)),
        SolverKind::Compiler => compiler_build_text(c),
    }
}

/// Everything the builder generator writes.
pub open spec fn builder_text(c: &Container) -> Seq<char> {
    builder_struct_text(c) + builder_new_text(c) + setters_text(c, c.fields@) + build_text(c)
}

/// With the brute-force solver, `build` can be called exactly on the builders
/// whose mandatory fields are all set and whose set grouped fields every group
/// accepts: the `build` methods are written, one each, for the accepted sets
/// of grouped fields, and the `k`-th one is for the builder type whose
/// mandatory flags are `true` and whose grouped flags are `true` exactly for
/// the fields of the `k`-th set.
pub proof fn lemma_build_exactly_when_valid(c: &Container, s: Set<usize>)
    requires
        c.solver_kind == SolverKind::BruteForce,
        lists_accepted(c.groups@, spec_valid_combinations(c.groups@)),
        forall|x: usize| s.contains(x) ==> in_some_group(c.groups@, x),
    ensures
        build_text(c) == build_impls_text(c, spec_valid_combinations(c.groups@)),
        all_accept(c.groups@, s) <==> exists|k: int|
            0 <= k < spec_valid_combinations(c.groups@).len()
                && (#[trigger] spec_valid_combinations(c.groups@)[k]).to_set() == s,
        forall|k: int, j: int|
            0 <= k < spec_valid_combinations(c.groups@).len() && 0 <= j < tracked_fields(c.fields@).len()
                ==> const_texts(c.fields@, ConstArgsV::Build(#[trigger] spec_valid_combinations(c.groups@)[k]))[j]
                == if (#[trigger] tracked_fields(c.fields@)[j]).kind == FieldKind::Mandatory {
                "true"@
            } else {
                bool_text(spec_valid_combinations(c.groups@)[k].to_set().contains(tracked_fields(c.fields@)[j].index))
            },
{
    let combos = spec_valid_combinations(c.groups@);
    assert forall|k: int, j: int|
        0 <= k < combos.len() && 0 <= j < tracked_fields(c.fields@).len()
            implies const_texts(c.fields@, ConstArgsV::Build(#[trigger] combos[k]))[j]
            == if (#[trigger] tracked_fields(c.fields@)[j]).kind == FieldKind::Mandatory {
            "true"@
        } else {
            bool_text(combos[k].to_set().contains(tracked_fields(c.fields@)[j].index))
        } by {
        lemma_build_flags(c.fields@, combos[k]);
        let f = tracked_fields(c.fields@)[j];
        assert(combos[k].contains(f.index) == combos[k].to_set().contains(f.index));
    }
}

/// Writes the builder struct and its methods.
pub struct BuilderGenerator<'info> {
    info: &'info Container,
}

impl<'info> BuilderGenerator<'info> {
    /// The container this generator writes for.
    pub closed spec fn container(&self) -> &'info Container {
        self.info
    }

    /// What a container needs for its builder to be written.
    pub open spec fn ready(c: &Container) -> bool {
        c.wf() && setter_types_known(c.fields@)
    }

    /// A generator for the given container.
    pub fn new(info: &'info Container) -> (r: Self)
        ensures
            r.container() == info,
    {
        BuilderGenerator { info }
    }

    /// The builder struct, `new`, the setters and `build`.
    pub fn generate(&self) -> (r: String)
        requires
            Self::ready(self.container()),
        ensures
            r@ == builder_text(self.container()),
            self.container().solver_kind == SolverKind::BruteForce ==> lists_accepted(
                self.container().groups@,
                spec_valid_combinations(self.container().groups@),
            ),
    {
        let mut out = self.generate_struct();
        self.generate_impl(&mut out);
        out
    }

    fn generate_struct(&self) -> (r: String)
        ensures
            r@ == builder_struct_text(self.container()),
    {
        let info = self.info;
        let mut out = String::new();
        out.append("#[doc = \"Builder for [`");
        out.append(info.ident().as_str());
        out.append("`] derived using the `const_typed_builder` crate\"]\n");
        out.append(info.vis().as_str());
        out.append(" struct ");
        out.append(info.builder_ident().as_str());
        let generics = self.struct_generics();
        out.append(generics.as_str());
        out.append(" ");
        out.append(info.generics.where_clause.as_str());
        out.append(" {\n");
        out.append("    ");
        out.append(info.data_field_ident().as_str());
        out.append(": ");
        out.append(info.data_ident().as_str());
        append_type_generics(&mut out, &info.generics.params);
        out.append("\n");
        out.append("}\n");
        assert(out@ =~= builder_struct_text(self.container()));
        out
    }

    /// Appends `new`, the setters and `build`.
    fn generate_impl(&self, out: &mut String)
        requires
            Self::ready(self.container()),
        ensures
            final(out)@ == old(out)@ + builder_new_text(self.container())
                + setters_text(self.container(), self.container().fields@) + build_text(self.container()),
            self.container().solver_kind == SolverKind::BruteForce ==> lists_accepted(
                self.container().groups@,
                spec_valid_combinations(self.container().groups@),
            ),
    {
        let builder_new = self.generate_new_impl();
        out.append(builder_new.as_str());
        let builder_setters = self.generate_setters_impl();
        out.append(builder_setters.as_str());
        let builder_build = self.generate_build_impl();
        out.append(builder_build.as_str());
    }

    fn generate_new_impl(&self) -> (r: String)
        ensures
            r@ == builder_new_text(self.container()),
    {
        let info = self.info;
        let ps = &info.generics.params;
        let builder = info.builder_ident();
        let mut unset = String::new();
        const_generics_all_valued(&mut unset, false, info.field_collection(), ps);
        let no_consts: Vec<String> = Vec::new();
        assert(strs(no_consts@) =~= Seq::<Seq<char>>::empty());
        let mut ig = String::new();
        append_impl_generics(&mut ig, ps, &no_consts);
        let wc = info.generics.where_clause.as_str();
        let mut doc = String::from_str("Creates a new [`");
        doc.append(builder.as_str());
        doc.append("`] without any fields initialized");
        let mut out = String::new();
        out.append("impl");
        out.append(ig.as_str());
        out.append(" ");
        out.append(builder.as_str());
        out.append(unset.as_str());
        out.append(" ");
        out.append(wc);
        out.append(" {\n");
        out.append("    #[doc = \"");
        out.append(doc.as_str());
        out.append("\"]\n");
        out.append("    pub fn new() -> ");
        out.append(builder.as_str());
        out.append(unset.as_str());
        out.append(" {\n");
        out.append("        Self::default()\n");
        out.append("    }\n");
        out.append("}\n");
        out.append("impl");
        out.append(ig.as_str());
        out.append(" Default for ");
        out.append(builder.as_str());
        out.append(unset.as_str());
        out.append(" ");
        out.append(wc);
        out.append(" {\n");
        out.append("    #[doc = \"");
        out.append(doc.as_str());
        out.append("\"]\n");
        out.append("    fn default() -> Self {\n");
        out.append("        ");
        out.append(builder.as_str());
        out.append(" {\n");
        out.append("            ");
        out.append(info.data_field_ident().as_str());
        out.append(": ");
        out.append(info.data_ident().as_str());
        out.append("::default(),\n");
        out.append("        }\n");
        out.append("    }\n");
        out.append("}\n");
        assert(out@ =~= builder_new_text(self.container()));
        out
    }

    fn generate_build_impl(&self) -> (r: String)
        requires
            Self::ready(self.container()),
        ensures
            r@ == build_text(self.container()),
            self.container().solver_kind == SolverKind::BruteForce ==> lists_accepted(
                self.container().groups@,
                spec_valid_combinations(self.container().groups@),
            ),
    {
        let info = self.info;
        match info.solver_kind() {
            SolverKind::BruteForce => {
                let mut combos = self.valid_groupident_combinations();
                let ghost cs = combos@.map_values(|v: Vec<usize>| v@);
                let ghost ps = combos@;
                let n = combos.len();
                let mut out = String::new();
                let mut i: usize = 0;
                assert(cs.take(0) =~= Seq::<Seq<usize>>::empty());
                while i < n
                    invariant
                        n == combos@.len(),
                        n == ps.len(),
                        i <= n,
                        cs == ps.map_values(|v: Vec<usize>| v@),
                        forall|k: int| i <= k < n ==> combos@[k] == ps[k],
                        out@ == build_impls_text(self.container(), cs.take(i as int)),
                    decreases n - i,
                {
                    let mut chosen: Vec<usize> = Vec::new();
                    std::mem::swap(&mut combos[i], &mut chosen);
                    assert(chosen@ == cs[i as int]);
                    let piece = self.build_impl(chosen);
                    out.append(piece.as_str());
                    assert(cs.take(i + 1).drop_last() =~= cs.take(i as int));
                    assert(cs.take(i + 1).last() == cs[i as int]);
                    i = i + 1;
                }
                assert(cs.take(n as int) =~= cs);
                out
            },
            SolverKind::Compiler => self.compiler_build_impl(),
        }
    }

    /// The `build` method for the builder type whose grouped flags are set
    /// exactly for the fields in `true_indices`.
    fn build_impl(&self, true_indices: Vec<usize>) -> (r: String)
        ensures
            r@ == build_impl_text(self.container(), true_indices@),
    {
        let info = self.info;
        let ps = &info.generics.params;
        let no_consts: Vec<String> = Vec::new();
        assert(strs(no_consts@) =~= Seq::<Seq<char>>::empty());
        let mut out = String::new();
        out.append("impl");
        append_impl_generics(&mut out, ps, &no_consts);
        out.append(" ");
        out.append(info.builder_ident().as_str());
        let values = self.const_generic_idents_build(true_indices);
        out.append(values.as_str());
        out.append(" ");
        out.append(info.generics.where_clause.as_str());
        out.append(" {\n");
        out.append("    #[doc = \"");
        let doc = self.build_documentation();
        out.append(doc.as_str());
        out.append("\"]\n");
        out.append("    pub fn build(self) -> ");
        out.append(info.ident().as_str());
        append_type_generics(&mut out, ps);
        out.append(" {\n");
        out.append("        self.");
        out.append(info.data_field_ident().as_str());
        out.append(".into()\n");
        out.append("    }\n");
        out.append("}\n");
        assert(out@ =~= build_impl_text(self.container(), true_indices@));
        out
    }

    fn build_documentation(&self) -> (r: String)
        ensures
            r@ == build_doc(self.container()),
    {
        let mut doc = String::from_str("Build an instance of [`");
        doc.append(self.info.ident().as_str());
        doc.append("`], consuming the [`");
        doc.append(self.info.builder_ident().as_str());
        doc.append("`]");
        assert(doc@ =~= build_doc(self.container()));
        doc
    }

    fn compiler_build_impl(&self) -> (r: String)
        requires
            Self::ready(self.container()),
        ensures
            r@ == compiler_build_text(self.container()),
    {
        let info = self.info;
        let ps = &info.generics.params;
        let mut out = String::new();
        out.append("impl");
        let ig = self.const_generic_group_partial_idents();
        out.append(ig.as_str());
        out.append(" ");
        out.append(info.builder_ident().as_str());
        let tg = self.const_generic_idents_build_unset_group();
        out.append(tg.as_str());
        out.append(" ");
        out.append(info.generics.where_clause.as_str());
        out.append(" {\n");
        let verifier = self.impl_correctness_verifier();
        out.append(verifier.as_str());
        let helpers = self.impl_correctness_helper_fns();
        out.append(helpers.as_str());
        out.append("    #[doc = \"");
        let doc = self.build_documentation();
        out.append(doc.as_str());
        out.append("\"]\n");
        out.append("    pub fn build(self) -> ");
        out.append(info.ident().as_str());
        append_type_generics(&mut out, ps);
        out.append(" {\n");
        let check = self.impl_correctness_check();
        out.append(check.as_str());
        out.append("        self.");
        out.append(info.data_field_ident().as_str());
        out.append(".into()\n");
        out.append("    }\n");
        out.append("}\n");
        assert(out@ =~= compiler_build_text(self.container()));
        out
    }

    fn generate_setters_impl(&self) -> (r: String)
        requires
            Self::ready(self.container()),
        ensures
            r@ == setters_text(self.container(), self.container().fields@),
    {
        let fields = self.info.field_collection();
        let ghost fs = fields@;
        let mut out = String::new();
        let mut i: usize = 0;
        assert(fs.take(0) =~= Seq::<Field>::empty());
        while i < fields.len()
            invariant
                fs == self.container().fields@,
                fields@ == fs,
                i <= fs.len(),
                Self::ready(self.container()),
                out@ == setters_text(self.container(), fs.take(i as int)),
            decreases fs.len() - i,
        {
            let f = &fields[i];
            assert(fs.take(i + 1).drop_last() =~= fs.take(i as int));
            assert(fs.take(i + 1).last() == fs[i as int]);
            match f.kind {
                FieldKind::Skipped => {
                    assert(out@ =~= setters_text(self.container(), fs.take(i + 1)));
                },
                _ => {
                    assert(*f == fs[i as int]);
                    let piece = self.generate_setter(f);
                    out.append(piece.as_str());
                },
            }
            i = i + 1;
        }
        assert(fs.take(i as int) =~= fs);
        out
    }

    /// The setter of one field that is not skipped.
    fn generate_setter(&self, field: &Field) -> (r: String)
        requires
            field.kind != FieldKind::Skipped,
            spec_is_option(&field.ty) || field.kind == FieldKind::Grouped ==> spec_option_inner_type(&field.ty) is Some,
        ensures
            r@ == setter_text(self.container(), *field),
    {
        let mut out = self.setter_impl_head(field);
        let method = self.setter_method(field);
        out.append(method.as_str());
        out.append("}\n");
        out
    }

    fn setter_impl_head(&self, field: &Field) -> (r: String)
        ensures
            r@ == setter_impl_head(self.container(), *field),
    {
        let info = self.info;
        let mut out = String::new();
        out.append("impl");
        let impl_generics = self.const_generic_idents_set_impl(field);
        out.append(impl_generics.as_str());
        out.append(" ");
        out.append(info.builder_ident().as_str());
        let input_generics = self.const_generic_idents_set_type(field, false);
        out.append(input_generics.as_str());
        out.append(" ");
        out.append(info.generics.where_clause.as_str());
        out.append(" {\n");
        assert(out@ =~= setter_impl_head(self.container(), *field));
        out
    }

    fn setter_method(&self, field: &Field) -> (r: String)
        requires
            field.kind != FieldKind::Skipped,
            spec_is_option(&field.ty) || field.kind == FieldKind::Grouped ==> spec_option_inner_type(&field.ty) is Some,
        ensures
            r@ == setter_fn_text(self.container(), *field),
    {
        let info = self.info;
        let builder = info.builder_ident();
        let data_field = info.data_field_ident();
        let mut out = String::new();
        out.append("    #[doc = \"");
        let doc = self.setter_documentation(field);
        out.append(doc.as_str());
        out.append("\"]\n");
        out.append("    pub fn ");
        out.append(field.ident.as_str());
        out.append("(self, ");
        let input_type = self.impl_set_input_type(field).unwrap();
        out.append(input_type.as_str());
        out.append(") -> ");
        out.append(builder.as_str());
        let output_generics = self.const_generic_idents_set_type(field, true);
        out.append(output_generics.as_str());
        out.append(" {\n");
        out.append("        let mut ");
        out.append(data_field.as_str());
        out.append(" = self.");
        out.append(data_field.as_str());
        out.append(";\n");
        out.append("        ");
        out.append(data_field.as_str());
        out.append(".");
        out.append(field.ident.as_str());
        out.append(" = ");
        let input_value = self.impl_set_input_value(field).unwrap();
        out.append(input_value.as_str());
        out.append(";\n");
        out.append("        ");
        out.append(builder.as_str());
        out.append(" {\n");
        out.append("            ");
        out.append(data_field.as_str());
        out.append(",\n");
        out.append("        }\n");
        out.append("    }\n");
        assert(out@ =~= setter_fn_text(self.container(), *field));
        out
    }

    fn setter_documentation(&self, field: &Field) -> (r: String)
        ensures
            r@ == setter_doc(self.container(), *field),
    {
        proof {
            reveal(setter_doc);
        }
        let mut doc = String::from_str("\nSetter for the [`");
        doc.append(self.info.ident().as_str());
        doc.append("::");
        doc.append(field.ident.as_str());
        doc.append("`] field.\n\n# Arguments\n\n- `");
        doc.append(field.ident.as_str());
        doc.append("`: field to be set\n\n# Returns\n\n`");
        doc.append(self.info.builder_ident().as_str());
        doc.append("` with `");
        doc.append(field.ident.as_str());
        doc.append("` initialized");
        assert(doc@ =~= setter_doc(self.container(), *field));
        doc
    }

    /// The builder struct's generics: the container's, with a flag for each
    /// tracked field.
    fn struct_generics(&self) -> (r: String)
        ensures
            r@ == impl_generics_text(
                self.container().generics.params@,
                const_texts(self.container().fields@, ConstArgsV::Declared),
            ),
    {
        let idents = const_texts_vec(self.info.field_collection(), &ConstArgs::Declared);
        let mut out = String::new();
        append_impl_generics(&mut out, &self.info.generics.params, &idents);
        out
    }

    /// The builder type's arguments for `build`: mandatory flags set, grouped
    /// flags set exactly for the fields in `true_indices`.
    fn const_generic_idents_build(&self, true_indices: Vec<usize>) -> (r: String)
        ensures
            r@ == valued_generics_text(
                self.container().generics.params@,
                const_texts(self.container().fields@, ConstArgsV::Build(true_indices@)),
            ),
    {
        let mut out = String::new();
        add_const_valued_generics_for_type(
            &mut out,
            self.info.field_collection(),
            &ConstArgs::Build(true_indices),
            &self.info.generics.params,
        );
        out
    }

    /// The generics of a setter's impl: the container's, with a flag for each
    /// tracked field but the one set.
    fn const_generic_idents_set_impl(&self, field_info: &Field) -> (r: String)
        ensures
            r@ == generics_text(
                self.container().generics.params@,
                const_texts(self.container().fields@, ConstArgsV::DeclaredExcept(field_info.index)),
            ),
    {
        let idents = const_texts_vec(
            self.info.field_collection(),
            &ConstArgs::DeclaredExcept(field_info.index),
        );
        let mut out = String::new();
        append_generics(&mut out, &self.info.generics.params, &idents);
        out
    }

    /// The builder type's arguments around a setter: `value` for the field
    /// set, the flags' names for the others.
    fn const_generic_idents_set_type(&self, field_info: &Field, value: bool) -> (r: String)
        ensures
            r@ == valued_generics_text(
                self.container().generics.params@,
                const_texts(self.container().fields@, ConstArgsV::Setter(field_info.index, value)),
            ),
    {
        let mut out = String::new();
        add_const_valued_generics_for_type(
            &mut out,
            self.info.field_collection(),
            &ConstArgs::Setter(field_info.index, value),
            &self.info.generics.params,
        );
        out
    }

    /// The generics of the compiler-checked `build`: a flag for each grouped field.
    fn const_generic_group_partial_idents(&self) -> (r: String)
        ensures
            r@ == generics_text(
                self.container().generics.params@,
                const_texts(self.container().fields@, ConstArgsV::GroupedDeclared),
            ),
    {
        let idents = const_texts_vec(self.info.field_collection(), &ConstArgs::GroupedDeclared);
        let mut out = String::new();
        append_generics(&mut out, &self.info.generics.params, &idents);
        out
    }

    /// The builder type's arguments for the compiler-checked `build`:
    /// mandatory flags set, grouped flags by name.
    fn const_generic_idents_build_unset_group(&self) -> (r: String)
        ensures
            r@ == valued_generics_text(
                self.container().generics.params@,
                const_texts(self.container().fields@, ConstArgsV::UnsetGroups),
            ),
    {
        let mut out = String::new();
        add_const_valued_generics_for_type(
            &mut out,
            self.info.field_collection(),
            &ConstArgs::UnsetGroups,
            &self.info.generics.params,
        );
        out
    }

    /// The constant that checks every group when `build` is instantiated.
    fn impl_correctness_verifier(&self) -> (r: String)
        requires
            Self::ready(self.container()),
        ensures
            r@ == verifier_text(self.container()),
    {
        let info = self.info;
        let groups = info.group_collection();
        if groups.is_empty() {
            return String::new();
        }
        let ghost gs = groups@;
        let ghost fs = info.fields@;
        let mut out = String::from_str("    const GROUP_VERIFIER: () = {\n");
        let ghost start = out@;
        let mut g: usize = 0;
        assert(gs.take(0) =~= Seq::<GroupV>::empty());
        assert(out@ =~= start + group_checks_text(fs, gs.take(0)));
        while g < groups.groups.len()
            invariant
                gs == groups@,
                fs == info.fields@,
                info == self.container(),
                groups == info.groups,
                Self::ready(self.container()),
                g <= gs.len(),
                out@ == start + group_checks_text(fs, gs.take(g as int)),
            decreases gs.len() - g,
        {
            assert(groups.groups@[g as int]@ == gs[g as int]);
            let piece = self.group_check(g);
            out.append(piece.as_str());
            assert(gs.take(g + 1).drop_last() =~= gs.take(g as int));
            assert(gs.take(g + 1).last() == gs[g as int]);
            assert(out@ =~= start + group_checks_text(fs, gs.take(g + 1)));
            g = g + 1;
        }
        assert(gs.take(g as int) =~= gs);
        out.append("        ()\n");
        out.append("    };\n");
        assert(out@ =~= verifier_text(self.container()));
        out
    }

    /// The check of the group at position `g`.
    fn group_check(&self, g: usize) -> (r: String)
        requires
            Self::ready(self.container()),
            g < self.container().groups@.len(),
        ensures
            r@ == group_check_text(self.container().fields@, self.container().groups@[g as int]),
    {
        let info = self.info;
        let group = &info.groups.groups[g];
        let ghost gv = info.groups@[g as int];
        assert(group@ == gv);
        let fields = info.field_collection();
        let idx = group.indices();
        let mut partials: Vec<String> = Vec::new();
        let mut k: usize = 0;
        while k < idx.len()
            invariant
                idx@ == gv.indices,
                fields@ == info.fields@,
                info == self.container(),
                gv == info.groups@[g as int],
                g < info.groups@.len(),
                Self::ready(self.container()),
                k <= idx@.len(),
                strs(partials@) == member_flags(fields@, gv.indices.take(k as int)),
            decreases idx@.len() - k,
        {
            let i = idx[k];
            assert(i < fields@.len());
            let ghost before = partials@;
            partials.push(fields[i].const_ident());
            assert(strs(partials@) =~= strs(before).push(spec_const_ident(fields@[i as int].index)));
            assert(member_flags(fields@, gv.indices.take(k + 1)) =~= member_flags(
                fields@,
                gv.indices.take(k as int),
            ).push(spec_const_ident(fields@[i as int].index)));
            k = k + 1;
        }
        assert(gv.indices.take(k as int) =~= gv.indices);
        let symbol = group.function_symbol();
        let count = group.expected_count();
        let mut out = String::from_str("        if !Self::");
        out.append(symbol.text());
        out.append("(&[");
        append_joined(&mut out, &partials);
        out.append("], ");
        append_decimal(&mut out, count);
        out.append("usize) {\n");
        out.append("            panic!(\"");
        out.append("`.build()` failed because the bounds of group `");
        out.append(group.name().as_str());
        out.append("` where not met (");
        out.append(symbol.text());
        out.append(" ");
        append_decimal(&mut out, count);
        out.append(")");
        out.append("\");\n");
        out.append("        }\n");
        assert(out@ =~= group_check_text(fields@, gv));
        out
    }

    /// The use of the checking constant in `build`.
    fn impl_correctness_check(&self) -> (r: String)
        ensures
            r@ == check_text(self.container()),
    {
        if self.info.group_collection().is_empty() {
            String::new()
        } else {
            String::from_str("        let _ = Self::GROUP_VERIFIER;\n")
        }
    }

    /// The counting functions that the checks of the groups call.
    fn impl_correctness_helper_fns(&self) -> (r: String)
        ensures
            r@ == helper_fns_text(self.container()),
    {
        let groups = self.info.group_collection();
        if groups.is_empty() {
            return String::new();
        }
        let ghost gs = groups@;
        let mut exact = false;
        let mut at_least = false;
        let mut at_most = false;
        let mut g: usize = 0;
        while g < groups.groups.len()
            invariant
                gs == groups@,
                g <= gs.len(),
                exact == exists|h: int| 0 <= h < g && (#[trigger] gs[h].group_type) is Exact,
                at_least == exists|h: int| 0 <= h < g && (#[trigger] gs[h].group_type) is AtLeast,
                at_most == exists|h: int| 0 <= h < g && (#[trigger] gs[h].group_type) is AtMost,
            decreases gs.len() - g,
        {
            assert(groups.groups@[g as int]@ == gs[g as int]);
            let t = *groups.groups[g].group_type();
            assert(t == gs[g as int].group_type);
            match t {
                GroupType::Exact(_) => exact = true,
                GroupType::AtLeast(_) => at_least = true,
                GroupType::AtMost(_) => at_most = true,
            }
            g = g + 1;
        }
        proof {
            assert(exact == has_group_kind(gs, GroupType::Exact(0))) by {
                if exact {
                    let h = choose|h: int| 0 <= h < gs.len() && (#[trigger] gs[h].group_type) is Exact;
                    assert(spec_function_symbol(gs[h].group_type) == spec_function_symbol(GroupType::Exact(0)));
                }
            }
            assert(at_least == has_group_kind(gs, GroupType::AtLeast(0))) by {
                if at_least {
                    let h = choose|h: int| 0 <= h < gs.len() && (#[trigger] gs[h].group_type) is AtLeast;
                    assert(spec_function_symbol(gs[h].group_type) == spec_function_symbol(GroupType::AtLeast(0)));
                }
            }
            assert(at_most == has_group_kind(gs, GroupType::AtMost(0))) by {
                if at_most {
                    let h = choose|h: int| 0 <= h < gs.len() && (#[trigger] gs[h].group_type) is AtMost;
                    assert(spec_function_symbol(gs[h].group_type) == spec_function_symbol(GroupType::AtMost(0)));
                }
            }
        }
        let mut out = String::new();
        if exact {
            append_counting_fn(&mut out, "exact", "==");
        }
        if at_least {
            append_counting_fn(&mut out, "at_least", ">=");
        }
        if at_most {
            append_counting_fn(&mut out, "at_most", "<=");
        }
        assert(out@ =~= helper_fns_text(self.container()));
        out
    }

    /// The setter's parameter, `None` for a skipped field.
    fn impl_set_input_type(&self, field: &Field) -> (r: Option<String>)
        requires
            spec_is_option(&field.ty) || field.kind == FieldKind::Grouped ==> spec_option_inner_type(&field.ty) is Some,
        ensures
            match r {
                Some(s) => field.kind != FieldKind::Skipped && s@ == field.ident@ + ": "@
                    + setter_type_text(*field),
                None => field.kind == FieldKind::Skipped,
            },
    {
        match field.kind {
            FieldKind::Skipped => return None,
            _ => {},
        }
        let field_ty = field.setter_input_type().unwrap();
        let bottom_ty = if field.is_option_type() {
            field.inner_type().unwrap()
        } else {
            field_ty
        };
        proof {
            reveal(setter_type_text);
        }
        let mut out = field.ident.clone();
        out.append(": ");
        if field.propagate() {
            out.append("fn(<");
            out.append(bottom_ty.text.as_str());
            out.append(" as Builder>::BuilderImpl) -> ");
            out.append(field_ty.text.as_str());
        } else {
            out.append(field_ty.text.as_str());
        }
        assert(out@ =~= field.ident@ + ": "@ + setter_type_text(*field));
        Some(out)
    }

    /// The value the setter stores, `None` for a skipped field.
    fn impl_set_input_value(&self, field: &Field) -> (r: Option<String>)
        requires
            spec_is_option(&field.ty) || field.kind == FieldKind::Grouped ==> spec_option_inner_type(&field.ty) is Some,
        ensures
            match r {
                Some(s) => field.kind != FieldKind::Skipped && s@ == setter_value_text(*field),
                None => field.kind == FieldKind::Skipped,
            },
    {
        match field.kind {
            FieldKind::Skipped => return None,
            _ => {},
        }
        let field_ty = field.setter_input_type().unwrap();
        let bottom_ty = if field.is_option_type() {
            field.inner_type().unwrap()
        } else {
            field_ty
        };
        proof {
            reveal(setter_value_text);
        }
        let mut value = field.ident.clone();
        if field.propagate() {
            value.append("(<");
            value.append(bottom_ty.text.as_str());
            value.append(" as Builder>::builder())");
        }
        let optional = match field.kind {
            FieldKind::Optional => true,
            _ => false,
        };
        if optional {
            assert(value@ =~= setter_value_text(*field));
            Some(value)
        } else {
            let mut out = String::from_str("Some(");
            out.append(value.as_str());
            out.append(")");
            assert(out@ =~= setter_value_text(*field));
            Some(out)
        }
    }

    /// The choices of grouped fields that every group accepts.
    fn valid_groupident_combinations(&self) -> (r: Vec<Vec<usize>>)
        requires
            self.container().wf(),
        ensures
            r@.map_values(|v: Vec<usize>| v@) == spec_valid_combinations(self.container().groups@),
            lists_accepted(self.container().groups@, r@.map_values(|v: Vec<usize>| v@)),
    {
        valid_groupident_combinations(self.info.group_collection())
    }
}

/// Whether the setter of field `f` has the types it needs.
pub open spec fn setter_type_known(f: Field) -> bool {
    f.kind != FieldKind::Skipped && (spec_is_option(&f.ty) || f.kind == FieldKind::Grouped)
        ==> spec_option_inner_type(&f.ty) is Some
}

/// The first field whose setter lacks the inner type it needs, if any.
pub fn missing_setter_type(fields: &Vec<Field>) -> (r: Option<usize>)
    ensures
        r is None <==> setter_types_known(fields@),
        r matches Some(i) ==> i < fields@.len() && !setter_type_known(fields@[i as int])
            && forall|k: int| 0 <= k < i ==> setter_type_known(#[trigger] fields@[k]),
{
    let mut i: usize = 0;
    while i < fields.len()
        invariant
            i <= fields@.len(),
            forall|k: int| 0 <= k < i ==> setter_type_known(#[trigger] fields@[k]),
        decreases fields@.len() - i,
    {
        let f = &fields[i];
        let skipped = match f.kind {
            FieldKind::Skipped => true,
            _ => false,
        };
        let grouped = match f.kind {
            FieldKind::Grouped => true,
            _ => false,
        };
        if !skipped && (f.is_option_type() || grouped) && f.inner_type().is_none() {
            return Some(i);
        }
        i = i + 1;
    }
    assert forall|k: int| 0 <= k < fields@.len() && (#[trigger] fields@[k]).kind != FieldKind::Skipped
        && (spec_is_option(&fields@[k].ty) || fields@[k].kind == FieldKind::Grouped)
        implies spec_option_inner_type(&fields@[k].ty) is Some by {
        assert(setter_type_known(fields@[k]));
    }
    None
}

fn append_counting_fn(out: &mut String, name: &str, op: &str)
    ensures
        final(out)@ == old(out)@ + counting_fn_text(name@, op@),
{
    out.append("    const fn ");
    out.append(name);
    out.append("(input: &[bool], count: usize) -> bool {\n");
    out.append("        let mut this_count = 0;\n");
    out.append("        let mut i = 0;\n");
    out.append("        while i < input.len() {\n");
    out.append("            if input[i] {\n");
    out.append("                this_count += 1\n");
    out.append("            }\n");
    out.append("            i += 1;\n");
    out.append("        }\n");
    out.append("        this_count ");
    out.append(op);
    out.append(" count\n");
    out.append("    }\n");
    assert(out@ =~= old(out)@ + counting_fn_text(name@, op@));
}

} // verus!
