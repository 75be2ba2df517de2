//! The const parameters that record, in the builder's type, which tracked
//! fields are set.
use vstd::prelude::*;
use vstd::string::*;
use crate::info::field::{Field, FieldKind, spec_const_ident};
use crate::model::GenericParam;
use crate::generator::generics::{strs, valued_generics_text, append_valued_generics};

verus! {

/// What to write for each tracked field in a list of const arguments or
/// parameters.
#[derive(Debug)]
pub enum ConstArgs {
    /// The given value for every tracked field.
    Valued(bool),
    /// The parameter name of every tracked field.
    Declared,
    /// The parameter name of every tracked field but the one at the given index.
    DeclaredExcept(usize),
    /// The given value for the tracked field at the given index, the
    /// parameter name for the others.
    Setter(usize, bool),
    /// `true` for mandatory fields; for grouped fields whether they are chosen.
    Build(Vec<usize>),
    /// The parameter name of every grouped field.
    GroupedDeclared,
    /// `true` for mandatory fields, the parameter name for grouped fields.
    UnsetGroups,
}

/// What a `ConstArgs` denotes.
pub enum ConstArgsV {
    Valued(bool),
    Declared,
    DeclaredExcept(usize),
    Setter(usize, bool),
    Build(Seq<usize>),
    GroupedDeclared,
    UnsetGroups,
}

impl View for ConstArgs {
    type V = ConstArgsV;

    open spec fn view(&self) -> ConstArgsV {
        match self {
            ConstArgs::Valued(b) => ConstArgsV::Valued(*b),
            ConstArgs::Declared => ConstArgsV::Declared,
            ConstArgs::DeclaredExcept(i) => ConstArgsV::DeclaredExcept(*i),
            ConstArgs::Setter(i, b) => ConstArgsV::Setter(*i, *b),
            ConstArgs::Build(v) => ConstArgsV::Build(v@),
            ConstArgs::GroupedDeclared => ConstArgsV::GroupedDeclared,
            ConstArgs::UnsetGroups => ConstArgsV::UnsetGroups,
        }
    }
}

/// `true` or `false`.
pub open spec fn bool_text(b: bool) -> Seq<char> {
    if b {
        "true"@
    } else {
        "false"@
    }
}

/// Whether the builder's type tracks a field: mandatory and grouped fields.
pub open spec fn is_tracked(f: Field) -> bool {
    f.kind == FieldKind::Mandatory || f.kind == FieldKind::Grouped
}

/// What is written for one field, if anything.
pub open spec fn const_text(f: Field, args: ConstArgsV) -> Option<Seq<char>> {
    let ident = spec_const_ident(f.index);
    match args {
        ConstArgsV::Valued(b) => if is_tracked(f) { Some(bool_text(b)) } else { None },
        ConstArgsV::Declared => if is_tracked(f) { Some(ident) } else { None },
        ConstArgsV::DeclaredExcept(i) => if is_tracked(f) && f.index != i { Some(ident) } else { None },
        ConstArgsV::Setter(i, b) => if is_tracked(f) {
            if f.index == i { Some(bool_text(b)) } else { Some(ident) }
        } else {
            None
        },
        ConstArgsV::Build(chosen) => match f.kind {
            FieldKind::Mandatory => Some("true"@),
            FieldKind::Grouped => Some(bool_text(chosen.contains(f.index))),
            _ => None,
        },
        ConstArgsV::GroupedDeclared => if f.kind == FieldKind::Grouped { Some(ident) } else { None },
        ConstArgsV::UnsetGroups => match f.kind {
            FieldKind::Mandatory => Some("true"@),
            FieldKind::Grouped => Some(ident),
            _ => None,
        },
    }
}

/// What is written for the fields, in order.
pub open spec fn const_texts(fs: Seq<Field>, args: ConstArgsV) -> Seq<Seq<char>>
    decreases fs.len(),
{
    if fs.len() == 0 {
        Seq::empty()
    } else {
        let rest = const_texts(fs.drop_last(), args);
        match const_text(fs.last(), args) {
            Some(t) => rest.push(t),
            None => rest,
        }
    }
}

/// The tracked fields, in order: the builder's type has one flag for each.
pub open spec fn tracked_fields(fs: Seq<Field>) -> Seq<Field>
    decreases fs.len(),
{
    if fs.len() == 0 {
        Seq::empty()
    } else if is_tracked(fs.last()) {
        tracked_fields(fs.drop_last()).push(fs.last())
    } else {
        tracked_fields(fs.drop_last())
    }
}

/// Whether `args` writes something for exactly the tracked fields.
pub open spec fn covers_tracked(args: ConstArgsV) -> bool {
    match args {
        ConstArgsV::DeclaredExcept(_) | ConstArgsV::GroupedDeclared => false,
        _ => true,
    }
}

/// For arguments that cover the tracked fields, the `k`-th text is written
/// for the `k`-th tracked field.
proof fn lemma_const_texts_tracked(fs: Seq<Field>, args: ConstArgsV)
    requires
        covers_tracked(args),
    ensures
        const_texts(fs, args).len() == tracked_fields(fs).len(),
        forall|k: int| 0 <= k < tracked_fields(fs).len() ==> const_text(
            #[trigger] tracked_fields(fs)[k],
            args,
        ) == Some(const_texts(fs, args)[k]),
    decreases fs.len(),
{
    if fs.len() > 0 {
        lemma_const_texts_tracked(fs.drop_last(), args);
    }
}

/// The tracked fields are fields of `fs`, in increasing position.
proof fn lemma_tracked_fields_positions(fs: Seq<Field>)
    requires
        forall|k: int| 0 <= k < fs.len() ==> (#[trigger] fs[k]).index == k,
    ensures
        forall|k: int| 0 <= k < tracked_fields(fs).len() ==> 0 <= (#[trigger] tracked_fields(fs)[k]).index
            < fs.len() && is_tracked(tracked_fields(fs)[k]),
        forall|k1: int, k2: int| 0 <= k1 < k2 < tracked_fields(fs).len() ==> (#[trigger] tracked_fields(fs)[k1]).index
            < (#[trigger] tracked_fields(fs)[k2]).index,
    decreases fs.len(),
{
    if fs.len() > 0 {
        let gs = fs.drop_last();
        assert forall|k: int| 0 <= k < gs.len() implies (#[trigger] gs[k]).index == k by {
            assert(gs[k] == fs[k]);
        }
        lemma_tracked_fields_positions(gs);
        assert(fs.last().index == fs.len() - 1);
    }
}

/// A skipped field has no flag in the builder's type, and nothing is written
/// for it in any list of const arguments or parameters.
pub proof fn lemma_skipped_field_untracked(fs: Seq<Field>, args: ConstArgsV)
    ensures
        forall|k: int| 0 <= k < fs.len() && (#[trigger] fs[k]).kind == FieldKind::Skipped
            ==> const_text(fs[k], args) is None,
        forall|k: int| 0 <= k < tracked_fields(fs).len()
            ==> (#[trigger] tracked_fields(fs)[k]).kind != FieldKind::Skipped,
{
    assert forall|k: int| 0 <= k < tracked_fields(fs).len()
        implies (#[trigger] tracked_fields(fs)[k]).kind != FieldKind::Skipped by {
        lemma_tracked_are_tracked(fs, k);
    }
}

/// The builder's type starts with every flag unset.
pub proof fn lemma_new_builder_unset(fs: Seq<Field>)
    ensures
        const_texts(fs, ConstArgsV::Valued(false)).len() == tracked_fields(fs).len(),
        forall|k: int| 0 <= k < tracked_fields(fs).len() ==> #[trigger] const_texts(
            fs,
            ConstArgsV::Valued(false),
        )[k] == "false"@,
{
    lemma_const_texts_tracked(fs, ConstArgsV::Valued(false));
    assert forall|k: int| 0 <= k < tracked_fields(fs).len() implies #[trigger] const_texts(
        fs,
        ConstArgsV::Valued(false),
    )[k] == "false"@ by {
        assert(const_text(tracked_fields(fs)[k], ConstArgsV::Valued(false)) is Some);
    }
}

/// A setter takes the builder with its own field's flag unset and gives it
/// back with that flag set; every other flag passes through unchanged, and no
/// other flag belongs to the same field.
pub proof fn lemma_setter_flips_own_flag(fs: Seq<Field>, i: usize)
    requires
        forall|k: int| 0 <= k < fs.len() ==> (#[trigger] fs[k]).index == k,
    ensures
        const_texts(fs, ConstArgsV::Setter(i, false)).len() == tracked_fields(fs).len(),
        const_texts(fs, ConstArgsV::Setter(i, true)).len() == tracked_fields(fs).len(),
        const_texts(fs, ConstArgsV::Declared).len() == tracked_fields(fs).len(),
        forall|k: int| 0 <= k < tracked_fields(fs).len() ==> {
            let f = #[trigger] tracked_fields(fs)[k];
            &&& const_texts(fs, ConstArgsV::Declared)[k] == spec_const_ident(f.index)
            &&& if f.index == i {
                &&& const_texts(fs, ConstArgsV::Setter(i, false))[k] == "false"@
                &&& const_texts(fs, ConstArgsV::Setter(i, true))[k] == "true"@
            } else {
                &&& const_texts(fs, ConstArgsV::Setter(i, false))[k] == spec_const_ident(f.index)
                &&& const_texts(fs, ConstArgsV::Setter(i, true))[k] == spec_const_ident(f.index)
            }
        },
        forall|k1: int, k2: int|
            0 <= k1 < tracked_fields(fs).len() && 0 <= k2 < tracked_fields(fs).len()
                && (#[trigger] tracked_fields(fs)[k1]).index == (#[trigger] tracked_fields(fs)[k2]).index
                ==> k1 == k2,
{
    lemma_const_texts_tracked(fs, ConstArgsV::Setter(i, false));
    lemma_const_texts_tracked(fs, ConstArgsV::Setter(i, true));
    lemma_const_texts_tracked(fs, ConstArgsV::Declared);
    lemma_tracked_fields_positions(fs);
    assert forall|k1: int, k2: int|
        0 <= k1 < tracked_fields(fs).len() && 0 <= k2 < tracked_fields(fs).len()
            && (#[trigger] tracked_fields(fs)[k1]).index == (#[trigger] tracked_fields(fs)[k2]).index
            implies k1 == k2 by {
        if k1 < k2 {
        } else if k2 < k1 {
        }
    }
}

/// A `build` method is written for builder types whose mandatory flags are
/// all set and whose grouped flags are set exactly for the chosen fields.
pub proof fn lemma_build_flags(fs: Seq<Field>, chosen: Seq<usize>)
    ensures
        const_texts(fs, ConstArgsV::Build(chosen)).len() == tracked_fields(fs).len(),
        forall|k: int| 0 <= k < tracked_fields(fs).len() ==> {
            let f = #[trigger] tracked_fields(fs)[k];
            const_texts(fs, ConstArgsV::Build(chosen))[k] == if f.kind == FieldKind::Mandatory {
                "true"@
            } else {
                bool_text(chosen.contains(f.index))
            }
        },
{
    lemma_const_texts_tracked(fs, ConstArgsV::Build(chosen));
    assert forall|k: int| 0 <= k < tracked_fields(fs).len() implies {
        let f = #[trigger] tracked_fields(fs)[k];
        const_texts(fs, ConstArgsV::Build(chosen))[k] == if f.kind == FieldKind::Mandatory {
            "true"@
        } else {
            bool_text(chosen.contains(f.index))
        }
    } by {
        lemma_tracked_are_tracked(fs, k);
    }
}

/// Every field in `tracked_fields` is tracked.
proof fn lemma_tracked_are_tracked(fs: Seq<Field>, k: int)
    requires
        0 <= k < tracked_fields(fs).len(),
    ensures
        is_tracked(tracked_fields(fs)[k]),
    decreases fs.len(),
{
    if fs.len() > 0 && k < tracked_fields(fs.drop_last()).len() {
        lemma_tracked_are_tracked(fs.drop_last(), k);
    }
}

fn bool_str(b: bool) -> (r: &'static str)
    ensures
        r@ == bool_text(b),
{
    if b {
        "true"
    } else {
        "false"
    }
}

fn contains_index(v: &Vec<usize>, x: usize) -> (r: bool)
    ensures
        r == v@.contains(x),
{
    let mut i: usize = 0;
    while i < v.len()
        invariant
            i <= v@.len(),
            forall|k: int| 0 <= k < i ==> v@[k] != x,
        decreases v@.len() - i,
    {
        if v[i] == x {
            assert(v@[i as int] == x);
            return true;
        }
        i = i + 1;
    }
    false
}

fn field_const_text(f: &Field, args: &ConstArgs) -> (r: Option<String>)
    ensures
        match r {
            Some(s) => const_text(*f, args@) == Some(s@),
            None => const_text(*f, args@) is None,
        },
{
    let tracked_field = match f.kind {
        FieldKind::Mandatory | FieldKind::Grouped => true,
        _ => false,
    };
    let grouped = match f.kind {
        FieldKind::Grouped => true,
        _ => false,
    };
    let mandatory = match f.kind {
        FieldKind::Mandatory => true,
        _ => false,
    };
    match args {
        ConstArgs::Valued(b) => if tracked_field { Some(String::from_str(bool_str(*b))) } else { None },
        ConstArgs::Declared => if tracked_field { Some(f.const_ident()) } else { None },
        ConstArgs::DeclaredExcept(i) => if tracked_field && f.index != *i {
            Some(f.const_ident())
        } else {
            None
        },
        ConstArgs::Setter(i, b) => if tracked_field {
            if f.index == *i { Some(String::from_str(bool_str(*b))) } else { Some(f.const_ident()) }
        } else {
            None
        },
        ConstArgs::Build(chosen) => if mandatory {
            Some(String::from_str("true"))
        } else if grouped {
            Some(String::from_str(bool_str(contains_index(chosen, f.index))))
        } else {
            None
        },
        ConstArgs::GroupedDeclared => if grouped { Some(f.const_ident()) } else { None },
        ConstArgs::UnsetGroups => if mandatory {
            Some(String::from_str("true"))
        } else if grouped {
            Some(f.const_ident())
        } else {
            None
        },
    }
}

/// What is written for the fields, in order.
pub fn const_texts_vec(fields: &Vec<Field>, args: &ConstArgs) -> (r: Vec<String>)
    ensures
        strs(r@) == const_texts(fields@, args@),
{
    let mut r: Vec<String> = Vec::new();
    let mut i: usize = 0;
    assert(fields@.take(0) =~= Seq::<Field>::empty());
    assert(strs(r@) =~= const_texts(fields@.take(0), args@));
    while i < fields.len()
        invariant
            i <= fields@.len(),
            strs(r@) == const_texts(fields@.take(i as int), args@),
        decreases fields@.len() - i,
    {
        assert(fields@.take(i + 1).drop_last() =~= fields@.take(i as int));
        assert(fields@.take(i + 1).last() == fields@[i as int]);
        match field_const_text(&fields[i], args) {
            Some(t) => {
                let ghost before = r@;
                r.push(t);
                assert(strs(r@) =~= strs(before).push(t@));
            },
            None => {},
        }
        i = i + 1;
    }
    assert(fields@.take(i as int) =~= fields@);
    r
}

/// The type's parameters followed by `value` for every tracked field.
pub open spec fn spec_const_generics_all_valued(value: bool, fs: Seq<Field>, ps: Seq<GenericParam>) -> Seq<char> {
    valued_generics_text(ps, const_texts(fs, ConstArgsV::Valued(value)))
}

/// Appends the type's parameters followed by `value` for every tracked field.
pub fn const_generics_all_valued(out: &mut String, value: bool, fields: &Vec<Field>, params: &Vec<GenericParam>)
    ensures
        final(out)@ == old(out)@ + spec_const_generics_all_valued(value, fields@, params@),
{
    let values = const_texts_vec(fields, &ConstArgs::Valued(value));
    append_valued_generics(out, params, &values);
}

/// Appends the type's parameters followed by what `args` writes for the fields.
pub fn add_const_valued_generics_for_type(out: &mut String, fields: &Vec<Field>, args: &ConstArgs, params: &Vec<GenericParam>)
    ensures
        final(out)@ == old(out)@ + valued_generics_text(params@, const_texts(fields@, args@)),
{
    let values = const_texts_vec(fields, args);
    append_valued_generics(out, params, &values);
}

} // verus!
