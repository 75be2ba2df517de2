//! How the container's generics are written in the generated code: the
//! renderings of a `syn::Generics` that the generated items use.
use vstd::prelude::*;
use vstd::string::*;
use crate::model::{GenericParam, GenericParamKind};

verus! {

/// The texts of a list of strings.
pub open spec fn strs(v: Seq<String>) -> Seq<Seq<char>> {
    v.map_values(|s: String| s@)
}

/// The items, separated by `, `.
pub open spec fn join(items: Seq<Seq<char>>) -> Seq<char>
    decreases items.len(),
{
    if items.len() == 0 {
        Seq::empty()
    } else if items.len() == 1 {
        items[0]
    } else {
        join(items.drop_last()) + ", "@ + items.last()
    }
}

/// The items in angle brackets, or nothing when there are none.
pub open spec fn angled_or_empty(items: Seq<Seq<char>>) -> Seq<char> {
    if items.len() == 0 {
        Seq::empty()
    } else {
        "<"@ + join(items) + ">"@
    }
}

/// Which text of a generic parameter is written.
#[derive(Debug, Clone, Copy, PartialEq, Eq, Structural)]
pub enum ParamPart {
    /// The parameter as used in a type: `'a`, `T`, `N`.
    Name,
    /// The declaration without default.
    Decl,
    /// The declaration with its default, if it has one.
    Full,
}

/// The chosen text of a parameter.
pub open spec fn part_text(p: GenericParam, part: ParamPart) -> Seq<char> {
    match part {
        ParamPart::Name => p.name@,
        ParamPart::Decl => p.decl@,
        ParamPart::Full => match p.default {
            Some(d) => p.decl@ + " = "@ + d@,
            None => p.decl@,
        },
    }
}

/// The chosen texts of the lifetimes (when `lifetimes`) or of the other
/// parameters, in their order.
pub open spec fn parts_of(ps: Seq<GenericParam>, lifetimes: bool, part: ParamPart) -> Seq<Seq<char>>
    decreases ps.len(),
{
    if ps.len() == 0 {
        Seq::empty()
    } else {
        let rest = parts_of(ps.drop_last(), lifetimes, part);
        if (ps.last().kind == GenericParamKind::Lifetime) == lifetimes {
            rest.push(part_text(ps.last(), part))
        } else {
            rest
        }
    }
}

/// Selecting the lifetimes, or the other parameters, keeps the declared order:
/// selecting from two lists joined is joining what is selected from each, and
/// a single parameter gives its text exactly when it is of the selected kind.
pub proof fn lemma_parts_keep_order(
    a: Seq<GenericParam>,
    b: Seq<GenericParam>,
    p: GenericParam,
    lifetimes: bool,
    part: ParamPart,
)
    ensures
        parts_of(a + b, lifetimes, part) == parts_of(a, lifetimes, part) + parts_of(b, lifetimes, part),
        parts_of(seq![p], lifetimes, part) == if (p.kind == GenericParamKind::Lifetime) == lifetimes {
            seq![part_text(p, part)]
        } else {
            Seq::<Seq<char>>::empty()
        },
    decreases b.len(),
{
    assert(seq![p].drop_last() =~= Seq::<GenericParam>::empty());
    assert(seq![p].last() == p);
    assert(parts_of(Seq::<GenericParam>::empty(), lifetimes, part) == Seq::<Seq<char>>::empty());
    assert(Seq::<Seq<char>>::empty().push(part_text(p, part)) =~= seq![part_text(p, part)]);
    if b.len() == 0 {
        assert(a + b =~= a);
        assert(parts_of(a, lifetimes, part) + parts_of(b, lifetimes, part) =~= parts_of(a, lifetimes, part));
    } else {
        lemma_parts_keep_order(a, b.drop_last(), p, lifetimes, part);
        assert((a + b).drop_last() =~= a + b.drop_last());
        assert((a + b).last() == b.last());
        let x = parts_of(a, lifetimes, part);
        let y = parts_of(b.drop_last(), lifetimes, part);
        if (b.last().kind == GenericParamKind::Lifetime) == lifetimes {
            assert((x + y).push(part_text(b.last(), part)) =~= x + y.push(part_text(b.last(), part)));
        }
    }
}

/// The chosen texts, lifetimes first.
pub open spec fn lifetimes_first(ps: Seq<GenericParam>, part: ParamPart) -> Seq<Seq<char>> {
    parts_of(ps, true, part) + parts_of(ps, false, part)
}

/// The declaration of a `bool` const parameter.
pub open spec fn const_bool_decl(ident: Seq<char>) -> Seq<char> {
    "const "@ + ident + ": bool"@
}

/// The declarations of `bool` const parameters.
pub open spec fn const_bool_decls(idents: Seq<Seq<char>>) -> Seq<Seq<char>> {
    idents.map_values(|x: Seq<char>| const_bool_decl(x))
}

/// The names of the parameters, in declared order.
pub open spec fn names_in_order(ps: Seq<GenericParam>) -> Seq<Seq<char>> {
    ps.map_values(|p: GenericParam| p.name@)
}

/// The generics of an `impl` (as `split_for_impl` writes them): the
/// parameters without defaults, lifetimes first, followed by a `bool` const
/// parameter for each of `consts`.
pub open spec fn impl_generics_text(ps: Seq<GenericParam>, consts: Seq<Seq<char>>) -> Seq<char> {
    angled_or_empty(lifetimes_first(ps, ParamPart::Decl) + const_bool_decls(consts))
}

/// The generics as a `syn::Generics` writes itself: as `impl_generics_text`,
/// but with the defaults of the parameters.
pub open spec fn generics_text(ps: Seq<GenericParam>, consts: Seq<Seq<char>>) -> Seq<char> {
    angled_or_empty(lifetimes_first(ps, ParamPart::Full) + const_bool_decls(consts))
}

/// The generics of the type (as `split_for_impl` writes them): the names,
/// lifetimes first.
pub open spec fn type_generics_text(ps: Seq<GenericParam>) -> Seq<char> {
    angled_or_empty(lifetimes_first(ps, ParamPart::Name))
}

/// The type's parameters followed by values for the builder's const
/// parameters, always in angle brackets.
pub open spec fn valued_generics_text(ps: Seq<GenericParam>, values: Seq<Seq<char>>) -> Seq<char> {
    "<"@ + join(names_in_order(ps) + values) + ">"@
}

/// Appends the chosen texts of the lifetimes or of the other parameters.
pub fn push_parts(v: &mut Vec<String>, ps: &Vec<GenericParam>, lifetimes: bool, part: ParamPart)
    ensures
        strs(final(v)@) == strs(old(v)@) + parts_of(ps@, lifetimes, part),
{
    let ghost start = strs(v@);
    let mut i: usize = 0;
    assert(ps@.take(0) =~= Seq::<GenericParam>::empty());
    assert(strs(v@) =~= start + parts_of(ps@.take(0), lifetimes, part));
    while i < ps.len()
        invariant
            i <= ps@.len(),
            strs(v@) == start + parts_of(ps@.take(i as int), lifetimes, part),
        decreases ps@.len() - i,
    {
        let p = &ps[i];
        assert(ps@.take(i + 1).drop_last() =~= ps@.take(i as int));
        assert(ps@.take(i + 1).last() == ps@[i as int]);
        let is_lifetime = match p.kind {
            GenericParamKind::Lifetime => true,
            _ => false,
        };
        if is_lifetime == lifetimes {
            let text = match part {
                ParamPart::Name => p.name.clone(),
                ParamPart::Decl => p.decl.clone(),
                ParamPart::Full => match &p.default {
                    Some(d) => p.decl.clone().concat(" = ").concat(d.as_str()),
                    None => p.decl.clone(),
                },
            };
            assert(text@ == part_text(ps@[i as int], part));
            let ghost before = v@;
            v.push(text);
            assert(strs(v@) =~= strs(before).push(text@));
        }
        i = i + 1;
    }
    assert(ps@.take(i as int) =~= ps@);
}

/// Appends the declaration of a `bool` const parameter for each identifier.
pub fn push_const_bool_decls(v: &mut Vec<String>, idents: &Vec<String>)
    ensures
        strs(final(v)@) == strs(old(v)@) + const_bool_decls(strs(idents@)),
{
    let ghost start = strs(v@);
    let mut i: usize = 0;
    while i < idents.len()
        invariant
            i <= idents@.len(),
            strs(v@) == start + const_bool_decls(strs(idents@.take(i as int))),
        decreases idents@.len() - i,
    {
        let text = String::from_str("const ").concat(idents[i].as_str()).concat(": bool");
        let ghost before = v@;
        v.push(text);
        assert(strs(v@) =~= strs(before).push(text@));
        assert(const_bool_decls(strs(idents@.take(i + 1))) =~= const_bool_decls(
            strs(idents@.take(i as int)),
        ).push(const_bool_decl(idents@[i as int]@)));
        i = i + 1;
    }
    assert(idents@.take(i as int) =~= idents@);
}

/// Appends the names of the parameters, in declared order.
pub fn push_names_in_order(v: &mut Vec<String>, ps: &Vec<GenericParam>)
    ensures
        strs(final(v)@) == strs(old(v)@) + names_in_order(ps@),
{
    let ghost start = strs(v@);
    let mut i: usize = 0;
    while i < ps.len()
        invariant
            i <= ps@.len(),
            strs(v@) == start + names_in_order(ps@.take(i as int)),
        decreases ps@.len() - i,
    {
        let ghost before = v@;
        v.push(ps[i].name.clone());
        assert(strs(v@) =~= strs(before).push(ps@[i as int].name@));
        assert(names_in_order(ps@.take(i + 1)) =~= names_in_order(ps@.take(i as int)).push(
            ps@[i as int].name@,
        ));
        i = i + 1;
    }
    assert(ps@.take(i as int) =~= ps@);
}

/// Appends the items, separated by `, `.
pub fn append_joined(out: &mut String, items: &Vec<String>)
    ensures
        final(out)@ == old(out)@ + join(strs(items@)),
{
    let ghost start = out@;
    let mut i: usize = 0;
    assert(strs(items@.take(0)) =~= Seq::<Seq<char>>::empty());
    assert(out@ =~= start + join(strs(items@.take(0))));
    while i < items.len()
        invariant
            i <= items@.len(),
            out@ == start + join(strs(items@.take(i as int))),
        decreases items@.len() - i,
    {
        let ghost prev = strs(items@.take(i as int));
        let ghost next = strs(items@.take(i + 1));
        assert(next.drop_last() =~= prev);
        assert(next.last() == items@[i as int]@);
        if i == 0 {
            out.append(items[i].as_str());
            assert(next =~= seq![items@[0]@]);
            assert(out@ =~= start + join(next));
        } else {
            out.append(", ");
            out.append(items[i].as_str());
            assert(out@ =~= start + join(next));
        }
        i = i + 1;
    }
    assert(items@.take(i as int) =~= items@);
}

/// Appends the items in angle brackets, or nothing when there are none.
pub fn append_angled_or_empty(out: &mut String, items: &Vec<String>)
    ensures
        final(out)@ == old(out)@ + angled_or_empty(strs(items@)),
{
    if items.len() == 0 {
        assert(out@ =~= old(out)@ + angled_or_empty(strs(items@)));
    } else {
        out.append("<");
        append_joined(out, items);
        out.append(">");
        assert(out@ =~= old(out)@ + angled_or_empty(strs(items@)));
    }
}

/// Appends the generics of an `impl` with a `bool` const parameter for each
/// of `consts`.
pub fn append_impl_generics(out: &mut String, ps: &Vec<GenericParam>, consts: &Vec<String>)
    ensures
        final(out)@ == old(out)@ + impl_generics_text(ps@, strs(consts@)),
{
    let mut items: Vec<String> = Vec::new();
    assert(strs(items@) =~= Seq::<Seq<char>>::empty());
    push_parts(&mut items, ps, true, ParamPart::Decl);
    push_parts(&mut items, ps, false, ParamPart::Decl);
    push_const_bool_decls(&mut items, consts);
    assert(strs(items@) =~= lifetimes_first(ps@, ParamPart::Decl) + const_bool_decls(strs(consts@)));
    append_angled_or_empty(out, &items);
}

/// Appends the generics as a `syn::Generics` writes itself, with a `bool`
/// const parameter for each of `consts`.
pub fn append_generics(out: &mut String, ps: &Vec<GenericParam>, consts: &Vec<String>)
    ensures
        final(out)@ == old(out)@ + generics_text(ps@, strs(consts@)),
{
    let mut items: Vec<String> = Vec::new();
    assert(strs(items@) =~= Seq::<Seq<char>>::empty());
    push_parts(&mut items, ps, true, ParamPart::Full);
    push_parts(&mut items, ps, false, ParamPart::Full);
    push_const_bool_decls(&mut items, consts);
    assert(strs(items@) =~= lifetimes_first(ps@, ParamPart::Full) + const_bool_decls(strs(consts@)));
    append_angled_or_empty(out, &items);
}

/// Appends the generics of the type.
pub fn append_type_generics(out: &mut String, ps: &Vec<GenericParam>)
    ensures
        final(out)@ == old(out)@ + type_generics_text(ps@),
{
    let mut items: Vec<String> = Vec::new();
    assert(strs(items@) =~= Seq::<Seq<char>>::empty());
    push_parts(&mut items, ps, true, ParamPart::Name);
    push_parts(&mut items, ps, false, ParamPart::Name);
    assert(strs(items@) =~= lifetimes_first(ps@, ParamPart::Name));
    append_angled_or_empty(out, &items);
}

/// Appends the type's parameters followed by the given values, in angle
/// brackets.
pub fn append_valued_generics(out: &mut String, ps: &Vec<GenericParam>, values: &Vec<String>)
    ensures
        final(out)@ == old(out)@ + valued_generics_text(ps@, strs(values@)),
{
    let mut items: Vec<String> = Vec::new();
    assert(strs(items@) =~= Seq::<Seq<char>>::empty());
    push_names_in_order(&mut items, ps);
    let mut i: usize = 0;
    let ghost start = strs(items@);
    while i < values.len()
        invariant
            i <= values@.len(),
            strs(items@) == start + strs(values@.take(i as int)),
        decreases values@.len() - i,
    {
        let ghost before = items@;
        items.push(values[i].clone());
        assert(strs(items@) =~= strs(before).push(values@[i as int]@));
        assert(strs(values@.take(i + 1)) =~= strs(values@.take(i as int)).push(values@[i as int]@));
        i = i + 1;
    }
    assert(values@.take(i as int) =~= values@);
    out.append("<");
    append_joined(out, &items);
    out.append(">");
    assert(out@ =~= old(out)@ + valued_generics_text(ps@, strs(values@)));
}

} // verus!
