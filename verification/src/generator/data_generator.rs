//! The data struct that holds the builder's values, and its conversions.
use vstd::prelude::*;
use vstd::string::*;
use crate::info::container::{Container, spec_data_ident};
use crate::info::field::{Field, FieldKind, spec_is_option};
use crate::generator::generics::{
    impl_generics_text, type_generics_text, append_impl_generics, append_type_generics, strs,
};

verus! {

/// The type of a field in the data struct; `None` for skipped fields.
pub open spec fn data_field_type(f: Field) -> Option<Seq<char>> {
    match f.kind {
        FieldKind::Skipped => None,
        FieldKind::Optional => Some(f.ty.text@),
        FieldKind::Mandatory => if spec_is_option(&f.ty) {
            Some(f.ty.text@)
        } else {
            Some("Option<"@ + f.ty.text@ + ">"@)
        },
        FieldKind::Grouped => Some(f.ty.text@),
    }
}

/// The field declarations of the data struct.
pub open spec fn struct_fields_text(fs: Seq<Field>) -> Seq<char>
    decreases fs.len(),
{
    if fs.len() == 0 {
        Seq::empty()
    } else {
        struct_fields_text(fs.drop_last()) + match data_field_type(fs.last()) {
            Some(t) => "    pub "@ + fs.last().ident@ + ": "@ + t + ",\n"@,
            None => Seq::empty(),
        }
    }
}

/// How the target's field is taken from the data struct.
pub open spec fn from_field_text(f: Field) -> Seq<char> {
    let id = f.ident@;
    "            "@ + id + match f.kind {
        FieldKind::Skipped => ": None,\n"@,
        FieldKind::Mandatory => if spec_is_option(&f.ty) {
            ": data."@ + id + ",\n"@
        } else {
            ": data."@ + id + ".unwrap(),\n"@
        },
        FieldKind::Optional | FieldKind::Grouped => ": data."@ + id + ",\n"@,
    }
}

/// The `From` conversion moves into the target every field the builder holds:
/// a field that is not skipped takes the data struct's field of the same name,
/// unwrapped exactly where the data struct wrapped the field's type in an
/// `Option`; only a skipped field, which the data struct does not hold, is
/// `None`.
pub proof fn lemma_from_moves_held_fields(f: Field)
    ensures
        (data_field_type(f) is None) <==> f.kind == FieldKind::Skipped,
        f.kind == FieldKind::Skipped ==> from_field_text(f) == "            "@ + f.ident@
            + ": None,\n"@,
        f.kind != FieldKind::Skipped ==> ({
            let head = "            "@ + f.ident@ + ": data."@ + f.ident@;
            &&& from_field_text(f) == head + ",\n"@ || from_field_text(f) == head + ".unwrap(),\n"@
            &&& from_field_text(f) == head + ".unwrap(),\n"@ <==> data_field_type(f) == Some(
                "Option<"@ + f.ty.text@ + ">"@,
            ) && !spec_is_option(&f.ty)
        }),
{
    reveal_strlit(",\n");
    reveal_strlit(".unwrap(),\n");
    let head = "            "@ + f.ident@ + ": data."@ + f.ident@;
    if f.kind != FieldKind::Skipped {
        assert(",\n"@.len() == 2);
        assert(".unwrap(),\n"@.len() == 11);
        reveal_strlit("Option<");
        reveal_strlit(">");
        assert(("Option<"@ + f.ty.text@ + ">"@).len() == f.ty.text@.len() + 8);
        assert(head + ",\n"@ != head + ".unwrap(),\n"@) by {
            if head + ",\n"@ == head + ".unwrap(),\n"@ {
                assert((head + ",\n"@).len() == (head + ".unwrap(),\n"@).len());
            }
        }
        match f.kind {
            FieldKind::Mandatory => {
                if spec_is_option(&f.ty) {
                    assert(from_field_text(f) =~= head + ",\n"@);
                } else {
                    assert(from_field_text(f) =~= head + ".unwrap(),\n"@);
                }
            },
            _ => {
                assert(from_field_text(f) =~= head + ",\n"@);
            },
        }
    }
}

/// The field initialisers of the `From` impl.
pub open spec fn from_fields_text(fs: Seq<Field>) -> Seq<char>
    decreases fs.len(),
{
    if fs.len() == 0 {
        Seq::empty()
    } else {
        from_fields_text(fs.drop_last()) + from_field_text(fs.last())
    }
}

/// The field initialisers of the data struct's `Default` impl.
pub open spec fn default_fields_text(fs: Seq<Field>) -> Seq<char>
    decreases fs.len(),
{
    if fs.len() == 0 {
        Seq::empty()
    } else {
        default_fields_text(fs.drop_last()) + if fs.last().kind == FieldKind::Skipped {
            Seq::empty()
        } else {
            "            "@ + fs.last().ident@ + ": None,\n"@
        }
    }
}

/// The data struct.
pub open spec fn data_struct_text(c: &Container) -> Seq<char> {
    "#[doc(hidden)]\npub struct "@ + spec_data_ident(c.ident@)
        + impl_generics_text(c.generics.params@, Seq::empty()) + " "@ + c.generics.where_clause@
        + " {\n"@ + struct_fields_text(c.fields@) + "}\n"@
}

/// The conversion from the data struct to the target, and the data struct's
/// `Default`, which leaves every field `None`.
pub open spec fn data_impl_text(c: &Container) -> Seq<char> {
    let ps = c.generics.params@;
    let ig = impl_generics_text(ps, Seq::empty());
    let tg = type_generics_text(ps);
    let data = spec_data_ident(c.ident@);
    let target = c.ident@;
    let wc = c.generics.where_clause@;
    "impl"@ + ig + " From<"@ + data + tg + "> for "@ + target + tg + " "@ + wc + " {\n"@
        + "    #[doc(hidden)]\n"@
        + "    fn from(data: "@ + data + tg + ") -> "@ + target + tg + " {\n"@
        + "        "@ + target + " {\n"@ + from_fields_text(c.fields@) + "        }\n"@
        + "    }\n"@ + "}\n"@
        + "impl"@ + ig + " Default for "@ + data + tg + " "@ + wc + " {\n"@
        + "    #[doc(hidden)]\n"@
        + "    fn default() -> Self {\n"@
        + "        "@ + data + " {\n"@ + default_fields_text(c.fields@) + "        }\n"@
        + "    }\n"@ + "}\n"@
}

/// Everything the data generator writes.
pub open spec fn data_text(c: &Container) -> Seq<char> {
    data_struct_text(c) + data_impl_text(c)
}

fn append_struct_fields(out: &mut String, fields: &Vec<Field>)
    ensures
        final(out)@ == old(out)@ + struct_fields_text(fields@),
{
    let ghost start = out@;
    let mut i: usize = 0;
    assert(fields@.take(0) =~= Seq::<Field>::empty());
    assert(out@ =~= start + struct_fields_text(fields@.take(0)));
    while i < fields.len()
        invariant
            i <= fields@.len(),
            out@ == start + struct_fields_text(fields@.take(i as int)),
        decreases fields@.len() - i,
    {
        let f = &fields[i];
        assert(fields@.take(i + 1).drop_last() =~= fields@.take(i as int));
        assert(fields@.take(i + 1).last() == fields@[i as int]);
        let ghost before = out@;
        match f.kind {
            FieldKind::Skipped => {
                assert(out@ =~= before + Seq::<char>::empty());
            },
            FieldKind::Mandatory => {
                out.append("    pub ");
                out.append(f.ident.as_str());
                out.append(": ");
                if f.is_option_type() {
                    out.append(f.ty.text.as_str());
                } else {
                    out.append("Option<");
                    out.append(f.ty.text.as_str());
                    out.append(">");
                }
                out.append(",\n");
            },
            _ => {
                out.append("    pub ");
                out.append(f.ident.as_str());
                out.append(": ");
                out.append(f.ty.text.as_str());
                out.append(",\n");
            },
        }
        assert(out@ =~= start + struct_fields_text(fields@.take(i + 1)));
        i = i + 1;
    }
    assert(fields@.take(i as int) =~= fields@);
}

fn append_from_fields(out: &mut String, fields: &Vec<Field>)
    ensures
        final(out)@ == old(out)@ + from_fields_text(fields@),
{
    let ghost start = out@;
    let mut i: usize = 0;
    assert(fields@.take(0) =~= Seq::<Field>::empty());
    assert(out@ =~= start + from_fields_text(fields@.take(0)));
    while i < fields.len()
        invariant
            i <= fields@.len(),
            out@ == start + from_fields_text(fields@.take(i as int)),
        decreases fields@.len() - i,
    {
        let f = &fields[i];
        assert(fields@.take(i + 1).drop_last() =~= fields@.take(i as int));
        assert(fields@.take(i + 1).last() == fields@[i as int]);
        out.append("            ");
        out.append(f.ident.as_str());
        match f.kind {
            FieldKind::Skipped => {
                out.append(": None,\n");
            },
            FieldKind::Mandatory => {
                out.append(": data.");
                out.append(f.ident.as_str());
                if f.is_option_type() {
                    out.append(",\n");
                } else {
                    out.append(".unwrap(),\n");
                }
            },
            _ => {
                out.append(": data.");
                out.append(f.ident.as_str());
                out.append(",\n");
            },
        }
        assert(out@ =~= start + from_fields_text(fields@.take(i + 1)));
        i = i + 1;
    }
    assert(fields@.take(i as int) =~= fields@);
}

fn append_default_fields(out: &mut String, fields: &Vec<Field>)
    ensures
        final(out)@ == old(out)@ + default_fields_text(fields@),
{
    let ghost start = out@;
    let mut i: usize = 0;
    assert(fields@.take(0) =~= Seq::<Field>::empty());
    assert(out@ =~= start + default_fields_text(fields@.take(0)));
    while i < fields.len()
        invariant
            i <= fields@.len(),
            out@ == start + default_fields_text(fields@.take(i as int)),
        decreases fields@.len() - i,
    {
        let f = &fields[i];
        assert(fields@.take(i + 1).drop_last() =~= fields@.take(i as int));
        assert(fields@.take(i + 1).last() == fields@[i as int]);
        match f.kind {
            FieldKind::Skipped => {},
            _ => {
                out.append("            ");
                out.append(f.ident.as_str());
                out.append(": None,\n");
            },
        }
        assert(out@ =~= start + default_fields_text(fields@.take(i + 1)));
        i = i + 1;
    }
    assert(fields@.take(i as int) =~= fields@);
}

/// Writes the data struct and its conversions.
pub struct DataGenerator<'a> {
    info: &'a Container,
}

impl<'a> DataGenerator<'a> {
    /// The container this generator writes for.
    pub closed spec fn container(&self) -> &'a Container {
        self.info
    }

    /// A generator for the given container.
    pub fn new(info: &'a Container) -> (r: Self)
        ensures
            r.container() == info,
    {
        DataGenerator { info }
    }

    /// The data struct, its `From` conversion to the target and its `Default`.
    pub fn generate(&self) -> (r: String)
        ensures
            r@ == data_text(self.container()),
    {
        let mut out = self.generate_struct();
        let tail = self.generate_impl();
        out.append(tail.as_str());
        out
    }

    fn generate_impl(&self) -> (r: String)
        ensures
            r@ == data_impl_text(self.container()),
    {
        let info = self.info;
        let ps = &info.generics.params;
        let data = info.data_ident();
        let target = info.ident();
        let wc = info.generics.where_clause.as_str();
        let no_consts: Vec<String> = Vec::new();
        assert(strs(no_consts@) =~= Seq::<Seq<char>>::empty());
        let mut ig = String::new();
        append_impl_generics(&mut ig, ps, &no_consts);
        let mut tg = String::new();
        append_type_generics(&mut tg, ps);
        assert(ig@ =~= impl_generics_text(ps@, Seq::empty()));
        assert(tg@ =~= type_generics_text(ps@));
        let mut out = String::new();
        out.append("impl");
        out.append(ig.as_str());
        out.append(" From<");
        out.append(data.as_str());
        out.append(tg.as_str());
        out.append("> for ");
        out.append(target.as_str());
        out.append(tg.as_str());
        out.append(" ");
        out.append(wc);
        out.append(" {\n");
        out.append("    #[doc(hidden)]\n");
        out.append("    fn from(data: ");
        out.append(data.as_str());
        out.append(tg.as_str());
        out.append(") -> ");
        out.append(target.as_str());
        out.append(tg.as_str());
        out.append(" {\n");
        out.append("        ");
        out.append(target.as_str());
        out.append(" {\n");
        append_from_fields(&mut out, info.field_collection());
        out.append("        }\n");
        out.append("    }\n");
        out.append("}\n");
        let ghost first = out@;
        out.append("impl");
        out.append(ig.as_str());
        out.append(" Default for ");
        out.append(data.as_str());
        out.append(tg.as_str());
        out.append(" ");
        out.append(wc);
        out.append(" {\n");
        out.append("    #[doc(hidden)]\n");
        out.append("    fn default() -> Self {\n");
        out.append("        ");
        out.append(data.as_str());
        out.append(" {\n");
        append_default_fields(&mut out, info.field_collection());
        out.append("        }\n");
        out.append("    }\n");
        out.append("}\n");
        assert(out@ =~= data_impl_text(self.container()));
        out
    }

    fn generate_struct(&self) -> (r: String)
        ensures
            r@ == data_struct_text(self.container()),
    {
        let info = self.info;
        let no_consts: Vec<String> = Vec::new();
        assert(strs(no_consts@) =~= Seq::<Seq<char>>::empty());
        let mut out = String::new();
        out.append("#[doc(hidden)]\npub struct ");
        out.append(info.data_ident().as_str());
        append_impl_generics(&mut out, &info.generics.params, &no_consts);
        out.append(" ");
        out.append(info.generics.where_clause.as_str());
        out.append(" {\n");
        append_struct_fields(&mut out, info.field_collection());
        out.append("}\n");
        assert(out@ =~= data_struct_text(self.container()));
        out
    }
}

} // verus!
