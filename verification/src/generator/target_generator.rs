//! The `Builder` impl of the target struct.
use vstd::prelude::*;
use vstd::string::*;
use crate::info::container::{Container, snake_case, spec_builder_ident};
use crate::generator::generics::{
    impl_generics_text, type_generics_text, append_impl_generics, append_type_generics, strs,
};
use crate::generator::util::{spec_const_generics_all_valued, const_generics_all_valued};

verus! {

/// Whether the builder and the data struct are put in a module of their own.
pub open spec fn spec_generate_module() -> bool {
    false
}

/// The path of the builder as seen from the target's impl.
pub open spec fn builder_path(c: &Container) -> Seq<char> {
    if spec_generate_module() {
        snake_case(spec_builder_ident(c.ident@)) + "::"@ + spec_builder_ident(c.ident@)
    } else {
        spec_builder_ident(c.ident@)
    }
}

/// The target's `Builder` impl: its builder type starts with no field set.
pub open spec fn target_text(c: &Container) -> Seq<char> {
    let ps = c.generics.params@;
    "impl"@ + impl_generics_text(ps, Seq::empty()) + " Builder for "@ + c.ident@
        + type_generics_text(ps) + " "@ + c.generics.where_clause@ + " {\n"@
        + "    type BuilderImpl = "@ + builder_path(c)
        + spec_const_generics_all_valued(false, c.fields@, ps) + ";\n"@
        + "    #[doc = \"Creates an instance of [`"@ + spec_builder_ident(c.ident@) + "`]\"]\n"@
        + "    fn builder() -> Self::BuilderImpl {\n"@
        + "        Self::BuilderImpl::new()\n"@
        + "    }\n"@
        + "}\n"@
}

/// Writes the target struct's `Builder` impl.
pub struct TargetGenerator<'info> {
    info: &'info Container,
}

impl<'info> TargetGenerator<'info> {
    /// The container this generator writes for.
    pub closed spec fn container(&self) -> &'info Container {
        self.info
    }

    /// A generator for the given container.
    pub fn new(info: &'info Container) -> (r: Self)
        ensures
            r.container() == info,
    {
        TargetGenerator { info }
    }

    /// The target's `Builder` impl.
    pub fn generate(&self) -> (r: String)
        ensures
            r@ == target_text(self.container()),
    {
        self.generate_impl()
    }

    fn generate_impl(&self) -> (r: String)
        ensures
            r@ == target_text(self.container()),
    {
        let info = self.info;
        let ps = &info.generics.params;
        let mut out = String::new();
        out.append("impl");
        let no_consts: Vec<String> = Vec::new();
        append_impl_generics(&mut out, ps, &no_consts);
        out.append(" Builder for ");
        out.append(info.ident().as_str());
        append_type_generics(&mut out, ps);
        out.append(" ");
        out.append(info.generics.where_clause.as_str());
        out.append(" {\n");
        out.append("    type BuilderImpl = ");
        let builder_ident = info.builder_ident();
        if info.generate_module() {
            out.append(info.mod_ident().as_str());
            out.append("::");
        }
        out.append(builder_ident.as_str());
        const_generics_all_valued(&mut out, false, info.field_collection(), ps);
        out.append(";\n");
        out.append("    #[doc = \"Creates an instance of [`");
        out.append(builder_ident.as_str());
        out.append("`]\"]\n");
        out.append("    fn builder() -> Self::BuilderImpl {\n");
        out.append("        Self::BuilderImpl::new()\n");
        out.append("    }\n");
        out.append("}\n");
        assert(strs(no_consts@) =~= Seq::<Seq<char>>::empty());
        assert(out@ =~= target_text(self.container()));
        out
    }
}

} // verus!
