//! Rendering the target, builder and data code as Rust source text.
pub mod generics;
pub mod solver;
pub mod util;
pub mod target_generator;
pub mod data_generator;
pub mod builder_generator;

use vstd::prelude::*;
use vstd::string::*;
use crate::diagnostic::Diagnostic;
use crate::info::container::{Container, SolverKind, snake_case, spec_builder_ident};
use crate::generator::solver::{lists_accepted, spec_valid_combinations};
use crate::info::group::{Group, spec_check};
use crate::generator::builder_generator::{BuilderGenerator, builder_text};
use crate::generator::data_generator::{DataGenerator, data_text};
use crate::generator::target_generator::{TargetGenerator, target_text, spec_generate_module};

verus! {

/// What checking each group reports, group after group.
pub open spec fn group_checks(gs: Seq<Group>) -> Seq<Diagnostic>
    decreases gs.len(),
{
    if gs.len() == 0 {
        Seq::empty()
    } else {
        group_checks(gs.drop_last()) + spec_check(&gs.last())
    }
}

/// All the code derived for a container: the target's `Builder` impl, the
/// builder and the data struct (the last two in a module of their own when
/// modules are generated).
pub open spec fn generated_text(c: &Container) -> Seq<char> {
    if spec_generate_module() {
        target_text(c) + "mod "@ + snake_case(spec_builder_ident(c.ident@)) + " {\n"@
            + "    use super::"@ + c.ident@ + ";\n"@ + builder_text(c) + data_text(c) + "}\n"@
    } else {
        target_text(c) + builder_text(c) + data_text(c)
    }
}

/// Writes all the code derived for a container.
pub struct Generator<'info> {
    info: &'info Container,
    data_gen: DataGenerator<'info>,
    target_gen: TargetGenerator<'info>,
    builder_gen: BuilderGenerator<'info>,
}

impl<'info> Generator<'info> {
    /// Every part writes for the same container.
    #[verifier::type_invariant]
    spec fn parts_agree(&self) -> bool {
        &&& self.data_gen.container() == self.info
        &&& self.target_gen.container() == self.info
        &&& self.builder_gen.container() == self.info
    }

    /// The container this generator writes for.
    pub closed spec fn container(&self) -> &'info Container {
        self.info
    }

    /// A generator for the given container; reports what checking each group
    /// finds.
    pub fn new(info: &'info Container, diags: &mut Vec<Diagnostic>) -> (r: Self)
        ensures
            r.container() == info,
            final(diags)@ == old(diags)@ + group_checks(info.groups.groups@),
    {
        let groups = &info.group_collection().groups;
        let ghost start = diags@;
        let mut i: usize = 0;
        assert(groups@.take(0) =~= Seq::<Group>::empty());
        assert(diags@ =~= start + group_checks(groups@.take(0)));
        while i < groups.len()
            invariant
                i <= groups@.len(),
                diags@ == start + group_checks(groups@.take(i as int)),
            decreases groups@.len() - i,
        {
            let found = groups[i].check();
            let mut k: usize = 0;
            let ghost before = diags@;
            while k < found.len()
                invariant
                    k <= found@.len(),
                    diags@ == before + found@.take(k as int),
                decreases found@.len() - k,
            {
                diags.push(found[k]);
                assert(found@.take(k + 1) =~= found@.take(k as int).push(found@[k as int]));
                k = k + 1;
            }
            assert(found@.take(k as int) =~= found@);
            assert(groups@.take(i + 1).drop_last() =~= groups@.take(i as int));
            assert(groups@.take(i + 1).last() == groups@[i as int]);
            assert(diags@ =~= start + group_checks(groups@.take(i + 1)));
            i = i + 1;
        }
        assert(groups@.take(i as int) =~= groups@);
        Generator {
            info,
            data_gen: DataGenerator::new(info),
            target_gen: TargetGenerator::new(info),
            builder_gen: BuilderGenerator::new(info),
        }
    }

    /// All the code derived for the container.
    ///
    /// With the brute-force solver, the `build` methods are written for
    /// exactly the sets of grouped fields that every group accepts, each once.
    pub fn generate(&self) -> (r: String)
        requires
            BuilderGenerator::ready(self.container()),
        ensures
            r@ == generated_text(self.container()),
            self.container().solver_kind == SolverKind::BruteForce ==> lists_accepted(
                self.container().groups@,
                spec_valid_combinations(self.container().groups@),
            ),
    {
        proof {
            use_type_invariant(self);
        }
        let target = self.target_gen.generate();
        let data = self.data_gen.generate();
        let builder = self.builder_gen.generate();
        let mut out = target;
        if self.info.generate_module() {
            out.append("mod ");
            out.append(self.info.mod_ident().as_str());
            out.append(" {\n");
            out.append("    use super::");
            out.append(self.info.ident().as_str());
            out.append(";\n");
            out.append(builder.as_str());
            out.append(data.as_str());
            out.append("}\n");
        } else {
            out.append(builder.as_str());
            out.append(data.as_str());
        }
        out
    }
}

} // verus!
