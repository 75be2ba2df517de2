//! The container a builder is derived for, once read.
use vstd::prelude::*;
use vstd::string::*;
use convert_case::{Case, Casing};
use crate::info::field::Field;
use crate::info::group::{GroupCollection, groups_wf};
use crate::model::Generics;

verus! {

/// How the builder checks the groups.
#[derive(Debug, Clone, Copy, PartialEq, Eq, Structural)]
pub enum SolverKind {
    /// One `build` method for every valid choice of group members.
    BruteForce,
    /// One `build` method whose group checks run in a constant.
    Compiler,
}

/// What `convert_case` makes of a string in snake case.
pub uninterp spec fn snake_case(s: Seq<char>) -> Seq<char>;

/// `s` in snake case, by `convert_case`'s `to_case(Case::Snake)`.
#[verifier::external_body]
fn to_snake_case(s: &String) -> (r: String)
    ensures
        r@ == snake_case(s@),
{
    s.to_case(Case::Snake)
}

/// The container: its name, visibility, generics, groups, fields and solver.
#[derive(Debug)]
pub struct Container {
    pub ident: String,
    pub vis: String,
    pub generics: Generics,
    pub groups: GroupCollection,
    pub fields: Vec<Field>,
    pub solver_kind: SolverKind,
}

/// Name of the builder of a container called `ident`.
pub open spec fn spec_builder_ident(ident: Seq<char>) -> Seq<char> {
    ident + "Builder"@
}

/// Name of the data struct of a container called `ident`.
pub open spec fn spec_data_ident(ident: Seq<char>) -> Seq<char> {
    ident + "Data"@
}

/// Name of the builder's field that holds the data struct.
pub open spec fn spec_data_field_ident(ident: Seq<char>) -> Seq<char> {
    "__"@ + snake_case(spec_data_ident(ident))
}

impl Container {
    /// Fields sit at their own index, groups are well formed and name only
    /// existing fields.
    pub open spec fn wf(&self) -> bool {
        &&& groups_wf(self.groups@)
        &&& forall|i: int| 0 <= i < self.fields@.len() ==> (#[trigger] self.fields@[i]).index == i
        &&& forall|g: int, k: int|
            0 <= g < self.groups@.len() && 0 <= k < self.groups@[g].indices.len()
                ==> #[trigger] self.groups@[g].indices[k] < self.fields@.len()
    }

    /// A container from its parts.
    pub fn new(
        vis: String,
        generics: Generics,
        ident: String,
        groups: GroupCollection,
        fields: Vec<Field>,
        solver_kind: SolverKind,
    ) -> (c: Container)
        ensures
            c.vis@ == vis@,
            c.generics == generics,
            c.ident@ == ident@,
            c.groups == groups,
            c.fields == fields,
            c.solver_kind == solver_kind,
    {
        Container { ident, vis, generics, groups, fields, solver_kind }
    }

    /// The container's name.
    pub fn ident(&self) -> (r: &String)
        ensures
            r@ == self.ident@,
    {
        &self.ident
    }

    /// The container's visibility.
    pub fn vis(&self) -> (r: &String)
        ensures
            r@ == self.vis@,
    {
        &self.vis
    }

    /// The container's generics.
    pub fn generics(&self) -> (r: &Generics)
        ensures
            *r == self.generics,
    {
        &self.generics
    }

    /// Name of the generated builder.
    pub fn builder_ident(&self) -> (r: String)
        ensures
            r@ == spec_builder_ident(self.ident@),
    {
        self.ident.clone().concat("Builder")
    }

    /// Name of the generated data struct.
    pub fn data_ident(&self) -> (r: String)
        ensures
            r@ == spec_data_ident(self.ident@),
    {
        self.ident.clone().concat("Data")
    }

    /// The fields.
    pub fn field_collection(&self) -> (r: &Vec<Field>)
        ensures
            r@ == self.fields@,
    {
        &self.fields
    }

    /// The groups.
    pub fn group_collection(&self) -> (r: &GroupCollection)
        ensures
            *r == self.groups,
    {
        &self.groups
    }

    /// The solver.
    pub fn solver_kind(&self) -> (r: SolverKind)
        ensures
            r == self.solver_kind,
    {
        self.solver_kind
    }

    /// Name of the builder's field that holds the data struct:
    /// `__` and the data struct's name in snake case.
    pub fn data_field_ident(&self) -> (r: String)
        ensures
            r@ == spec_data_field_ident(self.ident@),
    {
        let snake = to_snake_case(&self.data_ident());
        String::from_str("__").concat(snake.as_str())
    }

    /// Name of the module the builder would live in: the builder's name in
    /// snake case.
    pub fn mod_ident(&self) -> (r: String)
        ensures
            r@ == snake_case(spec_builder_ident(self.ident@)),
    {
        to_snake_case(&self.builder_ident())
    }

    /// Whether the builder and data struct are put in a module of their own.
    pub fn generate_module(&self) -> (r: bool)
        ensures
            !r,
    {
        false
    }
}

} // verus!
