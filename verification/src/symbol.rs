use vstd::prelude::*;
use vstd::string::*;

verus! {

/// The words of the attribute language, in their `snake_case` spelling.
#[derive(Debug, Clone, Copy, PartialEq, Eq, Structural)]
pub enum Symbol {
    Builder,
    Group,
    Mandatory,
    Skip,
    Optional,
    AssumeMandatory,
    Single,
    AtLeast,
    AtMost,
    Exact,
    Solver,
    BruteForce,
    Compiler,
    Propagate,
    Into,
    AsRef,
    AsMut,
    Standard,
}

/// The symbol that a piece of text names, if any. `as_ref`/`asref` and
/// `as_mut`/`asmut` are both accepted.
pub open spec fn spec_symbol_of(s: Seq<char>) -> Option<Symbol> {
    if s == "builder"@ { Some(Symbol::Builder) }
    else if s == "group"@ { Some(Symbol::Group) }
    else if s == "mandatory"@ { Some(Symbol::Mandatory) }
    else if s == "skip"@ { Some(Symbol::Skip) }
    else if s == "optional"@ { Some(Symbol::Optional) }
    else if s == "assume_mandatory"@ { Some(Symbol::AssumeMandatory) }
    else if s == "single"@ { Some(Symbol::Single) }
    else if s == "at_least"@ { Some(Symbol::AtLeast) }
    else if s == "at_most"@ { Some(Symbol::AtMost) }
    else if s == "exact"@ { Some(Symbol::Exact) }
    else if s == "solver"@ { Some(Symbol::Solver) }
    else if s == "brute_force"@ { Some(Symbol::BruteForce) }
    else if s == "compiler"@ { Some(Symbol::Compiler) }
    else if s == "propagate"@ { Some(Symbol::Propagate) }
    else if s == "into"@ { Some(Symbol::Into) }
    else if s == "as_ref"@ || s == "asref"@ { Some(Symbol::AsRef) }
    else if s == "as_mut"@ || s == "asmut"@ { Some(Symbol::AsMut) }
    else if s == "standard"@ { Some(Symbol::Standard) }
    else { None }
}

/// The canonical spelling of a symbol.
pub open spec fn spec_symbol_text(sym: Symbol) -> Seq<char> {
    match sym {
        Symbol::Builder => "builder"@,
        Symbol::Group => "group"@,
        Symbol::Mandatory => "mandatory"@,
        Symbol::Skip => "skip"@,
        Symbol::Optional => "optional"@,
        Symbol::AssumeMandatory => "assume_mandatory"@,
        Symbol::Single => "single"@,
        Symbol::AtLeast => "at_least"@,
        Symbol::AtMost => "at_most"@,
        Symbol::Exact => "exact"@,
        Symbol::Solver => "solver"@,
        Symbol::BruteForce => "brute_force"@,
        Symbol::Compiler => "compiler"@,
        Symbol::Propagate => "propagate"@,
        Symbol::Into => "into"@,
        Symbol::AsRef => "as_ref"@,
        Symbol::AsMut => "as_mut"@,
        Symbol::Standard => "standard"@,
    }
}

fn text_is(s: &String, lit: &str) -> (r: bool)
    ensures
        r == (s@ == lit@),
{
    let l = String::from_str(lit);
    *s == l
}

impl Symbol {
    /// Reads a symbol from its spelling.
    pub fn from_text(s: &String) -> (r: Option<Symbol>)
        ensures
            r == spec_symbol_of(s@),
    {
        if text_is(s, "builder") { Some(Symbol::Builder) }
        else if text_is(s, "group") { Some(Symbol::Group) }
        else if text_is(s, "mandatory") { Some(Symbol::Mandatory) }
        else if text_is(s, "skip") { Some(Symbol::Skip) }
        else if text_is(s, "optional") { Some(Symbol::Optional) }
        else if text_is(s, "assume_mandatory") { Some(Symbol::AssumeMandatory) }
        else if text_is(s, "single") { Some(Symbol::Single) }
        else if text_is(s, "at_least") { Some(Symbol::AtLeast) }
        else if text_is(s, "at_most") { Some(Symbol::AtMost) }
        else if text_is(s, "exact") { Some(Symbol::Exact) }
        else if text_is(s, "solver") { Some(Symbol::Solver) }
        else if text_is(s, "brute_force") { Some(Symbol::BruteForce) }
        else if text_is(s, "compiler") { Some(Symbol::Compiler) }
        else if text_is(s, "propagate") { Some(Symbol::Propagate) }
        else if text_is(s, "into") { Some(Symbol::Into) }
        else if text_is(s, "as_ref") || text_is(s, "asref") { Some(Symbol::AsRef) }
        else if text_is(s, "as_mut") || text_is(s, "asmut") { Some(Symbol::AsMut) }
        else if text_is(s, "standard") { Some(Symbol::Standard) }
        else { None }
    }

    /// The canonical spelling of the symbol.
    pub fn text(&self) -> (r: &'static str)
        ensures
            r@ == spec_symbol_text(*self),
    {
        match self {
            Symbol::Builder => "builder",
            Symbol::Group => "group",
            Symbol::Mandatory => "mandatory",
            Symbol::Skip => "skip",
            Symbol::Optional => "optional",
            Symbol::AssumeMandatory => "assume_mandatory",
            Symbol::Single => "single",
            Symbol::AtLeast => "at_least",
            Symbol::AtMost => "at_most",
            Symbol::Exact => "exact",
            Symbol::Solver => "solver",
            Symbol::BruteForce => "brute_force",
            Symbol::Compiler => "compiler",
            Symbol::Propagate => "propagate",
            Symbol::Into => "into",
            Symbol::AsRef => "as_ref",
            Symbol::AsMut => "as_mut",
            Symbol::Standard => "standard",
        }
    }
}

/// Reading back the canonical spelling of any symbol gives that symbol.
pub proof fn lemma_symbol_text_round_trip(sym: Symbol)
    ensures
        spec_symbol_of(spec_symbol_text(sym)) == Some(sym),
{
    reveal_strlit("builder");
    reveal_strlit("group");
    reveal_strlit("mandatory");
    reveal_strlit("skip");
    reveal_strlit("optional");
    reveal_strlit("assume_mandatory");
    reveal_strlit("single");
    reveal_strlit("at_least");
    reveal_strlit("at_most");
    reveal_strlit("exact");
    reveal_strlit("solver");
    reveal_strlit("brute_force");
    reveal_strlit("compiler");
    reveal_strlit("propagate");
    reveal_strlit("into");
    reveal_strlit("as_ref");
    reveal_strlit("asref");
    reveal_strlit("as_mut");
    reveal_strlit("asmut");
    reveal_strlit("standard");
    assert("builder"@ =~= seq!['b', 'u', 'i', 'l', 'd', 'e', 'r']);
    assert("group"@ =~= seq!['g', 'r', 'o', 'u', 'p']);
    assert("mandatory"@ =~= seq!['m', 'a', 'n', 'd', 'a', 't', 'o', 'r', 'y']);
    assert("skip"@ =~= seq!['s', 'k', 'i', 'p']);
    assert("optional"@ =~= seq!['o', 'p', 't', 'i', 'o', 'n', 'a', 'l']);
    assert("assume_mandatory"@ =~= seq!['a', 's', 's', 'u', 'm', 'e', '_', 'm', 'a', 'n', 'd', 'a', 't', 'o', 'r', 'y']);
    assert("single"@ =~= seq!['s', 'i', 'n', 'g', 'l', 'e']);
    assert("at_least"@ =~= seq!['a', 't', '_', 'l', 'e', 'a', 's', 't']);
    assert("at_most"@ =~= seq!['a', 't', '_', 'm', 'o', 's', 't']);
    assert("exact"@ =~= seq!['e', 'x', 'a', 'c', 't']);
    assert("solver"@ =~= seq!['s', 'o', 'l', 'v', 'e', 'r']);
    assert("brute_force"@ =~= seq!['b', 'r', 'u', 't', 'e', '_', 'f', 'o', 'r', 'c', 'e']);
    assert("compiler"@ =~= seq!['c', 'o', 'm', 'p', 'i', 'l', 'e', 'r']);
    assert("propagate"@ =~= seq!['p', 'r', 'o', 'p', 'a', 'g', 'a', 't', 'e']);
    assert("into"@ =~= seq!['i', 'n', 't', 'o']);
    assert("as_ref"@ =~= seq!['a', 's', '_', 'r', 'e', 'f']);
    assert("asref"@ =~= seq!['a', 's', 'r', 'e', 'f']);
    assert("as_mut"@ =~= seq!['a', 's', '_', 'm', 'u', 't']);
    assert("asmut"@ =~= seq!['a', 's', 'm', 'u', 't']);
    assert("standard"@ =~= seq!['s', 't', 'a', 'n', 'd', 'a', 'r', 'd']);
}

} // verus!
