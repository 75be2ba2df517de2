//! Diagnostics that the derive reports about its input.
use vstd::prelude::*;
use crate::info::field::FieldKind;

verus! {

/// Severity of a diagnostic.
#[derive(Debug, Clone, Copy, PartialEq, Eq, Structural)]
pub enum Level {
    Error,
    Warning,
}

/// What a diagnostic says.
#[derive(Debug, Clone, Copy, PartialEq, Eq, Structural)]
pub enum DiagnosticKind {
    // attributes in general
    AttributePathNotIdent,
    AttributeNotList,
    EmptyAttributeList,
    UnknownAttribute,
    NotAFieldAttribute,
    SpecifierPathNotIdent,
    SpecifierNotAllowedHere,
    UnknownSpecifier,
    /// The attribute's arguments do not follow `name`, `name = value`, ... .
    MalformedArguments,
    // container
    UnknownSolver,
    EnumsUnsupported,
    UnionsUnsupported,
    UnnamedFieldsUnsupported,
    // groups
    GroupNameNotIdent,
    GroupTypeNotIdent,
    NoGroupType,
    GroupArgumentCount,
    GroupArgumentUnreadable,
    SingleTakesNoArgument,
    UnknownGroupType,
    MissingGroupArgument,
    UnreadableGroupType,
    GroupDefinedTwice,
    GroupMemberTwice,
    // field kinds
    /// The field was asked to be `requested` but is already `existing`.
    KindConflict { requested: FieldKind, existing: FieldKind },
    /// The field was given the same kind twice.
    KindRepeated(FieldKind),
    SetterKindRepeated,
    // group checks
    NoValidExpectedCount,
    ExpectedCountOutOfRange,
    GroupPreventsAll,
    GroupNeedsAllFields,
    GroupNeverSatisfied,
    GroupHasNoEffect,
}

/// A diagnostic: its severity, what it says, and the span it points at.
#[derive(Debug, Clone, Copy, PartialEq, Eq, Structural)]
pub struct Diagnostic {
    pub level: Level,
    pub kind: DiagnosticKind,
    pub span: usize,
}

pub open spec fn error_at(kind: DiagnosticKind, span: usize) -> Diagnostic {
    Diagnostic { level: Level::Error, kind, span }
}

pub open spec fn warning_at(kind: DiagnosticKind, span: usize) -> Diagnostic {
    Diagnostic { level: Level::Warning, kind, span }
}

/// Builds an error diagnostic.
pub fn error(kind: DiagnosticKind, span: usize) -> (d: Diagnostic)
    ensures
        d == error_at(kind, span),
{
    Diagnostic { level: Level::Error, kind, span }
}

/// Builds a warning diagnostic.
pub fn warning(kind: DiagnosticKind, span: usize) -> (d: Diagnostic)
    ensures
        d == warning_at(kind, span),
{
    Diagnostic { level: Level::Warning, kind, span }
}

/// Whether a list of diagnostics holds an error.
pub open spec fn has_error(ds: Seq<Diagnostic>) -> bool {
    exists|i: int| 0 <= i < ds.len() && ds[i].level == Level::Error
}

} // verus!
