//! Fields as the derive classifies them.
use vstd::prelude::*;
use vstd::string::*;
use crate::model::{Type, TypeShape, PathArguments, GenericArgument};
use crate::text::{decimal, append_decimal};

verus! {

/// The prefix of the const generic that records whether a field is set.
pub const CONST_IDENT_PREFIX: &'static str = "__BUILDER_CONST";

/// How the builder treats a field.
#[derive(Debug, Clone, Copy, PartialEq, Eq, Structural)]
pub enum FieldKind {
    /// May be left unset; defaults to `None`.
    Optional,
    /// Not settable through the builder; always `None`.
    Skipped,
    /// Must be set before `build`.
    Mandatory,
    /// Member of one or more groups.
    Grouped,
}

/// How a setter takes its value.
#[derive(Debug, Clone, Copy, PartialEq, Eq, Structural)]
pub enum SetterKind {
    Standard,
    /// The setter takes a function of the field type's own builder.
    Propagate,
    AsRef,
    AsMut,
    Into,
}

/// The kinds of fields whose state the builder's type tracks.
#[derive(Debug, Clone, Copy, PartialEq, Eq, Structural)]
pub enum TrackedFieldKind {
    Mandatory,
    Grouped,
}

/// Whether a type is an `Option`: a path type without qualified self whose
/// last segment is called `Option`.
pub open spec fn spec_is_option(ty: &Type) -> bool {
    match ty.shape {
        TypeShape::Path { qself, segments } => !qself && segments@.len() > 0
            && segments@.last().ident@ == "Option"@,
        TypeShape::Other => false,
    }
}

/// The first type argument of the last segment of a path type without
/// qualified self.
pub open spec fn spec_inner_type(ty: &Type) -> Option<&Type> {
    match ty.shape {
        TypeShape::Path { qself, segments } => if !qself && segments@.len() > 0 {
            match segments@.last().arguments {
                PathArguments::AngleBracketed(args) => if args@.len() > 0 {
                    match args@[0] {
                        GenericArgument::Type(t) => Some(&t),
                        GenericArgument::Other => None,
                    }
                } else {
                    None
                },
                _ => None,
            }
        } else {
            None
        },
        TypeShape::Other => None,
    }
}

/// The type an `Option` wraps: its first type argument; `None` for a type
/// that is not an `Option`.
pub open spec fn spec_option_inner_type(ty: &Type) -> Option<&Type> {
    if spec_is_option(ty) {
        spec_inner_type(ty)
    } else {
        None
    }
}

/// Whether a type is an `Option`.
pub fn is_option(ty: &Type) -> (r: bool)
    ensures
        r == spec_is_option(ty),
{
    match &ty.shape {
        TypeShape::Path { qself, segments } => {
            if *qself || segments.len() == 0 {
                false
            } else {
                let last = &segments[segments.len() - 1];
                last.ident == String::from_str("Option")
            }
        },
        TypeShape::Other => false,
    }
}

/// The first type argument of the type's last path segment, if any.
pub fn inner_type(ty: &Type) -> (r: Option<&Type>)
    ensures
        r == spec_inner_type(ty),
{
    match &ty.shape {
        TypeShape::Path { qself, segments } => {
            if *qself || segments.len() == 0 {
                return None;
            }
            let last = &segments[segments.len() - 1];
            match &last.arguments {
                PathArguments::AngleBracketed(args) => {
                    if args.len() == 0 {
                        return None;
                    }
                    match &args[0] {
                        GenericArgument::Type(t) => Some(t),
                        GenericArgument::Other => None,
                    }
                },
                _ => None,
            }
        },
        TypeShape::Other => None,
    }
}

/// The name of the const generic that tracks field `index`.
pub open spec fn spec_const_ident(index: usize) -> Seq<char> {
    "__BUILDER_CONST"@ + decimal(index as nat)
}

/// Appends the name of the const generic that tracks field `index`.
pub fn append_const_ident(out: &mut String, index: usize)
    ensures
        final(out)@ == old(out)@ + spec_const_ident(index),
{
    out.append(CONST_IDENT_PREFIX);
    append_decimal(out, index);
    assert(out@ =~= old(out)@ + spec_const_ident(index));
}

/// A field of the container, classified.
#[derive(Debug)]
pub struct Field {
    pub ident: String,
    pub ty: Type,
    /// Position of the field in the container.
    pub index: usize,
    pub kind: FieldKind,
    pub setter_kind: SetterKind,
    pub span: usize,
}

/// The type a setter takes, before propagation: `None` for skipped fields.
pub open spec fn spec_setter_input_type(f: &Field) -> Option<&Type> {
    match f.kind {
        FieldKind::Optional => Some(&f.ty),
        FieldKind::Mandatory => if spec_is_option(&f.ty) {
            spec_option_inner_type(&f.ty)
        } else {
            Some(&f.ty)
        },
        FieldKind::Grouped => spec_option_inner_type(&f.ty),
        FieldKind::Skipped => None,
    }
}

/// The tracked kind of a field: mandatory and grouped fields are tracked.
pub open spec fn spec_tracked_kind(kind: FieldKind) -> Option<TrackedFieldKind> {
    match kind {
        FieldKind::Mandatory => Some(TrackedFieldKind::Mandatory),
        FieldKind::Grouped => Some(TrackedFieldKind::Grouped),
        _ => None,
    }
}

impl Field {
    /// A classified field.
    pub fn new(
        ident: String,
        ty: Type,
        index: usize,
        kind: FieldKind,
        setter_kind: SetterKind,
        span: usize,
    ) -> (f: Field)
        ensures
            f.ident@ == ident@,
            f.ty == ty,
            f.index == index,
            f.kind == kind,
            f.setter_kind == setter_kind,
            f.span == span,
    {
        Field { ident, ty, index, kind, setter_kind, span }
    }

    /// The field's name.
    pub fn ident(&self) -> (r: &String)
        ensures
            r@ == self.ident@,
    {
        &self.ident
    }

    /// Whether the setter propagates to the field type's builder.
    pub fn propagate(&self) -> (r: bool)
        ensures
            r == (self.setter_kind == SetterKind::Propagate),
    {
        match self.setter_kind {
            SetterKind::Propagate => true,
            _ => false,
        }
    }

    /// Whether the field's type is an `Option`.
    pub fn is_option_type(&self) -> (r: bool)
        ensures
            r == spec_is_option(&self.ty),
    {
        is_option(&self.ty)
    }

    /// The field's type.
    pub fn ty(&self) -> (r: &Type)
        ensures
            *r == self.ty,
    {
        &self.ty
    }

    /// The type the field's `Option` wraps; `None` when the field's type is
    /// not an `Option`.
    pub fn inner_type(&self) -> (r: Option<&Type>)
        ensures
            r == spec_option_inner_type(&self.ty),
    {
        if is_option(&self.ty) {
            inner_type(&self.ty)
        } else {
            None
        }
    }

    /// The field's kind.
    pub fn kind(&self) -> (r: FieldKind)
        ensures
            r == self.kind,
    {
        self.kind
    }

    /// The field's position.
    pub fn index(&self) -> (r: usize)
        ensures
            r == self.index,
    {
        self.index
    }

    /// The tracked kind, for mandatory and grouped fields.
    pub fn tracked_kind(&self) -> (r: Option<TrackedFieldKind>)
        ensures
            r == spec_tracked_kind(self.kind),
    {
        match self.kind {
            FieldKind::Mandatory => Some(TrackedFieldKind::Mandatory),
            FieldKind::Grouped => Some(TrackedFieldKind::Grouped),
            _ => None,
        }
    }

    /// The name of the const generic that tracks this field.
    pub fn const_ident(&self) -> (r: String)
        ensures
            r@ == spec_const_ident(self.index),
    {
        let mut s = String::new();
        append_const_ident(&mut s, self.index);
        assert(s@ =~= spec_const_ident(self.index));
        s
    }

    /// The type the setter takes, before propagation; `None` for skipped fields.
    pub fn setter_input_type(&self) -> (r: Option<&Type>)
        requires
            self.kind == FieldKind::Grouped ==> spec_option_inner_type(&self.ty) is Some,
            self.kind == FieldKind::Mandatory && spec_is_option(&self.ty) ==> spec_option_inner_type(
                &self.ty,
            ) is Some,
        ensures
            r == spec_setter_input_type(self),
    {
        match self.kind {
            FieldKind::Optional => Some(&self.ty),
            FieldKind::Mandatory => {
                if self.is_option_type() {
                    self.inner_type()
                } else {
                    Some(&self.ty)
                }
            },
            FieldKind::Grouped => self.inner_type(),
            FieldKind::Skipped => None,
        }
    }
}

} // verus!
