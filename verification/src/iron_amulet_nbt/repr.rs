//! Errors in the structure of an NBT tag tree.

use vstd::prelude::*;

use crate::text::{boxed_str_from, push_decimal, push_str, spec_decimal, string_from_chars};

verus! {

/// What went wrong in the structure of an NBT tag tree.
#[derive(Debug, Clone)]
pub enum NbtStructureErrorRepr {
    MissingTag { tag_name: Box<str> },
    InvalidIndex { index: usize, length: usize },
    TypeMismatch { expected: &'static str, found: &'static str },
}

/// An error associated with the structure of an NBT tag tree. This error represents a conflict
/// between the expected and actual structure of an NBT tag tree.
#[derive(Debug, Clone)]
pub struct NbtStructureError {
    repr: NbtStructureErrorRepr,
}

impl View for NbtStructureError {
    type V = NbtStructureErrorRepr;

    closed spec fn view(&self) -> NbtStructureErrorRepr {
        self.repr
    }
}

impl NbtStructureError {
    /// A tag with the given name is missing.
    pub(crate) fn missing_tag(tag_name: &str) -> (res: Self)
        ensures
            res@ matches NbtStructureErrorRepr::MissingTag { tag_name: n } && n@ == tag_name@,
    {
        NbtStructureError {
            repr: NbtStructureErrorRepr::MissingTag { tag_name: boxed_str_from(tag_name) },
        }
    }

    /// An index is out of range of a list of the given length.
    pub(crate) fn invalid_index(index: usize, length: usize) -> (res: Self)
        ensures
            res@ == (NbtStructureErrorRepr::InvalidIndex { index, length }),
    {
        NbtStructureError { repr: NbtStructureErrorRepr::InvalidIndex { index, length } }
    }

    /// A tag of one type was expected, and one of another was found.
    pub(crate) fn type_mismatch(expected: &'static str, found: &'static str) -> (res: Self)
        ensures
            res@ == (NbtStructureErrorRepr::TypeMismatch { expected, found }),
    {
        NbtStructureError { repr: NbtStructureErrorRepr::TypeMismatch { expected, found } }
    }

    /// What went wrong.
    pub fn repr(&self) -> (res: &NbtStructureErrorRepr)
        ensures
            *res == self@,
    {
        &self.repr
    }
}

/// An error in representing a value as NBT.
#[derive(Debug)]
pub enum NbtReprError {
    /// A structure error in the tag tree.
    Structure(Box<NbtStructureError>),
    /// A custom error.
    Custom(anyhow::Error),
}

impl NbtReprError {
    /// Creates a new NBT representation error from the given structure error.
    pub fn structure(error: NbtStructureError) -> (res: Self)
        ensures
            res matches NbtReprError::Structure(e) && *e == error,
    {
        NbtReprError::Structure(Box::new(error))
    }
}

impl From<NbtStructureError> for NbtReprError {
    fn from(error: NbtStructureError) -> (res: Self)
        ensures
            res matches NbtReprError::Structure(e) && *e == error,
    {
        NbtReprError::Structure(Box::new(error))
    }
}

impl vstd::std_specs::convert::FromSpecImpl<NbtStructureError> for NbtReprError {
    open spec fn obeys_from_spec() -> bool {
        true
    }

    open spec fn from_spec(error: NbtStructureError) -> NbtReprError {
        NbtReprError::Structure(Box::new(error))
    }
}

impl From<Box<NbtStructureError>> for NbtReprError {
    fn from(error: Box<NbtStructureError>) -> (res: Self)
        ensures
            res matches NbtReprError::Structure(e) && e == error,
    {
        NbtReprError::Structure(error)
    }
}

impl vstd::std_specs::convert::FromSpecImpl<Box<NbtStructureError>> for NbtReprError {
    open spec fn obeys_from_spec() -> bool {
        true
    }

    open spec fn from_spec(error: Box<NbtStructureError>) -> NbtReprError {
        NbtReprError::Structure(error)
    }
}

/// The message of an error in the structure of an NBT tag tree, as its `Display` shows it.
pub open spec fn spec_structure_message(error: NbtStructureErrorRepr) -> Seq<char> {
    match error {
        NbtStructureErrorRepr::MissingTag { tag_name } => "Missing tag \""@ + tag_name@ + "\""@,
        NbtStructureErrorRepr::InvalidIndex { index, length } => "Index out of range: "@ + spec_decimal(
            index as nat,
        ) + " >= "@ + spec_decimal(length as nat),
        NbtStructureErrorRepr::TypeMismatch { expected, found } => "Tag type mismatch: expected "@ + expected@
            + " but found "@ + found@,
    }
}

impl NbtStructureError {
    /// The message of this error, as its `Display` shows it.
    pub fn to_string(&self) -> (res: String)
        ensures
            res@ == spec_structure_message(self@),
    {
        let mut out: Vec<char> = Vec::new();
        match &self.repr {
            NbtStructureErrorRepr::MissingTag { tag_name } => {
                push_str(&mut out, "Missing tag \"");
                push_str(&mut out, &**tag_name);
                push_str(&mut out, "\"");
            },
            NbtStructureErrorRepr::InvalidIndex { index, length } => {
                push_str(&mut out, "Index out of range: ");
                push_decimal(&mut out, *index as u64);
                push_str(&mut out, " >= ");
                push_decimal(&mut out, *length as u64);
            },
            NbtStructureErrorRepr::TypeMismatch { expected, found } => {
                push_str(&mut out, "Tag type mismatch: expected ");
                push_str(&mut out, expected);
                push_str(&mut out, " but found ");
                push_str(&mut out, found);
            },
        }
        assert(out@ =~= spec_structure_message(self@));
        string_from_chars(out.as_slice())
    }
}

} // verus!
