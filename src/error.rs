use vstd::prelude::*;

verus! {

/// What a generation pass can refuse.
#[derive(Debug, Clone, Copy, PartialEq, Eq, Structural)]
pub enum GenError {
    /// A value type that has no Java rendering (a handle or a named type).
    UnsupportedType,
    /// An `async` function.
    AsyncFunction,
    /// A function that the host calls into the guest.
    ExportFunction,
    /// A type declaration (record, variant, resource, alias, list, pointer,
    /// builtin or buffer).
    TypeDeclaration,
    /// A tuple of zero or of more than ten elements.
    TupleArity,
}

} // verus!
