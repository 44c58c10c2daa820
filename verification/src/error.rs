use vstd::prelude::*;

verus! {

/// Why a document could not be decoded into a feed.
#[derive(Debug, Clone, Copy, PartialEq, Eq, Structural)]
pub enum DecodeError {
    /// The token stream of the document broke off before its end.
    MalformedDocument,
    /// The document is neither RSS nor Atom.
    UnsupportedDialect,
}

} // verus!
