//! The ways in which a caller can break the engine's protocol.

use vstd::prelude::*;
use crate::span::Span;

verus! {

/// The kinds of identity tables.
#[derive(Clone, Copy, Debug, PartialEq, Eq, Structural)]
pub enum IdKind {
    File,
    Var,
    Decl,
    Block,
}

/// A violation of the engine's protocol.
#[derive(Clone, Copy, Debug, PartialEq, Eq, Structural)]
pub enum EngineError {
    /// A lookup by an ID that no table entry has.
    MissingId(IdKind, usize),
    /// A span that lies in no file's range.
    SpanOutOfRange(Span),
    /// A delta was merged while a scope of it was still open, or after its
    /// outermost scope was closed.
    UnbalancedScope,
    /// An attempt to change an entry of the committed state through a working set.
    MutatePermanent(IdKind),
}

} // verus!
