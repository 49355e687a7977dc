//! Where a piece of the intermediate representation came from.

use vstd::prelude::*;

verus! {

/// A range of the source text: the offsets of its first byte and of the byte
/// after its last.
#[derive(Debug, Clone, Copy, PartialEq, Eq, Hash, Structural)]
pub struct Span {
    pub start: u32,
    pub end: u32,
}

/// A range of the text of one file: the offsets of its first byte and of the
/// byte after its last.
#[derive(Debug, Clone, Copy, PartialEq, Eq, Hash, Structural)]
pub struct TextRange {
    pub start: u32,
    pub end: u32,
}

/// An interned name.
#[derive(Debug, Clone, Copy, PartialEq, Eq, Hash, Structural)]
pub struct Symbol(pub u32);

/// A name together with the place it was written at.
#[derive(Debug, Clone, Copy, PartialEq, Eq, Hash, Structural)]
pub struct Ident {
    pub name: Symbol,
    pub span: Span,
}

} // verus!
