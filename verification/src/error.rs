//! The typed failures a decode can end in.  All of them are terminal for
//! the decode call that raised them: no partially filled mesh is returned.

use vstd::prelude::*;

verus! {

/// The grammar item the ASCII decoder was looking for when it failed.
#[derive(Clone, Copy, Debug, PartialEq, Eq, Structural)]
pub enum Expected {
    /// The opening `solid` keyword.
    KeywordSolid,
    /// Either another `facet` block or the closing `endsolid`.
    KeywordFacetOrEndsolid,
    /// The `normal` keyword after `facet`.
    KeywordNormal,
    /// The `outer` keyword opening the vertex loop.
    KeywordOuter,
    /// The `loop` keyword after `outer`.
    KeywordLoop,
    /// A `vertex` line; a facet holds exactly three of them.
    KeywordVertex,
    /// The `endloop` keyword after the third vertex.
    KeywordEndloop,
    /// The `endfacet` keyword closing a facet block.
    KeywordEndfacet,
    /// A numeric token: optional sign, digits, optional fraction and exponent.
    Number,
    /// Nothing further after `endsolid` and its optional name.
    EndOfInput,
}

/// A failed decode.
#[derive(Clone, Copy, Debug, PartialEq, Eq, Structural)]
pub enum DecodeError {
    /// The stream was exhausted in the middle of a fixed-width value.
    UnexpectedEndOfInput,
    /// A binary stream held fewer than the 84 bytes of header and count.
    TruncatedHeader,
    /// A binary stream declared `expected` facet records but held only
    /// `got` complete ones.
    TruncatedBody { expected: usize, got: usize },
    /// ASCII text broke the grammar: at byte offset `position` the decoder
    /// looked for `expected` and found something else.
    GrammarError { position: usize, expected: Expected },
    /// Strict mode only: a binary stream went on after the declared
    /// records.  The permissive decoder ignores such bytes instead.
    TrailingBytes,
}

} // verus!
