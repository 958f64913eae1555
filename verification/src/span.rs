//! Source positions.
use vstd::prelude::*;

verus! {

/// An absolute byte position. Position `0` is reserved for synthesized nodes,
/// so the first byte of a source text sits at position `1`.
#[derive(Clone, Copy, Debug, PartialEq, Eq, Hash, Structural)]
pub struct BytePos(pub u32);

/// A region of source text: from the first byte `lo` up to, excluding, `hi`.
#[derive(Clone, Copy, Debug, PartialEq, Eq, Hash, Structural)]
pub struct Span {
    pub lo: BytePos,
    pub hi: BytePos,
}

/// Hygiene information of a node. The parser always leaves it empty.
#[derive(Clone, Copy, Debug, PartialEq, Eq, Hash, Structural)]
pub struct SyntaxContext(pub u32);

impl SyntaxContext {
    /// The context that carries no hygiene marks.
    pub fn empty() -> (c: SyntaxContext)
        ensures
            c == SyntaxContext(0),
    {
        SyntaxContext(0)
    }
}

impl Default for SyntaxContext {
    fn default() -> (c: SyntaxContext)
        ensures
            c == SyntaxContext(0),
    {
        SyntaxContext(0)
    }
}

impl Span {
    /// The span of a synthesized node.
    pub open spec fn spec_dummy() -> Span {
        Span { lo: BytePos(0), hi: BytePos(0) }
    }

    /// The span of a synthesized node.
    pub fn dummy() -> (s: Span)
        ensures
            s == Span::spec_dummy(),
    {
        Span { lo: BytePos(0), hi: BytePos(0) }
    }

    /// The span between two positions, whichever of them comes first.
    pub open spec fn between(a: BytePos, b: BytePos) -> Span {
        if a.0 <= b.0 {
            Span { lo: a, hi: b }
        } else {
            Span { lo: b, hi: a }
        }
    }

    /// The span between two positions, whichever of them comes first.
    pub fn new(lo: BytePos, hi: BytePos) -> (s: Span)
        ensures
            s == Span::between(lo, hi),
    {
        let (a, b): (u32, u32) = ordered_positions(lo.0, hi.0);
        Span { lo: BytePos(a), hi: BytePos(b) }
    }
}

impl Default for Span {
    fn default() -> (s: Span)
        ensures
            s == Span::spec_dummy(),
    {
        Span::dummy()
    }
}

/// Calls `swc_common::Span::new`, which keeps its two positions when the first
/// does not lie behind the second, and swaps them otherwise. The pair holds the
/// `lo` and the `hi` of the span that came back.
#[verifier::external_body]
fn ordered_positions(lo: u32, hi: u32) -> (p: (u32, u32))
    ensures
        lo <= hi ==> p == (lo, hi),
        hi < lo ==> p == (hi, lo),
{
    let s = swc_common::Span::new(swc_common::BytePos(lo), swc_common::BytePos(hi));
    (s.lo.0, s.hi.0)
}

} // verus!
