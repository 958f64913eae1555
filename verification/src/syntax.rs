//! Which language to parse.
use vstd::prelude::*;

verus! {

/// The options of TypeScript.
#[derive(Clone, Copy, Debug, PartialEq, Eq, Structural)]
pub struct TsSyntax {
    /// Whether zts is on.
    pub zts: bool,
}

impl Default for TsSyntax {
    fn default() -> (s: TsSyntax)
        ensures
            s == (TsSyntax { zts: false }),
    {
        TsSyntax { zts: false }
    }
}

/// The language to parse.
#[derive(Clone, Copy, Debug, PartialEq, Eq, Structural)]
pub enum Syntax {
    Typescript(TsSyntax),
}

impl Syntax {
    /// Whether zts is on.
    pub open spec fn spec_zts(self) -> bool {
        match self {
            Syntax::Typescript(t) => t.zts,
        }
    }

    /// Whether zts is on.
    #[verifier::when_used_as_spec(spec_zts)]
    pub fn zts(self) -> (b: bool)
        ensures
            b == self.spec_zts(),
    {
        match self {
            Syntax::Typescript(t) => t.zts,
        }
    }
}

} // verus!
