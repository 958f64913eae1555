//! Interned strings.
use swc_atoms::Atom;
use vstd::prelude::*;

verus! {

/// `swc_atoms::Atom`, an immutable interned string.
#[verifier::external_type_specification]
#[verifier::external_body]
pub struct ExAtom(swc_atoms::Atom);

/// The characters that an atom holds.
pub uninterp spec fn atom_text(a: Atom) -> Seq<char>;

/// Calls `swc_atoms::Atom::new` on a string slice: the atom holds the
/// characters of the slice.
#[verifier::external_body]
pub(crate) fn atom_new(s: &str) -> (a: Atom)
    ensures
        atom_text(a) == s@,
{
    Atom::new(s)
}

/// Calls `==` of `swc_atoms::Atom` with `str`: whether the atom holds exactly
/// the characters of the slice.
#[verifier::external_body]
pub(crate) fn atom_is(a: &Atom, s: &str) -> (b: bool)
    ensures
        b == (atom_text(*a) == s@),
{
    *a == *s
}

/// `clone` of `swc_atoms::Atom`: the copy holds the same characters.
pub assume_specification[ <swc_atoms::Atom as std::clone::Clone>::clone ](
    a: &swc_atoms::Atom,
) -> (c: swc_atoms::Atom)
    ensures
        atom_text(c) == atom_text(*a),
;

} // verus!
