//! Identifiers.
use crate::ast::typescript::TsTypeAnn;
use crate::atom::{atom_new, atom_text};
use crate::span::{Span, SyntaxContext};
use crate::tree::{absent, ident_name, kids2, leaf, node, HasTree, Label, Tree};
use swc_atoms::Atom;
use vstd::prelude::*;

verus! {

/// An identifier that names a binding or refers to one.
#[derive(Debug, PartialEq, Eq, Hash)]
pub struct Ident {
    pub span: Span,
    pub ctxt: SyntaxContext,
    pub sym: Atom,
    pub optional: bool,
}

/// A name that is no binding: a property, a field.
#[derive(Debug, PartialEq, Eq, Hash)]
pub struct IdentName {
    pub span: Span,
    pub sym: Atom,
}

/// An identifier that introduces a binding.
#[derive(Debug, PartialEq, Eq, Hash)]
pub struct BindingIdent {
    pub id: Ident,
    pub type_ann: Option<Box<TsTypeAnn>>,
}

impl Ident {
    /// The tree of the node.
    pub open spec fn tree(self) -> Tree {
        leaf(
            Label::Ident { sym: atom_text(self.sym), ctxt: self.ctxt, optional: self.optional },
            self.span,
        )
    }

    /// An identifier without hygiene marks.
    pub fn new_no_ctxt(sym: Atom, span: Span) -> (i: Ident)
        ensures
            i == (Ident { span, ctxt: SyntaxContext(0), sym, optional: false }),
    {
        Ident { span, ctxt: SyntaxContext::empty(), sym, optional: false }
    }

    /// An identifier with an empty name, for a place that is yet to be filled.
    pub open spec fn is_dummy(self) -> bool {
        &&& self.span == Span::spec_dummy()
        &&& self.ctxt == SyntaxContext(0)
        &&& atom_text(self.sym).len() == 0
        &&& !self.optional
    }

    /// An identifier with an empty name, for a place that is yet to be filled.
    pub fn dummy() -> (i: Ident)
        ensures
            i.is_dummy(),
    {
        let sym = atom_new("");
        proof {
            reveal_strlit("");
            assert(atom_text(sym) =~= Seq::<char>::empty());
        }
        Ident::new_no_ctxt(sym, Span::dummy())
    }
}

impl IdentName {
    /// The tree of the node.
    pub open spec fn tree(self) -> Tree {
        ident_name(atom_text(self.sym), self.span)
    }
}

impl BindingIdent {
    /// The tree of the node.
    #[verifier::opaque]
    pub open spec fn tree(self) -> Tree
        decreases self,
    {
        node(
            Label::BindingIdent,
            self.id.span,
            kids2(
                self.id.tree(),
                match self.type_ann {
                    Some(t) => (*t).tree(),
                    None => absent(),
                },
            ),
        )
    }

    /// The tree, out of the trees of the parts.
    pub proof fn lemma_tree(self)
        ensures
            self.tree() == node(
                Label::BindingIdent,
                self.id.span,
                kids2(
                    self.id.tree(),
                    match self.type_ann {
                        Some(t) => (*t).tree(),
                        None => absent(),
                    },
                ),
            ),
    {
        reveal(BindingIdent::tree);
        reveal(TsTypeAnn::tree);
    }
}

impl HasTree for Ident {
    open spec fn as_tree(&self) -> Tree {
        self.tree()
    }
}

impl HasTree for IdentName {
    open spec fn as_tree(&self) -> Tree {
        self.tree()
    }
}

} // verus!
