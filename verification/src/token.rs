//! The token model for projection directives.
//!
//! A directive reaches the engine as an ordered sequence of tokens, already
//! split off from the host declaration by the caller. The grammar nests at
//! most one level deep: a clause keyword is followed by one parenthesized
//! list. A parenthesized list therefore holds only atoms; anything the
//! grammar can never accept (deeper nesting, punctuation other than a
//! comma) is handed in as [`Atom::Other`] and rejected by the parser with
//! a syntax error at its position.

use vstd::prelude::*;

verus! {

/// A single token that is not a parenthesized list.
#[derive(Debug, Clone, PartialEq, Eq)]
pub enum Atom {
    /// An identifier, such as a clause keyword, a field name or a
    /// capability name.
    Ident(String),
    /// A string literal, with its quotes removed.
    Text(String),
    /// A comma separating two items.
    Comma,
    /// Any token the directive grammar has no use for.
    Other,
}

/// One token of a directive: an atom, or a parenthesized list of atoms.
#[derive(Debug, Clone, PartialEq, Eq)]
pub enum Token {
    Atom(Atom),
    Group(Vec<Atom>),
}

/// The mathematical shape of an [`Atom`].
pub enum AtomModel {
    Ident(Seq<char>),
    Text(Seq<char>),
    Comma,
    Other,
}

/// The mathematical shape of a [`Token`].
pub enum TokenModel {
    Atom(AtomModel),
    Group(Seq<AtomModel>),
}

impl View for Atom {
    type V = AtomModel;

    open spec fn view(&self) -> AtomModel {
        match self {
            Atom::Ident(s) => AtomModel::Ident(s@),
            Atom::Text(s) => AtomModel::Text(s@),
            Atom::Comma => AtomModel::Comma,
            Atom::Other => AtomModel::Other,
        }
    }
}

impl DeepView for Atom {
    type V = AtomModel;

    open spec fn deep_view(&self) -> AtomModel {
        self.view()
    }
}

impl View for Token {
    type V = TokenModel;

    open spec fn view(&self) -> TokenModel {
        match self {
            Token::Atom(a) => TokenModel::Atom(a@),
            Token::Group(items) => TokenModel::Group(items.deep_view()),
        }
    }
}

impl DeepView for Token {
    type V = TokenModel;

    open spec fn deep_view(&self) -> TokenModel {
        self.view()
    }
}

} // verus!
