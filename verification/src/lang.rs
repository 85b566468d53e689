//! Terms of the core language.
//!
//! A term is an inner node together with an optional type annotation, which
//! is itself a term. Variables are de Bruijn indices.

use vstd::prelude::*;

verus! {

/// How often a value of a type may be used: any number of times, or exactly once.
#[derive(PartialEq, Eq, Structural, Clone, Copy, Debug, Hash)]
pub enum Usage {
    Shared,
    Unique,
}

/// The two labels of the two-element type.
#[derive(PartialEq, Eq, Structural, Clone, Copy, Debug, Hash)]
pub enum Doub {
    This,
    That,
}

/// The inner node of a term.
#[derive(Debug, PartialEq, Eq, Hash)]
pub enum InnerTerm {
    TypeTypeIntro(usize, Usage),
    Var(usize),
    Rec(Term),
    FunctionTypeIntro(Term, Term, Term),
    FunctionIntro(Term),
    FunctionElim(Term, Term),
    PairTypeIntro(Term, Term),
    PairIntro(Term, Term),
    PairElim(Term, Term),
    VoidTypeIntro,
    UnitTypeIntro,
    UnitIntro,
    DoubTypeIntro,
    DoubIntro(Doub),
    DoubElim(Term, Term, Term),
    FoldTypeIntro(Term),
    FoldIntro(Term),
    FoldElim(Term),
    CapturesListTypeIntro(usize),
    CapturesListIntro(List),
}

/// A captures list: the types of the variables a function captures.
#[derive(Debug, PartialEq, Eq, Hash)]
pub enum List {
    Cons(Term, Term),
    Nil,
}

/// A term: its inner node and its optional type annotation.
#[derive(Debug, PartialEq, Eq, Hash)]
pub struct Term(pub Box<InnerTerm>, pub Option<Box<Term>>);

impl Clone for Term {
    fn clone(&self) -> (res: Self)
        ensures
            res == *self,
        decreases self,
    {
        let inner = Box::new((*self.0).clone());
        let ann = match &self.1 {
            Some(t) => Some(Box::new((**t).clone())),
            None => None,
        };
        Term(inner, ann)
    }
}

impl Clone for List {
    fn clone(&self) -> (res: Self)
        ensures
            res == *self,
        decreases self,
    {
        match self {
            List::Cons(h, t) => List::Cons(h.clone(), t.clone()),
            List::Nil => List::Nil,
        }
    }
}

impl Clone for InnerTerm {
    fn clone(&self) -> (res: Self)
        ensures
            res == *self,
        decreases self,
    {
        match self {
            InnerTerm::TypeTypeIntro(l, u) => InnerTerm::TypeTypeIntro(*l, *u),
            InnerTerm::Var(i) => InnerTerm::Var(*i),
            InnerTerm::Rec(t) => InnerTerm::Rec(t.clone()),
            InnerTerm::FunctionTypeIntro(a, b, c) => InnerTerm::FunctionTypeIntro(a.clone(), b.clone(), c.clone()),
            InnerTerm::FunctionIntro(t) => InnerTerm::FunctionIntro(t.clone()),
            InnerTerm::FunctionElim(a, b) => InnerTerm::FunctionElim(a.clone(), b.clone()),
            InnerTerm::PairTypeIntro(a, b) => InnerTerm::PairTypeIntro(a.clone(), b.clone()),
            InnerTerm::PairIntro(a, b) => InnerTerm::PairIntro(a.clone(), b.clone()),
            InnerTerm::PairElim(a, b) => InnerTerm::PairElim(a.clone(), b.clone()),
            InnerTerm::VoidTypeIntro => InnerTerm::VoidTypeIntro,
            InnerTerm::UnitTypeIntro => InnerTerm::UnitTypeIntro,
            InnerTerm::UnitIntro => InnerTerm::UnitIntro,
            InnerTerm::DoubTypeIntro => InnerTerm::DoubTypeIntro,
            InnerTerm::DoubIntro(d) => InnerTerm::DoubIntro(*d),
            InnerTerm::DoubElim(a, b, c) => InnerTerm::DoubElim(a.clone(), b.clone(), c.clone()),
            InnerTerm::FoldTypeIntro(t) => InnerTerm::FoldTypeIntro(t.clone()),
            InnerTerm::FoldIntro(t) => InnerTerm::FoldIntro(t.clone()),
            InnerTerm::FoldElim(t) => InnerTerm::FoldElim(t.clone()),
            InnerTerm::CapturesListTypeIntro(l) => InnerTerm::CapturesListTypeIntro(*l),
            InnerTerm::CapturesListIntro(l) => InnerTerm::CapturesListIntro(l.clone()),
        }
    }
}

} // verus!
