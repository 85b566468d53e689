//! Evaluation helpers on terms: shifting free variables and substituting the
//! definitions that a context holds.

use vstd::prelude::*;
use crate::lang::{Term, InnerTerm, List};
use crate::context::{Context, ContextEntry};

verus! {

/// `cutoff + n`, held at `usize::MAX`.
pub open spec fn bump(cutoff: usize, n: usize) -> usize {
    if cutoff + n > usize::MAX { usize::MAX } else { (cutoff + n) as usize }
}

/// The term `t` with every free variable (an index at or above `cutoff`)
/// moved by `amount`, wrapping around the range of `usize`.
///
/// Binders: `Rec`, `FunctionIntro` and both halves of `PairTypeIntro` bind one
/// variable, the output type of `FunctionTypeIntro` binds one, and the body of
/// `PairElim` binds two.
pub open spec fn shift_term(t: Term, cutoff: usize, amount: isize) -> Term
    decreases t,
{
    let inner = match *t.0 {
        InnerTerm::Var(i) => if i >= cutoff {
            InnerTerm::Var(i.wrapping_add_signed(amount))
        } else {
            InnerTerm::Var(i)
        },
        InnerTerm::Rec(x) => InnerTerm::Rec(shift_term(x, bump(cutoff, 1), amount)),
        InnerTerm::FunctionTypeIntro(c, i, o) => InnerTerm::FunctionTypeIntro(
            shift_term(c, cutoff, amount),
            shift_term(i, cutoff, amount),
            shift_term(o, bump(cutoff, 1), amount),
        ),
        InnerTerm::FunctionIntro(b) => InnerTerm::FunctionIntro(shift_term(b, bump(cutoff, 1), amount)),
        InnerTerm::FunctionElim(a, b) => InnerTerm::FunctionElim(
            shift_term(a, cutoff, amount),
            shift_term(b, cutoff, amount),
        ),
        InnerTerm::PairTypeIntro(a, b) => InnerTerm::PairTypeIntro(
            shift_term(a, bump(cutoff, 1), amount),
            shift_term(b, bump(cutoff, 1), amount),
        ),
        InnerTerm::PairIntro(a, b) => InnerTerm::PairIntro(
            shift_term(a, cutoff, amount),
            shift_term(b, cutoff, amount),
        ),
        InnerTerm::PairElim(d, b) => InnerTerm::PairElim(
            shift_term(d, cutoff, amount),
            shift_term(b, bump(cutoff, 2), amount),
        ),
        InnerTerm::DoubElim(d, b1, b2) => InnerTerm::DoubElim(
            shift_term(d, cutoff, amount),
            shift_term(b1, cutoff, amount),
            shift_term(b2, cutoff, amount),
        ),
        InnerTerm::FoldTypeIntro(x) => InnerTerm::FoldTypeIntro(shift_term(x, cutoff, amount)),
        InnerTerm::FoldIntro(x) => InnerTerm::FoldIntro(shift_term(x, cutoff, amount)),
        InnerTerm::FoldElim(x) => InnerTerm::FoldElim(shift_term(x, cutoff, amount)),
        InnerTerm::CapturesListIntro(List::Cons(h, tl)) => InnerTerm::CapturesListIntro(
            List::Cons(shift_term(h, cutoff, amount), shift_term(tl, cutoff, amount)),
        ),
        other => other,
    };
    let ann = match t.1 {
        Some(a) => Some(Box::new(shift_term(*a, cutoff, amount))),
        None => None,
    };
    Term(Box::new(inner), ann)
}

/// Shifting by zero changes nothing.
pub proof fn lemma_shift_by_zero(t: Term, cutoff: usize)
    ensures
        shift_term(t, cutoff, 0) == t,
    decreases t,
{
    match t.1 {
        Some(a) => lemma_shift_by_zero(*a, cutoff),
        None => {},
    }
    match *t.0 {
        InnerTerm::Rec(x) => lemma_shift_by_zero(x, bump(cutoff, 1)),
        InnerTerm::FunctionTypeIntro(c, i, o) => {
            lemma_shift_by_zero(c, cutoff);
            lemma_shift_by_zero(i, cutoff);
            lemma_shift_by_zero(o, bump(cutoff, 1));
        },
        InnerTerm::FunctionIntro(b) => lemma_shift_by_zero(b, bump(cutoff, 1)),
        InnerTerm::FunctionElim(a, b) => {
            lemma_shift_by_zero(a, cutoff);
            lemma_shift_by_zero(b, cutoff);
        },
        InnerTerm::PairTypeIntro(a, b) => {
            lemma_shift_by_zero(a, bump(cutoff, 1));
            lemma_shift_by_zero(b, bump(cutoff, 1));
        },
        InnerTerm::PairIntro(a, b) => {
            lemma_shift_by_zero(a, cutoff);
            lemma_shift_by_zero(b, cutoff);
        },
        InnerTerm::PairElim(d, b) => {
            lemma_shift_by_zero(d, cutoff);
            lemma_shift_by_zero(b, bump(cutoff, 2));
        },
        InnerTerm::DoubElim(d, b1, b2) => {
            lemma_shift_by_zero(d, cutoff);
            lemma_shift_by_zero(b1, cutoff);
            lemma_shift_by_zero(b2, cutoff);
        },
        InnerTerm::FoldTypeIntro(x) => lemma_shift_by_zero(x, cutoff),
        InnerTerm::FoldIntro(x) => lemma_shift_by_zero(x, cutoff),
        InnerTerm::FoldElim(x) => lemma_shift_by_zero(x, cutoff),
        InnerTerm::CapturesListIntro(List::Cons(h, tl)) => {
            lemma_shift_by_zero(h, cutoff);
            lemma_shift_by_zero(tl, cutoff);
        },
        _ => {},
    }
    assert(shift_term(t, cutoff, 0).0 == t.0);
    assert(shift_term(t, cutoff, 0).1 == t.1);
}

/// Moves every free variable of `term` (an index at or above `cutoff`) by `amount`.
pub fn shift(term: &Term, cutoff: usize, amount: isize) -> (res: Term)
    ensures
        res == shift_term(*term, cutoff, amount),
    decreases term,
{
    let c1 = cutoff.saturating_add(1);
    let inner = match &*term.0 {
        InnerTerm::Var(i) => if *i >= cutoff {
            InnerTerm::Var(i.wrapping_add_signed(amount))
        } else {
            InnerTerm::Var(*i)
        },
        InnerTerm::Rec(x) => InnerTerm::Rec(shift(x, c1, amount)),
        InnerTerm::FunctionTypeIntro(c, i, o) => InnerTerm::FunctionTypeIntro(
            shift(c, cutoff, amount),
            shift(i, cutoff, amount),
            shift(o, c1, amount),
        ),
        InnerTerm::FunctionIntro(b) => InnerTerm::FunctionIntro(shift(b, c1, amount)),
        InnerTerm::FunctionElim(a, b) => InnerTerm::FunctionElim(
            shift(a, cutoff, amount),
            shift(b, cutoff, amount),
        ),
        InnerTerm::PairTypeIntro(a, b) => InnerTerm::PairTypeIntro(
            shift(a, c1, amount),
            shift(b, c1, amount),
        ),
        InnerTerm::PairIntro(a, b) => InnerTerm::PairIntro(
            shift(a, cutoff, amount),
            shift(b, cutoff, amount),
        ),
        InnerTerm::PairElim(d, b) => InnerTerm::PairElim(
            shift(d, cutoff, amount),
            shift(b, cutoff.saturating_add(2), amount),
        ),
        InnerTerm::DoubElim(d, b1, b2) => InnerTerm::DoubElim(
            shift(d, cutoff, amount),
            shift(b1, cutoff, amount),
            shift(b2, cutoff, amount),
        ),
        InnerTerm::FoldTypeIntro(x) => InnerTerm::FoldTypeIntro(shift(x, cutoff, amount)),
        InnerTerm::FoldIntro(x) => InnerTerm::FoldIntro(shift(x, cutoff, amount)),
        InnerTerm::FoldElim(x) => InnerTerm::FoldElim(shift(x, cutoff, amount)),
        InnerTerm::CapturesListIntro(List::Cons(h, tl)) => InnerTerm::CapturesListIntro(
            List::Cons(shift(h, cutoff, amount), shift(tl, cutoff, amount)),
        ),
        other => other.clone(),
    };
    let ann = match &term.1 {
        Some(a) => Some(Box::new(shift(a, cutoff, amount))),
        None => None,
    };
    Term(Box::new(inner), ann)
}

/// The definition that `m` holds for the variable `i` seen under `depth` binders.
pub open spec fn def_for(m: Map<usize, ContextEntry>, depth: usize, i: usize) -> Option<Term> {
    if i >= depth && m.contains_key((i - depth) as usize) {
        m[(i - depth) as usize].def
    } else {
        None
    }
}

/// The term `t` with every free variable that `m` defines replaced by its
/// definition, moved over the binders it is put under. Definitions are put in
/// once: what they contain is not substituted again.
pub open spec fn subst_term(t: Term, depth: usize, m: Map<usize, ContextEntry>) -> Term
    decreases t,
{
    let ann = match t.1 {
        Some(a) => Some(Box::new(subst_term(*a, depth, m))),
        None => None,
    };
    match *t.0 {
        InnerTerm::Var(i) => match def_for(m, depth, i) {
            Some(d) => shift_term(d, 0, depth as isize),
            None => Term(Box::new(InnerTerm::Var(i)), ann),
        },
        InnerTerm::Rec(x) => Term(Box::new(InnerTerm::Rec(subst_term(x, bump(depth, 1), m))), ann),
        InnerTerm::FunctionTypeIntro(c, i, o) => Term(Box::new(InnerTerm::FunctionTypeIntro(
            subst_term(c, depth, m),
            subst_term(i, depth, m),
            subst_term(o, bump(depth, 1), m),
        )), ann),
        InnerTerm::FunctionIntro(b) => Term(Box::new(InnerTerm::FunctionIntro(subst_term(b, bump(depth, 1), m))), ann),
        InnerTerm::FunctionElim(a, b) => Term(Box::new(InnerTerm::FunctionElim(
            subst_term(a, depth, m),
            subst_term(b, depth, m),
        )), ann),
        InnerTerm::PairTypeIntro(a, b) => Term(Box::new(InnerTerm::PairTypeIntro(
            subst_term(a, bump(depth, 1), m),
            subst_term(b, bump(depth, 1), m),
        )), ann),
        InnerTerm::PairIntro(a, b) => Term(Box::new(InnerTerm::PairIntro(
            subst_term(a, depth, m),
            subst_term(b, depth, m),
        )), ann),
        InnerTerm::PairElim(d, b) => Term(Box::new(InnerTerm::PairElim(
            subst_term(d, depth, m),
            subst_term(b, bump(depth, 2), m),
        )), ann),
        InnerTerm::DoubElim(d, b1, b2) => Term(Box::new(InnerTerm::DoubElim(
            subst_term(d, depth, m),
            subst_term(b1, depth, m),
            subst_term(b2, depth, m),
        )), ann),
        InnerTerm::FoldTypeIntro(x) => Term(Box::new(InnerTerm::FoldTypeIntro(subst_term(x, depth, m))), ann),
        InnerTerm::FoldIntro(x) => Term(Box::new(InnerTerm::FoldIntro(subst_term(x, depth, m))), ann),
        InnerTerm::FoldElim(x) => Term(Box::new(InnerTerm::FoldElim(subst_term(x, depth, m))), ann),
        InnerTerm::CapturesListIntro(List::Cons(h, tl)) => Term(Box::new(InnerTerm::CapturesListIntro(
            List::Cons(subst_term(h, depth, m), subst_term(tl, depth, m)),
        )), ann),
        other => Term(Box::new(other), ann),
    }
}

fn subst(term: &Term, depth: usize, context: &Context) -> (res: Term)
    ensures
        res == subst_term(*term, depth, context@),
    decreases term,
{
    let ann = match &term.1 {
        Some(a) => Some(Box::new(subst(a, depth, context))),
        None => None,
    };
    let d1 = depth.saturating_add(1);
    match &*term.0 {
        InnerTerm::Var(i) => {
            let found = if *i >= depth { context.get_def(*i - depth) } else { None };
            match found {
                Some(d) => shift(&d, 0, depth as isize),
                None => Term(Box::new(InnerTerm::Var(*i)), ann),
            }
        },
        InnerTerm::Rec(x) => Term(Box::new(InnerTerm::Rec(subst(x, d1, context))), ann),
        InnerTerm::FunctionTypeIntro(c, i, o) => Term(Box::new(InnerTerm::FunctionTypeIntro(
            subst(c, depth, context),
            subst(i, depth, context),
            subst(o, d1, context),
        )), ann),
        InnerTerm::FunctionIntro(b) => Term(Box::new(InnerTerm::FunctionIntro(subst(b, d1, context))), ann),
        InnerTerm::FunctionElim(a, b) => Term(Box::new(InnerTerm::FunctionElim(
            subst(a, depth, context),
            subst(b, depth, context),
        )), ann),
        InnerTerm::PairTypeIntro(a, b) => Term(Box::new(InnerTerm::PairTypeIntro(
            subst(a, d1, context),
            subst(b, d1, context),
        )), ann),
        InnerTerm::PairIntro(a, b) => Term(Box::new(InnerTerm::PairIntro(
            subst(a, depth, context),
            subst(b, depth, context),
        )), ann),
        InnerTerm::PairElim(d, b) => Term(Box::new(InnerTerm::PairElim(
            subst(d, depth, context),
            subst(b, depth.saturating_add(2), context),
        )), ann),
        InnerTerm::DoubElim(d, b1, b2) => Term(Box::new(InnerTerm::DoubElim(
            subst(d, depth, context),
            subst(b1, depth, context),
            subst(b2, depth, context),
        )), ann),
        InnerTerm::FoldTypeIntro(x) => Term(Box::new(InnerTerm::FoldTypeIntro(subst(x, depth, context))), ann),
        InnerTerm::FoldIntro(x) => Term(Box::new(InnerTerm::FoldIntro(subst(x, depth, context))), ann),
        InnerTerm::FoldElim(x) => Term(Box::new(InnerTerm::FoldElim(subst(x, depth, context))), ann),
        InnerTerm::CapturesListIntro(List::Cons(h, tl)) => Term(Box::new(InnerTerm::CapturesListIntro(
            List::Cons(subst(h, depth, context), subst(tl, depth, context)),
        )), ann),
        other => Term(Box::new(other.clone()), ann),
    }
}

/// Replaces every free variable of `term` that `context` defines by its definition.
pub fn normalize(term: &Term, context: &Context) -> (res: Term)
    ensures
        res == subst_term(*term, 0, context@),
{
    subst(term, 0, context)
}

} // verus!
