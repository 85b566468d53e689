//! The type checker of the core language.

use vstd::prelude::*;
use crate::lang::{Term, InnerTerm, List, Usage};
use crate::context::{Context, ContextEntry, ContextEntryKind, can_add, with_map, inc_map, shift_map, inc_fits, update_fits, update_map};
use crate::eval::{shift_term, subst_term, shift, normalize};

verus! {

/// What went wrong at a term. For the `Expected...` errors, think of a
/// universe `U` standing for the expected kind of type: the error is then a
/// `MismatchedTypes { exp_type: U, giv_type: ... }`.
#[derive(Debug)]
pub enum InnerError {
    MismatchedTypes { exp_type: Term, giv_type: Term },
    NonexistentVar { index: usize },
    ExpectedOfTypeType { min_level: usize, giv_type: Term },
    ExpectedOfFunctionType { giv_type: Term },
    ExpectedOfPairType { giv_type: Term },
    ExpectedOfEnumType { giv_type: Term },
    ExpectedOfFoldType { giv_type: Term },
    ExpectedOfCapturesListType { min_level: usize, giv_type: Term },
    ExpectedOfUnitType { giv_type: Term },
    MismatchedUsage { var_index: usize, exp_usage: (usize, usize), giv_usage: (usize, usize) },
    UniqueTypeInSharedType,
    ExpectedOfSharedTypeType,
    UnmentionedFreeVars { caps_list: Vec<Term>, unmentioned_vars: Vec<Term> },
    /// The term carries no type annotation, so it has no type to check.
    MissingTypeAnn,
}

/// An `InnerError` with its lists taken as sequences.
pub enum InnerErrorView {
    MismatchedTypes { exp_type: Term, giv_type: Term },
    NonexistentVar { index: usize },
    ExpectedOfTypeType { min_level: usize, giv_type: Term },
    ExpectedOfFunctionType { giv_type: Term },
    ExpectedOfPairType { giv_type: Term },
    ExpectedOfEnumType { giv_type: Term },
    ExpectedOfFoldType { giv_type: Term },
    ExpectedOfCapturesListType { min_level: usize, giv_type: Term },
    ExpectedOfUnitType { giv_type: Term },
    MismatchedUsage { var_index: usize, exp_usage: (usize, usize), giv_usage: (usize, usize) },
    UniqueTypeInSharedType,
    ExpectedOfSharedTypeType,
    UnmentionedFreeVars { caps_list: Seq<Term>, unmentioned_vars: Seq<Term> },
    MissingTypeAnn,
}

impl View for InnerError {
    type V = InnerErrorView;

    open spec fn view(&self) -> InnerErrorView {
        match self {
            InnerError::MismatchedTypes { exp_type, giv_type } => InnerErrorView::MismatchedTypes { exp_type: *exp_type, giv_type: *giv_type },
            InnerError::NonexistentVar { index } => InnerErrorView::NonexistentVar { index: *index },
            InnerError::ExpectedOfTypeType { min_level, giv_type } => InnerErrorView::ExpectedOfTypeType { min_level: *min_level, giv_type: *giv_type },
            InnerError::ExpectedOfFunctionType { giv_type } => InnerErrorView::ExpectedOfFunctionType { giv_type: *giv_type },
            InnerError::ExpectedOfPairType { giv_type } => InnerErrorView::ExpectedOfPairType { giv_type: *giv_type },
            InnerError::ExpectedOfEnumType { giv_type } => InnerErrorView::ExpectedOfEnumType { giv_type: *giv_type },
            InnerError::ExpectedOfFoldType { giv_type } => InnerErrorView::ExpectedOfFoldType { giv_type: *giv_type },
            InnerError::ExpectedOfCapturesListType { min_level, giv_type } => InnerErrorView::ExpectedOfCapturesListType { min_level: *min_level, giv_type: *giv_type },
            InnerError::ExpectedOfUnitType { giv_type } => InnerErrorView::ExpectedOfUnitType { giv_type: *giv_type },
            InnerError::MismatchedUsage { var_index, exp_usage, giv_usage } => InnerErrorView::MismatchedUsage { var_index: *var_index, exp_usage: *exp_usage, giv_usage: *giv_usage },
            InnerError::UniqueTypeInSharedType => InnerErrorView::UniqueTypeInSharedType,
            InnerError::ExpectedOfSharedTypeType => InnerErrorView::ExpectedOfSharedTypeType,
            InnerError::UnmentionedFreeVars { caps_list, unmentioned_vars } => InnerErrorView::UnmentionedFreeVars { caps_list: caps_list@, unmentioned_vars: unmentioned_vars@ },
            InnerError::MissingTypeAnn => InnerErrorView::MissingTypeAnn,
        }
    }
}

/// A type error: the term it is about, the context it was checked in, and what went wrong.
#[derive(Debug)]
pub struct Error<'a> {
    term: &'a Term,
    context: Context,
    error: InnerError,
}

/// An `Error` as plain values.
pub struct ErrorView {
    pub term: Term,
    pub context: Map<usize, ContextEntry>,
    pub error: InnerErrorView,
}

impl<'a> View for Error<'a> {
    type V = ErrorView;

    closed spec fn view(&self) -> ErrorView {
        ErrorView { term: *self.term, context: self.context@, error: self.error@ }
    }
}

/// The error at `term` in `context` saying `error`.
pub open spec fn err_at(term: Term, context: Map<usize, ContextEntry>, error: InnerErrorView) -> ErrorView {
    ErrorView { term, context, error }
}

impl<'a> Error<'a> {
    pub fn new(term: &'a Term, context: Context, error: InnerError) -> (res: Error<'a>)
        ensures
            res@ == err_at(*term, context@, error@),
    {
        Error { term, context, error }
    }

    /// The term the error is about.
    pub fn term(&self) -> (res: &Term)
        ensures
            *res == self@.term,
    {
        self.term
    }

    /// What went wrong.
    pub fn error(&self) -> (res: &InnerError)
        ensures
            res@ == self@.error,
    {
        &self.error
    }
}

/// The outcome of a check: a value, or every error found.
pub type CheckResult<'a, U> = Result<U, Vec<Error<'a>>>;

/// The views of a sequence of errors.
pub open spec fn errs_view<'a>(es: Seq<Error<'a>>) -> Seq<ErrorView> {
    es.map_values(|e: Error<'a>| e@)
}

/// A check's outcome as plain values.
pub open spec fn res_view<'a>(r: CheckResult<'a, ()>) -> Result<(), Seq<ErrorView>> {
    match r {
        Ok(_) => Ok(()),
        Err(es) => Err(errs_view(es@)),
    }
}

pub proof fn lemma_errs_view_add<'a>(a: Seq<Error<'a>>, b: Seq<Error<'a>>)
    ensures
        errs_view(a + b) == errs_view(a) + errs_view(b),
{
    assert(errs_view(a + b) =~= errs_view(a) + errs_view(b));
}

/// The errors a check reports: none when it succeeded.
pub open spec fn errs_of<'a, U>(r: CheckResult<'a, U>) -> Seq<Error<'a>> {
    match r {
        Ok(_) => Seq::<Error<'a>>::empty(),
        Err(errs) => errs@,
    }
}

/// The errors of all the checks in `rs`, in order.
pub open spec fn all_errs<'a, U>(rs: Seq<CheckResult<'a, U>>) -> Seq<Error<'a>>
    decreases rs.len(),
{
    if rs.len() == 0 {
        Seq::empty()
    } else {
        all_errs(rs.drop_last()) + errs_of(rs.last())
    }
}

/// Appends the errors of `this_check`, if it failed, to `errors`.
pub fn push_check<'a, U>(errors: &mut Vec<Error<'a>>, this_check: CheckResult<'a, U>)
    ensures
        final(errors)@ == old(errors)@ + errs_of(this_check),
{
    match this_check {
        Ok(_) => {
            assert(old(errors)@ + Seq::<Error<'a>>::empty() =~= old(errors)@);
        },
        Err(errs) => {
            let mut errs = errs;
            errors.append(&mut errs);
        },
    }
}

/// Pushing the outcomes of any number of checks, in order, onto an empty
/// error list gives their errors concatenated in order; that list is empty
/// (so `wrap_checks` gives `Ok`) exactly when every check succeeded or
/// failed with no error.
pub proof fn lemma_push_checks_then_wrap<'a, U>(rs: Seq<CheckResult<'a, U>>, lists: Seq<Seq<Error<'a>>>)
    requires
        lists.len() == rs.len() + 1,
        lists[0] == Seq::<Error<'a>>::empty(),
        forall|i: int| 0 <= i < rs.len() ==> #[trigger] lists[i + 1] == lists[i] + errs_of(rs[i]),
    ensures
        lists.last() == all_errs(rs),
        (all_errs(rs).len() == 0) <==> (forall|i: int| 0 <= i < rs.len() ==> #[trigger] errs_of(rs[i]).len() == 0),
    decreases rs.len(),
{
    if rs.len() == 0 {
    } else {
        let n = rs.len() - 1;
        let rs0 = rs.drop_last();
        let lists0 = lists.drop_last();
        assert forall|i: int| 0 <= i < rs0.len() implies #[trigger] lists0[i + 1] == lists0[i] + errs_of(rs0[i]) by {
            assert(lists[i + 1] == lists[i] + errs_of(rs[i]));
        }
        lemma_push_checks_then_wrap(rs0, lists0);
        assert(lists[n + 1] == lists[n] + errs_of(rs[n]));
        if all_errs(rs).len() == 0 {
            assert forall|i: int| 0 <= i < rs.len() implies #[trigger] errs_of(rs[i]).len() == 0 by {
                if i < n {
                    assert(rs0[i] == rs[i]);
                }
            }
        }
        if forall|i: int| 0 <= i < rs.len() ==> #[trigger] errs_of(rs[i]).len() == 0 {
            assert forall|i: int| 0 <= i < rs0.len() implies #[trigger] errs_of(rs0[i]).len() == 0 by {
                assert(rs0[i] == rs[i]);
                assert(errs_of(rs[i]).len() == 0);
            }
            assert(errs_of(rs[n]).len() == 0);
        }
    }
}

/// `Ok` when there are no errors, else all of them.
pub fn wrap_checks<'a>(errors: Vec<Error<'a>>) -> (res: CheckResult<'a, ()>)
    ensures
        errors@.len() > 0 ==> res == Err::<(), Vec<Error<'a>>>(errors),
        errors@.len() == 0 ==> res is Ok,
{
    if errors.len() > 0 {
        Err(errors)
    } else {
        Ok(())
    }
}

/// The term `t` with every type annotation, at every depth, removed.
pub open spec fn erase_anns(t: Term) -> Term
    decreases t,
{
    let inner = match *t.0 {
        InnerTerm::Rec(x) => InnerTerm::Rec(erase_anns(x)),
        InnerTerm::FunctionTypeIntro(c, i, o) => InnerTerm::FunctionTypeIntro(erase_anns(c), erase_anns(i), erase_anns(o)),
        InnerTerm::FunctionIntro(b) => InnerTerm::FunctionIntro(erase_anns(b)),
        InnerTerm::FunctionElim(a, b) => InnerTerm::FunctionElim(erase_anns(a), erase_anns(b)),
        InnerTerm::PairTypeIntro(a, b) => InnerTerm::PairTypeIntro(erase_anns(a), erase_anns(b)),
        InnerTerm::PairIntro(a, b) => InnerTerm::PairIntro(erase_anns(a), erase_anns(b)),
        InnerTerm::PairElim(a, b) => InnerTerm::PairElim(erase_anns(a), erase_anns(b)),
        InnerTerm::DoubElim(d, a, b) => InnerTerm::DoubElim(erase_anns(d), erase_anns(a), erase_anns(b)),
        InnerTerm::FoldTypeIntro(x) => InnerTerm::FoldTypeIntro(erase_anns(x)),
        InnerTerm::FoldIntro(x) => InnerTerm::FoldIntro(erase_anns(x)),
        InnerTerm::FoldElim(x) => InnerTerm::FoldElim(erase_anns(x)),
        InnerTerm::CapturesListIntro(List::Cons(h, tl)) => InnerTerm::CapturesListIntro(List::Cons(erase_anns(h), erase_anns(tl))),
        other => other,
    };
    Term(Box::new(inner), None)
}

/// Term equality as the checker sees it: the two terms are the same once
/// every type annotation is removed.
pub open spec fn terms_eq(t1: Term, t2: Term) -> bool {
    erase_anns(t1) == erase_anns(t2)
}

/// The number of nodes of a term, annotations included.
pub open spec fn term_size(t: Term) -> nat
    decreases t,
{
    let ann = match t.1 {
        Some(a) => term_size(*a),
        None => 0,
    };
    1 + ann + match *t.0 {
        InnerTerm::Rec(x) => term_size(x),
        InnerTerm::FunctionTypeIntro(c, i, o) => term_size(c) + term_size(i) + term_size(o),
        InnerTerm::FunctionIntro(b) => term_size(b),
        InnerTerm::FunctionElim(a, b) => term_size(a) + term_size(b),
        InnerTerm::PairTypeIntro(a, b) => term_size(a) + term_size(b),
        InnerTerm::PairIntro(a, b) => term_size(a) + term_size(b),
        InnerTerm::PairElim(a, b) => term_size(a) + term_size(b),
        InnerTerm::DoubElim(d, a, b) => term_size(d) + term_size(a) + term_size(b),
        InnerTerm::FoldTypeIntro(x) => term_size(x),
        InnerTerm::FoldIntro(x) => term_size(x),
        InnerTerm::FoldElim(x) => term_size(x),
        InnerTerm::CapturesListIntro(List::Cons(h, tl)) => term_size(h) + term_size(tl),
        _ => 0,
    }
}

/// Checks whether two terms are equal, disregarding type annotations.
pub fn is_terms_eq(type1: &Term, type2: &Term) -> (res: bool)
    ensures
        res == terms_eq(*type1, *type2),
    decreases type1,
{
    let res = match (&*type1.0, &*type2.0) {
        (InnerTerm::TypeTypeIntro(level1, usage1), InnerTerm::TypeTypeIntro(level2, usage2)) =>
            *level1 == *level2 && *usage1 == *usage2,
        (InnerTerm::Var(index1), InnerTerm::Var(index2)) => *index1 == *index2,
        (InnerTerm::Rec(inner_term1), InnerTerm::Rec(inner_term2)) => is_terms_eq(inner_term1, inner_term2),
        (InnerTerm::FunctionTypeIntro(caps_list1, in_type1, out_type1), InnerTerm::FunctionTypeIntro(caps_list2, in_type2, out_type2)) =>
            is_terms_eq(caps_list1, caps_list2) && is_terms_eq(in_type1, in_type2) && is_terms_eq(out_type1, out_type2),
        (InnerTerm::FunctionIntro(body1), InnerTerm::FunctionIntro(body2)) => is_terms_eq(body1, body2),
        (InnerTerm::FunctionElim(abs1, arg1), InnerTerm::FunctionElim(abs2, arg2)) =>
            is_terms_eq(abs1, abs2) && is_terms_eq(arg1, arg2),
        (InnerTerm::PairTypeIntro(fst_type1, snd_type1), InnerTerm::PairTypeIntro(fst_type2, snd_type2)) =>
            is_terms_eq(fst_type1, fst_type2) && is_terms_eq(snd_type1, snd_type2),
        (InnerTerm::PairIntro(fst1, snd1), InnerTerm::PairIntro(fst2, snd2)) =>
            is_terms_eq(fst1, fst2) && is_terms_eq(snd1, snd2),
        (InnerTerm::PairElim(discrim1, body1), InnerTerm::PairElim(discrim2, body2)) =>
            is_terms_eq(discrim1, discrim2) && is_terms_eq(body1, body2),
        (InnerTerm::VoidTypeIntro, InnerTerm::VoidTypeIntro) => true,
        (InnerTerm::UnitTypeIntro, InnerTerm::UnitTypeIntro) => true,
        (InnerTerm::UnitIntro, InnerTerm::UnitIntro) => true,
        (InnerTerm::DoubTypeIntro, InnerTerm::DoubTypeIntro) => true,
        (InnerTerm::DoubIntro(label1), InnerTerm::DoubIntro(label2)) => *label1 == *label2,
        (InnerTerm::DoubElim(discrim1, branch11, branch21), InnerTerm::DoubElim(discrim2, branch12, branch22)) =>
            is_terms_eq(discrim1, discrim2) && is_terms_eq(branch11, branch12) && is_terms_eq(branch21, branch22),
        (InnerTerm::FoldTypeIntro(inner_type1), InnerTerm::FoldTypeIntro(inner_type2)) => is_terms_eq(inner_type1, inner_type2),
        (InnerTerm::FoldIntro(inner_term1), InnerTerm::FoldIntro(inner_term2)) => is_terms_eq(inner_term1, inner_term2),
        (InnerTerm::FoldElim(inner_term1), InnerTerm::FoldElim(inner_term2)) => is_terms_eq(inner_term1, inner_term2),
        (InnerTerm::CapturesListTypeIntro(level1), InnerTerm::CapturesListTypeIntro(level2)) => *level1 == *level2,
        (InnerTerm::CapturesListIntro(List::Cons(head1, tail1)), InnerTerm::CapturesListIntro(List::Cons(head2, tail2))) =>
            is_terms_eq(head1, head2) && is_terms_eq(tail1, tail2),
        (InnerTerm::CapturesListIntro(List::Nil), InnerTerm::CapturesListIntro(List::Nil)) => true,
        _ => false,
    };
    res
}

/// The fewest and most times the variable `idx` is used in `t`, annotations
/// included. The uses in the input type of a function type are multiplied by
/// those of variable 0 in its output type, starting from zero bounds, so that
/// product is always `(0, 0)`.
pub open spec fn count_spec(t: Term, idx: int) -> (nat, nat)
    decreases t,
{
    let here: (nat, nat) = match *t.0 {
        InnerTerm::Var(i) => if i == idx { (1, 1) } else { (0, 0) },
        InnerTerm::Rec(x) => count_spec(x, idx + 1),
        InnerTerm::FunctionTypeIntro(c, _, o) => add_bounds(count_spec(c, idx), count_spec(o, idx + 1)),
        InnerTerm::FunctionIntro(b) => count_spec(b, idx + 1),
        InnerTerm::PairTypeIntro(a, b) => add_bounds(count_spec(a, idx + 1), count_spec(b, idx + 1)),
        InnerTerm::PairIntro(a, b) => add_bounds(count_spec(a, idx), count_spec(b, idx)),
        InnerTerm::PairElim(d, b) => add_bounds(count_spec(d, idx), count_spec(b, idx + 2)),
        InnerTerm::DoubElim(d, b1, b2) => add_bounds(add_bounds(count_spec(b1, idx), count_spec(b2, idx)), count_spec(d, idx)),
        InnerTerm::FoldTypeIntro(x) => count_spec(x, idx),
        InnerTerm::FoldIntro(x) => count_spec(x, idx),
        InnerTerm::FoldElim(x) => count_spec(x, idx),
        InnerTerm::CapturesListIntro(List::Cons(h, tl)) => add_bounds(count_spec(h, idx), count_spec(tl, idx)),
        _ => (0, 0),
    };
    match t.1 {
        Some(a) => add_bounds(here, count_spec(*a, idx)),
        None => here,
    }
}

/// Componentwise sum of two bounds.
pub open spec fn add_bounds(a: (nat, nat), b: (nat, nat)) -> (nat, nat) {
    (a.0 + b.0, a.1 + b.1)
}

/// Counting the uses of `idx` in `t` meets no function application (which it
/// does not handle), shifts no index past `usize::MAX`, and every count fits in
/// a `usize`.
pub open spec fn count_ok(t: Term, idx: int) -> bool
    decreases t,
{
    let here = match *t.0 {
        InnerTerm::Rec(x) => idx + 1 <= usize::MAX && count_ok(x, idx + 1),
        InnerTerm::FunctionTypeIntro(c, i, o) =>
            count_ok(c, idx) && count_ok(i, idx) && count_ok(o, 0) && idx + 1 <= usize::MAX && count_ok(o, idx + 1),
        InnerTerm::FunctionIntro(b) => idx + 1 <= usize::MAX && count_ok(b, idx + 1),
        InnerTerm::FunctionElim(_, _) => false,
        InnerTerm::PairTypeIntro(a, b) => idx + 1 <= usize::MAX && count_ok(a, idx + 1) && count_ok(b, idx + 1),
        InnerTerm::PairIntro(a, b) => count_ok(a, idx) && count_ok(b, idx),
        InnerTerm::PairElim(d, b) => count_ok(d, idx) && idx + 2 <= usize::MAX && count_ok(b, idx + 2),
        InnerTerm::DoubElim(d, b1, b2) => count_ok(b1, idx) && count_ok(b2, idx) && count_ok(d, idx),
        InnerTerm::FoldTypeIntro(x) => count_ok(x, idx),
        InnerTerm::FoldIntro(x) => count_ok(x, idx),
        InnerTerm::FoldElim(x) => count_ok(x, idx),
        InnerTerm::CapturesListIntro(List::Cons(h, tl)) => count_ok(h, idx) && count_ok(tl, idx),
        _ => true,
    };
    &&& here
    &&& match t.1 {
        Some(a) => count_ok(*a, idx),
        None => true,
    }
    &&& count_spec(t, idx).0 <= usize::MAX
    &&& count_spec(t, idx).1 <= usize::MAX
}

/// The componentwise sum of two bounds, or `None` when it leaves `usize`.
fn add_checked(a: (usize, usize), b: (usize, usize)) -> (res: Option<(usize, usize)>)
    ensures
        res is Some <==> (a.0 + b.0 <= usize::MAX && a.1 + b.1 <= usize::MAX),
        res matches Some(r) ==> r.0 == a.0 + b.0 && r.1 == a.1 + b.1,
{
    if a.0 > usize::MAX - b.0 || a.1 > usize::MAX - b.1 {
        None
    } else {
        Some((a.0 + b.0, a.1 + b.1))
    }
}

/// The product of two bounds, accumulated from zero.
fn mul_bounds(a: (usize, usize), b: (usize, usize)) -> (res: (usize, usize))
    ensures
        res == (0usize, 0usize),
{
    let mut min: usize = 0;
    let mut max: usize = 0;
    min = min * a.0;
    max = max * a.1;
    min = min * b.0;
    max = max * b.1;
    (min, max)
}

/// The fewest and most uses of `target_index` in `term`, or `None` exactly
/// when counting them is not handled (`count_ok` fails): the term holds a
/// function application, an index would pass `usize::MAX`, or a count does
/// not fit in a `usize`.
pub fn try_count_uses(term: &Term, target_index: usize) -> (res: Option<(usize, usize)>)
    ensures
        res is Some <==> count_ok(*term, target_index as int),
        res matches Some(c) ==> c.0 == count_spec(*term, target_index as int).0
            && c.1 == count_spec(*term, target_index as int).1,
    decreases term,
{
    let t = target_index;
    let here: (usize, usize) = match &*term.0 {
        InnerTerm::Var(index) => if *index == t { (1, 1) } else { (0, 0) },
        InnerTerm::Rec(inner_term) => {
            if t == usize::MAX {
                return None;
            }
            match try_count_uses(inner_term, t + 1) {
                Some(c) => c,
                None => return None,
            }
        },
        InnerTerm::FunctionTypeIntro(caps_list, in_type, out_type) => {
            let c = match try_count_uses(caps_list, t) {
                Some(c) => c,
                None => return None,
            };
            let i = match try_count_uses(in_type, t) {
                Some(c) => c,
                None => return None,
            };
            let o0 = match try_count_uses(out_type, 0) {
                Some(c) => c,
                None => return None,
            };
            if t == usize::MAX {
                return None;
            }
            let o = match try_count_uses(out_type, t + 1) {
                Some(c) => c,
                None => return None,
            };
            let m = mul_bounds(i, o0);
            match add_checked(c, m) {
                Some(cm) => match add_checked(cm, o) {
                    Some(r) => r,
                    None => return None,
                },
                None => return None,
            }
        },
        InnerTerm::FunctionIntro(body) => {
            if t == usize::MAX {
                return None;
            }
            match try_count_uses(body, t + 1) {
                Some(c) => c,
                None => return None,
            }
        },
        InnerTerm::FunctionElim(_, _) => return None,
        InnerTerm::PairTypeIntro(fst_type, snd_type) => {
            if t == usize::MAX {
                return None;
            }
            let a = match try_count_uses(fst_type, t + 1) {
                Some(c) => c,
                None => return None,
            };
            let b = match try_count_uses(snd_type, t + 1) {
                Some(c) => c,
                None => return None,
            };
            match add_checked(a, b) {
                Some(r) => r,
                None => return None,
            }
        },
        InnerTerm::PairIntro(fst, snd) => {
            let a = match try_count_uses(fst, t) {
                Some(c) => c,
                None => return None,
            };
            let b = match try_count_uses(snd, t) {
                Some(c) => c,
                None => return None,
            };
            match add_checked(a, b) {
                Some(r) => r,
                None => return None,
            }
        },
        InnerTerm::PairElim(discrim, body) => {
            let a = match try_count_uses(discrim, t) {
                Some(c) => c,
                None => return None,
            };
            if t > usize::MAX - 2 {
                return None;
            }
            let b = match try_count_uses(body, t + 2) {
                Some(c) => c,
                None => return None,
            };
            match add_checked(a, b) {
                Some(r) => r,
                None => return None,
            }
        },
        InnerTerm::DoubElim(discrim, branch1, branch2) => {
            let b1 = match try_count_uses(branch1, t) {
                Some(c) => c,
                None => return None,
            };
            let b2 = match try_count_uses(branch2, t) {
                Some(c) => c,
                None => return None,
            };
            let d = match try_count_uses(discrim, t) {
                Some(c) => c,
                None => return None,
            };
            match add_checked(b1, b2) {
                Some(bb) => match add_checked(bb, d) {
                    Some(r) => r,
                    None => return None,
                },
                None => return None,
            }
        },
        InnerTerm::FoldTypeIntro(inner_type) => match try_count_uses(inner_type, t) {
            Some(c) => c,
            None => return None,
        },
        InnerTerm::FoldIntro(inner_term) => match try_count_uses(inner_term, t) {
            Some(c) => c,
            None => return None,
        },
        InnerTerm::FoldElim(folded_term) => match try_count_uses(folded_term, t) {
            Some(c) => c,
            None => return None,
        },
        InnerTerm::CapturesListIntro(List::Cons(head, tail)) => {
            let a = match try_count_uses(head, t) {
                Some(c) => c,
                None => return None,
            };
            let b = match try_count_uses(tail, t) {
                Some(c) => c,
                None => return None,
            };
            match add_checked(a, b) {
                Some(r) => r,
                None => return None,
            }
        },
        _ => (0, 0),
    };
    match &term.1 {
        Some(ann) => match try_count_uses(ann, t) {
            Some(a) => add_checked(here, a),
            None => None,
        },
        None => Some(here),
    }
}

/// The parts of `t` whose uses of a variable are counted, each with the
/// number of variables bound between `t` and it: the immediate sub-terms and
/// the annotation. A function type's input type is left out (its uses are
/// multiplied by a count that starts at zero), and so are the parts of a
/// function application, whose uses are not counted.
pub open spec fn counted_parts(t: Term) -> Seq<(Term, nat)> {
    let own: Seq<(Term, nat)> = match *t.0 {
        InnerTerm::Rec(x) => seq![(x, 1nat)],
        InnerTerm::FunctionTypeIntro(c, _, o) => seq![(c, 0nat), (o, 1nat)],
        InnerTerm::FunctionIntro(b) => seq![(b, 1nat)],
        InnerTerm::PairTypeIntro(a, b) => seq![(a, 1nat), (b, 1nat)],
        InnerTerm::PairIntro(a, b) => seq![(a, 0nat), (b, 0nat)],
        InnerTerm::PairElim(d, b) => seq![(d, 0nat), (b, 2nat)],
        InnerTerm::DoubElim(d, b1, b2) => seq![(d, 0nat), (b1, 0nat), (b2, 0nat)],
        InnerTerm::FoldTypeIntro(x) => seq![(x, 0nat)],
        InnerTerm::FoldIntro(x) => seq![(x, 0nat)],
        InnerTerm::FoldElim(x) => seq![(x, 0nat)],
        InnerTerm::CapturesListIntro(List::Cons(h, tl)) => seq![(h, 0nat), (tl, 0nat)],
        _ => Seq::empty(),
    };
    match t.1 {
        Some(a) => own.push((*a, 0nat)),
        None => own,
    }
}

/// One use when `t` is the variable `idx` itself, else none.
pub open spec fn own_use(t: Term, idx: int) -> (nat, nat) {
    match *t.0 {
        InnerTerm::Var(i) => if i == idx { (1nat, 1nat) } else { (0nat, 0nat) },
        _ => (0nat, 0nat),
    }
}

/// The uses of `idx` summed over `parts`, each counted with `idx` raised by
/// the variables bound above that part.
pub open spec fn parts_uses(parts: Seq<(Term, nat)>, idx: int) -> (nat, nat)
    decreases parts.len(),
{
    if parts.len() == 0 {
        (0nat, 0nat)
    } else {
        let p = parts.last();
        let c = count_spec(p.0, idx + p.1);
        let r = parts_uses(parts.drop_last(), idx);
        (r.0 + c.0, r.1 + c.1)
    }
}

/// Every use is counted once: the uses of `idx` in `t` are the use that `t`
/// itself is, plus the uses in each of its counted parts (the discriminant and
/// branches of an elimination, both halves of a pair, the annotation, ...),
/// with the index raised by the variables bound above the part.
pub proof fn lemma_count_sums_parts(t: Term, idx: int)
    ensures
        count_spec(t, idx) == ({
            let o = own_use(t, idx);
            let p = parts_uses(counted_parts(t), idx);
            (o.0 + p.0, o.1 + p.1)
        }),
{
    reveal_with_fuel(parts_uses, 5);
    let own: Seq<(Term, nat)> = match *t.0 {
        InnerTerm::Rec(x) => seq![(x, 1nat)],
        InnerTerm::FunctionTypeIntro(c, _, o) => seq![(c, 0nat), (o, 1nat)],
        InnerTerm::FunctionIntro(b) => seq![(b, 1nat)],
        InnerTerm::PairTypeIntro(a, b) => seq![(a, 1nat), (b, 1nat)],
        InnerTerm::PairIntro(a, b) => seq![(a, 0nat), (b, 0nat)],
        InnerTerm::PairElim(d, b) => seq![(d, 0nat), (b, 2nat)],
        InnerTerm::DoubElim(d, b1, b2) => seq![(d, 0nat), (b1, 0nat), (b2, 0nat)],
        InnerTerm::FoldTypeIntro(x) => seq![(x, 0nat)],
        InnerTerm::FoldIntro(x) => seq![(x, 0nat)],
        InnerTerm::FoldElim(x) => seq![(x, 0nat)],
        InnerTerm::CapturesListIntro(List::Cons(h, tl)) => seq![(h, 0nat), (tl, 0nat)],
        _ => Seq::empty(),
    };
    match t.1 {
        Some(a) => {
            assert(counted_parts(t) == own.push((*a, 0nat)));
            assert(own.push((*a, 0nat)).drop_last() == own);
        },
        None => {},
    }
    if own.len() >= 1 {
        assert(own.drop_last().len() == own.len() - 1);
    }
    if own.len() >= 2 {
        assert(own.drop_last().drop_last().len() == own.len() - 2);
    }
    if own.len() == 3 {
        assert(own.drop_last().drop_last().drop_last() =~= Seq::<(Term, nat)>::empty());
    }
}

/// The fewest uses of a variable never exceed the most.
pub proof fn lemma_count_min_le_max(t: Term, idx: int)
    ensures
        count_spec(t, idx).0 <= count_spec(t, idx).1,
    decreases t,
{
    match *t.0 {
        InnerTerm::Rec(x) => lemma_count_min_le_max(x, idx + 1),
        InnerTerm::FunctionTypeIntro(c, _, o) => {
            lemma_count_min_le_max(c, idx);
            lemma_count_min_le_max(o, idx + 1);
        },
        InnerTerm::FunctionIntro(b) => lemma_count_min_le_max(b, idx + 1),
        InnerTerm::PairTypeIntro(a, b) => {
            lemma_count_min_le_max(a, idx + 1);
            lemma_count_min_le_max(b, idx + 1);
        },
        InnerTerm::PairIntro(a, b) => {
            lemma_count_min_le_max(a, idx);
            lemma_count_min_le_max(b, idx);
        },
        InnerTerm::PairElim(d, b) => {
            lemma_count_min_le_max(d, idx);
            lemma_count_min_le_max(b, idx + 2);
        },
        InnerTerm::DoubElim(d, b1, b2) => {
            lemma_count_min_le_max(d, idx);
            lemma_count_min_le_max(b1, idx);
            lemma_count_min_le_max(b2, idx);
        },
        InnerTerm::FoldTypeIntro(x) => lemma_count_min_le_max(x, idx),
        InnerTerm::FoldIntro(x) => lemma_count_min_le_max(x, idx),
        InnerTerm::FoldElim(x) => lemma_count_min_le_max(x, idx),
        InnerTerm::CapturesListIntro(List::Cons(h, tl)) => {
            lemma_count_min_le_max(h, idx);
            lemma_count_min_le_max(tl, idx);
        },
        _ => {},
    }
    match t.1 {
        Some(a) => lemma_count_min_le_max(*a, idx),
        None => {},
    }
}

/// The fewest and most times the variable `target_index` is used in `term`.
pub fn count_uses(term: &Term, target_index: usize) -> (res: (usize, usize))
    requires
        count_ok(*term, target_index as int),
    ensures
        res.0 == count_spec(*term, target_index as int).0,
        res.1 == count_spec(*term, target_index as int).1,
{
    match try_count_uses(term, target_index) {
        Some(c) => c,
        // unreachable: `count_ok` holds
        None => (0, 0),
    }
}

/// Whether a variable occurs anywhere in `t`, annotations included.
pub open spec fn contains_var(t: Term) -> bool
    decreases t,
{
    let here = match *t.0 {
        InnerTerm::Var(_) => true,
        InnerTerm::Rec(x) => contains_var(x),
        InnerTerm::FunctionTypeIntro(c, i, o) => contains_var(c) || contains_var(i) || contains_var(o),
        InnerTerm::FunctionIntro(b) => contains_var(b),
        InnerTerm::FunctionElim(a, b) => contains_var(a) || contains_var(b),
        InnerTerm::PairTypeIntro(a, b) => contains_var(a) || contains_var(b),
        InnerTerm::PairIntro(a, b) => contains_var(a) || contains_var(b),
        InnerTerm::PairElim(a, b) => contains_var(a) || contains_var(b),
        InnerTerm::DoubElim(d, a, b) => contains_var(d) || contains_var(a) || contains_var(b),
        InnerTerm::FoldTypeIntro(x) => contains_var(x),
        InnerTerm::FoldIntro(x) => contains_var(x),
        InnerTerm::FoldElim(x) => contains_var(x),
        InnerTerm::CapturesListIntro(List::Cons(h, tl)) => contains_var(h) || contains_var(tl),
        _ => false,
    };
    here || match t.1 {
        Some(a) => contains_var(*a),
        None => false,
    }
}

/// Whether a variable occurs anywhere in `term`, annotations included.
fn has_var(term: &Term) -> (res: bool)
    ensures
        res == contains_var(*term),
    decreases term,
{
    let here = match &*term.0 {
        InnerTerm::Var(_) => true,
        InnerTerm::Rec(x) => has_var(x),
        InnerTerm::FunctionTypeIntro(c, i, o) => has_var(c) || has_var(i) || has_var(o),
        InnerTerm::FunctionIntro(b) => has_var(b),
        InnerTerm::FunctionElim(a, b) => has_var(a) || has_var(b),
        InnerTerm::PairTypeIntro(a, b) => has_var(a) || has_var(b),
        InnerTerm::PairIntro(a, b) => has_var(a) || has_var(b),
        InnerTerm::PairElim(a, b) => has_var(a) || has_var(b),
        InnerTerm::DoubElim(d, a, b) => has_var(d) || has_var(a) || has_var(b),
        InnerTerm::FoldTypeIntro(x) => has_var(x),
        InnerTerm::FoldIntro(x) => has_var(x),
        InnerTerm::FoldElim(x) => has_var(x),
        InnerTerm::CapturesListIntro(List::Cons(h, tl)) => has_var(h) || has_var(tl),
        _ => false,
    };
    here || match &term.1 {
        Some(a) => has_var(a),
        None => false,
    }
}

fn collapse(a: Vec<(usize, Term)>, b: Vec<(usize, Term)>) -> (res: Vec<(usize, Term)>)
    ensures
        res@ == a@ + b@,
{
    let mut a = a;
    let mut b = b;
    a.append(&mut b);
    a
}

fn free_vars_inner(term: &Term) -> (res: Vec<(usize, Term)>)
    requires
        !contains_var(*term),
    ensures
        res@.len() == 0,
    decreases term,
{
    let ann = match &term.1 {
        Some(a) => free_vars_inner(a),
        None => Vec::new(),
    };
    let here = match &*term.0 {
        InnerTerm::Rec(inner_term) => free_vars_inner(inner_term),
        InnerTerm::FunctionTypeIntro(caps_list, in_type, out_type) =>
            collapse(collapse(free_vars_inner(caps_list), free_vars_inner(in_type)), free_vars_inner(out_type)),
        InnerTerm::FunctionIntro(body) => free_vars_inner(body),
        InnerTerm::FunctionElim(abs, arg) => collapse(free_vars_inner(abs), free_vars_inner(arg)),
        InnerTerm::PairTypeIntro(fst_type, snd_type) => collapse(free_vars_inner(fst_type), free_vars_inner(snd_type)),
        InnerTerm::PairIntro(fst, snd) => collapse(free_vars_inner(fst), free_vars_inner(snd)),
        InnerTerm::PairElim(discrim, body) => collapse(free_vars_inner(discrim), free_vars_inner(body)),
        InnerTerm::DoubElim(discrim, branch1, branch2) =>
            collapse(collapse(free_vars_inner(branch1), free_vars_inner(branch2)), free_vars_inner(discrim)),
        InnerTerm::FoldTypeIntro(inner_type) => free_vars_inner(inner_type),
        InnerTerm::FoldIntro(inner_term) => free_vars_inner(inner_term),
        InnerTerm::FoldElim(folded_term) => free_vars_inner(folded_term),
        InnerTerm::CapturesListIntro(List::Cons(head, tail)) => collapse(free_vars_inner(head), free_vars_inner(tail)),
        _ => Vec::new(),
    };
    collapse(here, ann)
}

/// The free variables of `term`, each with its type. A variable anywhere in
/// `term` is not handled, so `term` must hold none; the result is then empty.
pub fn get_free_vars(term: &Term) -> (res: Vec<(usize, Term)>)
    requires
        !contains_var(*term),
    ensures
        res@.len() == 0,
{
    free_vars_inner(term)
}

/// How often values of the type `t` may be used: what the universe annotating
/// `t` says, and `Shared` when `t` is not annotated with a universe.
pub open spec fn usage_spec(t: Term) -> Usage {
    match t.1 {
        Some(a) => match *a.0 {
            InnerTerm::TypeTypeIntro(_, u) => u,
            _ => Usage::Shared,
        },
        None => Usage::Shared,
    }
}

/// How often values of the type `term_type` may be used.
pub fn usage(term_type: &Term, context: &Context) -> (res: Usage)
    ensures
        res == usage_spec(*term_type),
{
    match &term_type.1 {
        Some(a) => match &*a.0 {
            InnerTerm::TypeTypeIntro(_, u) => *u,
            _ => Usage::Shared,
        },
        None => Usage::Shared,
    }
}

/// The type of a term: its annotation, or an error when it has none.
pub open spec fn type_spec(t: Term, context: Map<usize, ContextEntry>) -> Result<Term, Seq<ErrorView>> {
    match t.1 {
        Some(a) => Ok(*a),
        None => Err(seq![err_at(t, context, InnerErrorView::MissingTypeAnn)]),
    }
}

/// The type of `term` in `context`: its annotation.
pub fn type_of<'a>(term: &'a Term, context: &Context) -> (res: CheckResult<'a, Term>)
    ensures
        match res {
            Ok(t) => type_spec(*term, context@) == Ok::<Term, Seq<ErrorView>>(t),
            Err(es) => type_spec(*term, context@) == Err::<Term, Seq<ErrorView>>(errs_view(es@)),
        },
{
    match &term.1 {
        Some(a) => Ok((**a).clone()),
        None => {
            let mut es = Vec::new();
            es.push(Error::new(term, context.clone(), InnerError::MissingTypeAnn));
            assert(errs_view(es@) =~= seq![err_at(*term, context@, InnerErrorView::MissingTypeAnn)]);
            Err(es)
        },
    }
}

/// The outcome of a check that may not be handled, taken by its view.
pub open spec fn opt_res_view<'a>(r: Option<CheckResult<'a, ()>>) -> Option<Result<(), Seq<ErrorView>>> {
    match r {
        Some(r) => Some(res_view(r)),
        None => None,
    }
}

/// A check that failed with the single error `e`.
pub open spec fn fail1(e: ErrorView) -> Result<(), Seq<ErrorView>> {
    Err(seq![e])
}

/// Checking the usage of the variable bound by `binder`: values of a `Unique`
/// type must be used exactly once in `body`; `None` where the count fails.
pub open spec fn check_usage_spec(binder: Term, term_type: Term, body: Term, target_index: usize, context: Map<usize, ContextEntry>) -> Option<Result<(), Seq<ErrorView>>> {
    match usage_spec(term_type) {
        Usage::Shared => Some(Ok(())),
        Usage::Unique => if !count_ok(body, 0) {
            None
        } else if count_spec(body, 0) == (1nat, 1nat) {
            Some(Ok(()))
        } else {
            let c = count_spec(body, 0);
            Some(fail1(err_at(binder, context, InnerErrorView::MismatchedUsage {
                var_index: target_index,
                exp_usage: (1, 1),
                giv_usage: (c.0 as usize, c.1 as usize),
            })))
        },
    }
}

/// Checking the usage of the variable bound by `binder`, or `None` exactly
/// when `check_usage_spec` is `None` (the uses cannot be counted).
fn try_check_usage<'a>(binder: &'a Term, term_type: Term, body: &'a Term, target_index: usize, context: Context) -> (res: Option<CheckResult<'a, ()>>)
    ensures
        opt_res_view(res) == check_usage_spec(*binder, term_type, *body, target_index, context@),
{
    match usage(&term_type, &context) {
        Usage::Shared => Some(Ok(())),
        Usage::Unique => match try_count_uses(body, 0) {
            None => None,
            Some(c) => if c.0 == 1 && c.1 == 1 {
                Some(Ok(()))
            } else {
                let mut es = Vec::new();
                let ghost cv = context@;
                es.push(Error::new(binder, context, InnerError::MismatchedUsage {
                    var_index: target_index,
                    exp_usage: (1, 1),
                    giv_usage: c,
                }));
                assert(errs_view(es@) =~= seq![err_at(*binder, cv, InnerErrorView::MismatchedUsage {
                    var_index: target_index,
                    exp_usage: (1, 1),
                    giv_usage: (c.0, c.1),
                })]);
                Some(Err(es))
            },
        },
    }
}

/// Checks that a variable of type `term_type` bound by `binder` is used as its
/// type allows in `body`.
pub fn check_usage<'a>(binder: &'a Term, term_type: Term, body: &'a Term, target_index: usize, context: Context) -> (res: CheckResult<'a, ()>)
    requires
        check_usage_spec(*binder, term_type, *body, target_index, context@) is Some,
    ensures
        Some(res_view(res)) == check_usage_spec(*binder, term_type, *body, target_index, context@),
        usage_spec(term_type) == Usage::Shared ==> res is Ok,
        usage_spec(term_type) == Usage::Unique
            ==> (res is Ok <==> (count_spec(*body, 0).0 == 1 && count_spec(*body, 0).1 == 1)),
{
    proof { lemma_usage_exactly_once(*binder, term_type, *body, target_index, context@); }
    match try_check_usage(binder, term_type, body, target_index, context) {
        Some(r) => r,
        // unreachable: the uses can be counted
        None => Ok(()),
    }
}

/// Checks a type on its own; every type passes for now.
pub fn check_type<'a>(type_term: &'a Term, context: Context) -> (res: CheckResult<'a, ()>)
    ensures
        res is Ok,
{
    Ok(())
}

/// Adds the outcome of a sub-check to the errors found so far; `None` when
/// the sub-check does not return.
pub open spec fn then(acc: Seq<ErrorView>, r: Option<Result<(), Seq<ErrorView>>>) -> Option<Seq<ErrorView>> {
    match r {
        Some(Ok(_)) => Some(acc),
        Some(Err(es)) => Some(acc + es),
        None => None,
    }
}

/// `Ok` when no error was found, else all of them.
pub open spec fn wrap(errs: Seq<ErrorView>) -> Result<(), Seq<ErrorView>> {
    if errs.len() > 0 { Err(errs) } else { Ok(()) }
}

/// The context under `amount` new binders.
pub open spec fn inc_shift(m: Map<usize, ContextEntry>, amount: isize) -> Map<usize, ContextEntry> {
    shift_map(inc_map(m, amount), amount)
}

/// `m` with the declaration `t` added at `index`.
pub open spec fn with_dec_map(m: Map<usize, ContextEntry>, index: usize, t: Term) -> Map<usize, ContextEntry> {
    with_map(m, index, ContextEntryKind::Dec, t)
}

/// The larger of two levels.
pub open spec fn max_usize(a: usize, b: usize) -> usize {
    if a >= b { a } else { b }
}

/// The universe at `level` with usage `u`, unannotated.
pub open spec fn universe(level: usize, u: Usage) -> Term {
    Term(Box::new(InnerTerm::TypeTypeIntro(level, u)), None)
}

/// Checking `term` against the expected type `exp_type` in `context`: `Ok`, or
/// every error found; `None` on the inputs the checker does not handle (see
/// the cases below).
pub open spec fn check_spec(term: Term, exp_type: Term, context: Map<usize, ContextEntry>) -> Option<Result<(), Seq<ErrorView>>>
    decreases term_size(term), 2nat,
{
    match type_spec(term, context) {
        Err(es) => Some(Err(es)),
        Ok(ty) => if !terms_eq(ty, exp_type) {
            Some(fail1(err_at(term, context, InnerErrorView::MismatchedTypes { exp_type, giv_type: ty })))
        } else {
            check_node_spec(term, ty, context)
        },
    }
}

/// Checking a term whose annotation `ty` matched the expected type.
pub open spec fn check_node_spec(term: Term, ty: Term, context: Map<usize, ContextEntry>) -> Option<Result<(), Seq<ErrorView>>>
    decreases term_size(term), 1nat,
{
    match *term.0 {
        InnerTerm::TypeTypeIntro(level, _) => match *ty.0 {
            InnerTerm::TypeTypeIntro(ty_level, _) if ty_level > level => Some(Ok(())),
            _ => if level < usize::MAX {
                Some(fail1(err_at(term, context, InnerErrorView::ExpectedOfTypeType { min_level: (level + 1) as usize, giv_type: ty })))
            } else {
                None
            },
        },
        InnerTerm::Var(index) => {
            let found = if context.contains_key(index) { context[index].dec } else { None };
            match found {
                Some(var_type) => if terms_eq(var_type, ty) {
                    Some(Ok(()))
                } else {
                    Some(fail1(err_at(term, context, InnerErrorView::MismatchedTypes { exp_type: ty, giv_type: var_type })))
                },
                None => Some(fail1(err_at(term, context, InnerErrorView::NonexistentVar { index }))),
            }
        },
        InnerTerm::Rec(_) => check_rec_spec(term, ty, context),
        InnerTerm::FunctionTypeIntro(_, _, _) => check_fn_type_spec(term, ty, context),
        InnerTerm::FunctionIntro(_) => check_fn_spec(term, ty, context),
        InnerTerm::FunctionElim(_, _) => check_app_spec(term, ty, context),
        InnerTerm::PairTypeIntro(_, _) => check_pair_type_spec(term, ty, context),
        InnerTerm::PairIntro(_, _) => check_pair_spec(term, ty, context),
        InnerTerm::PairElim(_, _) => check_pair_elim_spec(term, ty, context),
        InnerTerm::VoidTypeIntro => expect_universe(term, ty, context),
        InnerTerm::UnitTypeIntro => expect_universe(term, ty, context),
        InnerTerm::UnitIntro => match *ty.0 {
            InnerTerm::UnitTypeIntro => Some(Ok(())),
            _ => Some(fail1(err_at(term, context, InnerErrorView::ExpectedOfUnitType { giv_type: ty }))),
        },
        InnerTerm::DoubTypeIntro => expect_universe(term, ty, context),
        InnerTerm::DoubIntro(_) => Some(Ok(())),
        InnerTerm::DoubElim(_, _, _) => check_doub_elim_spec(term, ty, context),
        InnerTerm::FoldTypeIntro(_) => check_fold_type_spec(term, ty, context),
        InnerTerm::FoldIntro(inner) => match *ty.0 {
            InnerTerm::FoldTypeIntro(inner_type) => check_spec(inner, inner_type, context),
            _ => Some(fail1(err_at(term, context, InnerErrorView::ExpectedOfFoldType { giv_type: ty }))),
        },
        InnerTerm::FoldElim(folded) => match type_spec(folded, context) {
            Err(es) => Some(Err(es)),
            Ok(folded_ty) => if terms_eq(folded_ty, ty) {
                Some(Ok(()))
            } else {
                Some(fail1(err_at(term, context, InnerErrorView::MismatchedTypes { exp_type: ty, giv_type: folded_ty })))
            },
        },
        InnerTerm::CapturesListTypeIntro(level) => match *ty.0 {
            InnerTerm::TypeTypeIntro(u_level, _) => if u_level > level {
                Some(Ok(()))
            } else if level < usize::MAX {
                Some(fail1(err_at(term, context, InnerErrorView::ExpectedOfTypeType { min_level: (level + 1) as usize, giv_type: ty })))
            } else {
                None
            },
            _ => Some(fail1(err_at(term, context, InnerErrorView::ExpectedOfTypeType { min_level: 1, giv_type: ty }))),
        },
        InnerTerm::CapturesListIntro(_) => check_caps_list_spec(term, ty, context),
    }
}

/// A type former whose annotation must be a universe.
pub open spec fn expect_universe(term: Term, ty: Term, context: Map<usize, ContextEntry>) -> Option<Result<(), Seq<ErrorView>>> {
    match *ty.0 {
        InnerTerm::TypeTypeIntro(_, _) => Some(Ok(())),
        _ => Some(fail1(err_at(term, context, InnerErrorView::ExpectedOfTypeType { min_level: 0, giv_type: ty }))),
    }
}

/// `Rec(inner)`: `inner` is checked against its own annotation with itself
/// declared at index 0, and its variable must be used as its type allows.
pub open spec fn check_rec_spec(term: Term, ty: Term, context: Map<usize, ContextEntry>) -> Option<Result<(), Seq<ErrorView>>>
    decreases term_size(term), 0nat,
{
    match *term.0 {
        InnerTerm::Rec(inner) => if !inc_fits(context, 1) {
            None
        } else {
            let new_context = inc_shift(context, 1);
            match type_spec(inner, new_context) {
                Err(es) => Some(Err(es)),
                Ok(inner_ty) => if !can_add(new_context, 0, ContextEntryKind::Dec) {
                    None
                } else {
                    match then(Seq::empty(), check_spec(inner, inner_ty, with_dec_map(new_context, 0, inner_ty))) {
                        None => None,
                        Some(e1) => match then(e1, check_usage_spec(term, inner_ty, inner, 0, context)) {
                            None => None,
                            Some(e2) => Some(wrap(e2)),
                        },
                    }
                },
            }
        },
        _ => Some(Ok(())),
    }
}

/// The errors on the levels of a function type once its parts are checked.
pub open spec fn fn_type_level_errors(term: Term, caps: Term, in_t: Term, out_t: Term, caps_ty: Term, in_ty: Term, out_ty: Term, ty: Term, context: Map<usize, ContextEntry>) -> Seq<ErrorView> {
    match (*caps_ty.0, *in_ty.0, *out_ty.0) {
        (InnerTerm::CapturesListTypeIntro(caps_level), InnerTerm::TypeTypeIntro(in_level, _), InnerTerm::TypeTypeIntro(out_level, _)) => {
            let giv_max = max_usize(caps_level, max_usize(in_level, out_level));
            match *ty.0 {
                InnerTerm::TypeTypeIntro(max_level, fn_usage) => if giv_max != max_level {
                    seq![err_at(term, context, InnerErrorView::MismatchedTypes {
                        exp_type: universe(max_level, fn_usage),
                        giv_type: universe(giv_max, fn_usage),
                    })]
                } else {
                    Seq::empty()
                },
                _ => seq![err_at(term, context, InnerErrorView::ExpectedOfTypeType { min_level: giv_max, giv_type: ty })],
            }
        },
        (_, _, InnerTerm::TypeTypeIntro(level, _)) => seq![
            err_at(in_t, context, InnerErrorView::ExpectedOfTypeType { min_level: level, giv_type: in_ty }),
            err_at(caps, context, InnerErrorView::ExpectedOfCapturesListType { min_level: level, giv_type: caps_ty }),
        ],
        (_, InnerTerm::TypeTypeIntro(level, _), _) => seq![
            err_at(out_t, context, InnerErrorView::ExpectedOfTypeType { min_level: level, giv_type: out_ty }),
            err_at(caps, context, InnerErrorView::ExpectedOfCapturesListType { min_level: level, giv_type: caps_ty }),
        ],
        _ => seq![
            err_at(in_t, context, InnerErrorView::ExpectedOfTypeType { min_level: 0, giv_type: in_ty }),
            err_at(out_t, context, InnerErrorView::ExpectedOfTypeType { min_level: 0, giv_type: out_ty }),
            err_at(caps, context, InnerErrorView::ExpectedOfCapturesListType { min_level: 0, giv_type: caps_ty }),
        ],
    }
}

/// `FunctionTypeIntro(caps, in, out)`: each part is checked against its own
/// annotation (`out` with `in` declared at index 0), the bound variable must be
/// used as its type allows in `out`, and the levels must agree.
pub open spec fn check_fn_type_spec(term: Term, ty: Term, context: Map<usize, ContextEntry>) -> Option<Result<(), Seq<ErrorView>>>
    decreases term_size(term), 0nat,
{
    match *term.0 {
        InnerTerm::FunctionTypeIntro(caps, in_t, out_t) =>
            if !inc_fits(context, 1) || !can_add(inc_shift(context, 1), 0, ContextEntryKind::Dec) {
                None
            } else {
                let out_context = with_dec_map(inc_shift(context, 1), 0, in_t);
                match type_spec(caps, context) {
                    Err(es) => Some(Err(es)),
                    Ok(caps_ty) => match type_spec(in_t, context) {
                        Err(es) => Some(Err(es)),
                        Ok(in_ty) => match type_spec(out_t, out_context) {
                            Err(es) => Some(Err(es)),
                            Ok(out_ty) => match then(Seq::empty(), check_spec(caps, caps_ty, context)) {
                                None => None,
                                Some(e1) => match then(e1, check_spec(in_t, in_ty, context)) {
                                    None => None,
                                    Some(e2) => match then(e2, check_spec(out_t, out_ty, out_context)) {
                                        None => None,
                                        Some(e3) => match then(e3, check_usage_spec(term, in_t, out_t, 0, inc_shift(context, 1))) {
                                            None => None,
                                            Some(e4) => Some(wrap(e4 + fn_type_level_errors(term, caps, in_t, out_t, caps_ty, in_ty, out_ty, ty, context))),
                                        },
                                    },
                                },
                            },
                        },
                    },
                }
            },
        _ => Some(Ok(())),
    }
}

/// `FunctionIntro(body)`: the annotation must be a function type; the body is
/// checked against its output type with the (shifted) input type declared at
/// index 0, and the bound variable must be used as its type allows. Gathering
/// the body's free variables does not handle variables, so a body with one is
/// not handled.
pub open spec fn check_fn_spec(term: Term, ty: Term, context: Map<usize, ContextEntry>) -> Option<Result<(), Seq<ErrorView>>>
    decreases term_size(term), 0nat,
{
    match *term.0 {
        InnerTerm::FunctionIntro(body) => match *ty.0 {
            InnerTerm::FunctionTypeIntro(_, in_t, out_t) =>
                if !inc_fits(context, 1) || !can_add(inc_shift(context, 1), 0, ContextEntryKind::Dec) {
                    None
                } else {
                    let body_context = with_dec_map(inc_shift(context, 1), 0, shift_term(in_t, 0, 1));
                    match then(Seq::empty(), check_spec(body, out_t, body_context)) {
                        None => None,
                        Some(e1) => match then(e1, check_usage_spec(term, in_t, body, 0, inc_shift(context, 1))) {
                            None => None,
                            Some(e2) => if contains_var(body) { None } else { Some(wrap(e2)) },
                        },
                    }
                },
            _ => Some(fail1(err_at(term, context, InnerErrorView::ExpectedOfFunctionType { giv_type: ty }))),
        },
        _ => Some(Ok(())),
    }
}

/// `FunctionElim(abs, arg)`: `abs` is checked against its annotation, which
/// must be a function type whose input type `arg` is checked against.
pub open spec fn check_app_spec(term: Term, ty: Term, context: Map<usize, ContextEntry>) -> Option<Result<(), Seq<ErrorView>>>
    decreases term_size(term), 0nat,
{
    match *term.0 {
        InnerTerm::FunctionElim(abs, arg) => match type_spec(abs, context) {
            Err(es) => Some(Err(es)),
            Ok(abs_ty) => match then(Seq::empty(), check_spec(abs, abs_ty, context)) {
                None => None,
                Some(e1) => match *abs_ty.0 {
                    InnerTerm::FunctionTypeIntro(_, in_t, _) => match then(e1, check_spec(arg, in_t, context)) {
                        None => None,
                        Some(e2) => Some(wrap(e2)),
                    },
                    _ => Some(wrap(e1.push(err_at(term, context, InnerErrorView::ExpectedOfFunctionType { giv_type: abs_ty })))),
                },
            },
        },
        _ => Some(Ok(())),
    }
}

/// The errors on the levels of a pair type once its parts are checked.
pub open spec fn pair_type_level_errors(term: Term, fst: Term, snd: Term, fst_ty: Term, snd_ty: Term, ty: Term, context: Map<usize, ContextEntry>) -> Seq<ErrorView> {
    match (*fst_ty.0, *snd_ty.0) {
        (InnerTerm::TypeTypeIntro(fst_level, _), InnerTerm::TypeTypeIntro(snd_level, _)) => {
            let m = max_usize(fst_level, snd_level);
            match *ty.0 {
                InnerTerm::TypeTypeIntro(max_level, pair_usage) => if m != max_level {
                    seq![err_at(term, context, InnerErrorView::MismatchedTypes {
                        exp_type: universe(max_level, pair_usage),
                        giv_type: universe(m, pair_usage),
                    })]
                } else {
                    Seq::empty()
                },
                _ => seq![err_at(term, context, InnerErrorView::ExpectedOfTypeType { min_level: m, giv_type: ty })],
            }
        },
        (_, InnerTerm::TypeTypeIntro(level, _)) =>
            seq![err_at(fst, context, InnerErrorView::ExpectedOfTypeType { min_level: level, giv_type: fst_ty })],
        (InnerTerm::TypeTypeIntro(level, _), _) =>
            seq![err_at(snd, context, InnerErrorView::ExpectedOfTypeType { min_level: level, giv_type: snd_ty })],
        _ => seq![
            err_at(fst, context, InnerErrorView::ExpectedOfTypeType { min_level: 0, giv_type: fst_ty }),
            err_at(snd, context, InnerErrorView::ExpectedOfTypeType { min_level: 0, giv_type: snd_ty }),
        ],
    }
}

/// `PairTypeIntro(fst, snd)`: each half is checked against its annotation
/// under two new binders with the other half declared, each bound variable
/// must be used as its type allows in the other half, and the levels must agree.
pub open spec fn check_pair_type_spec(term: Term, ty: Term, context: Map<usize, ContextEntry>) -> Option<Result<(), Seq<ErrorView>>>
    decreases term_size(term), 0nat,
{
    match *term.0 {
        InnerTerm::PairTypeIntro(fst, snd) => match type_spec(fst, context) {
            Err(es) => Some(Err(es)),
            Ok(fst_ty) => if !inc_fits(context, 2) || !can_add(inc_shift(context, 2), 1, ContextEntryKind::Dec) {
                None
            } else {
                match then(Seq::empty(), check_spec(fst, fst_ty, with_dec_map(inc_shift(context, 2), 1, snd))) {
                    None => None,
                    Some(e1) => match type_spec(snd, context) {
                        Err(es) => Some(Err(es)),
                        Ok(snd_ty) => if !can_add(inc_shift(context, 2), 0, ContextEntryKind::Dec) {
                            None
                        } else {
                            match then(e1, check_spec(snd, snd_ty, with_dec_map(inc_shift(context, 2), 0, fst))) {
                                None => None,
                                Some(e2) => match then(e2, check_usage_spec(term, fst, snd, 0, context)) {
                                    None => None,
                                    Some(e3) => match then(e3, check_usage_spec(term, snd, fst, 1, context)) {
                                        None => None,
                                        Some(e4) => Some(wrap(e4 + pair_type_level_errors(term, fst, snd, fst_ty, snd_ty, ty, context))),
                                    },
                                },
                            }
                        },
                    },
                }
            },
        },
        _ => Some(Ok(())),
    }
}

/// `PairIntro(fst, snd)`: the annotation must be a pair type; each half is
/// checked against its half of it under two new binders with the other half's
/// type declared.
pub open spec fn check_pair_spec(term: Term, ty: Term, context: Map<usize, ContextEntry>) -> Option<Result<(), Seq<ErrorView>>>
    decreases term_size(term), 0nat,
{
    match *term.0 {
        InnerTerm::PairIntro(fst, snd) => match *ty.0 {
            InnerTerm::PairTypeIntro(fst_type, snd_type) =>
                if !inc_fits(context, 2) || !can_add(inc_shift(context, 2), 1, ContextEntryKind::Dec)
                    || !can_add(inc_shift(context, 2), 0, ContextEntryKind::Dec) {
                    None
                } else {
                    match then(Seq::empty(), check_spec(fst, fst_type, with_dec_map(inc_shift(context, 2), 1, snd_type))) {
                        None => None,
                        Some(e1) => match then(e1, check_spec(snd, snd_type, with_dec_map(inc_shift(context, 2), 0, fst_type))) {
                            None => None,
                            Some(e2) => Some(wrap(e2)),
                        },
                    }
                },
            _ => Some(fail1(err_at(term, context, InnerErrorView::ExpectedOfPairType { giv_type: ty }))),
        },
        _ => Some(Ok(())),
    }
}

/// `PairElim(discrim, body)`: `discrim` is checked against its annotation,
/// which must be a pair type; `body` is checked against its own annotation
/// under two new binders with the two halves declared, and both bound
/// variables must be used as their types allow.
pub open spec fn check_pair_elim_spec(term: Term, ty: Term, context: Map<usize, ContextEntry>) -> Option<Result<(), Seq<ErrorView>>>
    decreases term_size(term), 0nat,
{
    match *term.0 {
        InnerTerm::PairElim(discrim, body) => match type_spec(discrim, context) {
            Err(es) => Some(Err(es)),
            Ok(discrim_ty) => match then(Seq::empty(), check_spec(discrim, discrim_ty, context)) {
                None => None,
                Some(e1) => match *discrim_ty.0 {
                    InnerTerm::PairTypeIntro(fst_type, snd_type) =>
                        if !inc_fits(context, 2) || !can_add(inc_shift(context, 2), 0, ContextEntryKind::Dec)
                            || !can_add(with_dec_map(inc_shift(context, 2), 0, fst_type), 1, ContextEntryKind::Dec) {
                            None
                        } else {
                            let body_context = with_dec_map(with_dec_map(inc_shift(context, 2), 0, fst_type), 1, snd_type);
                            match type_spec(body, body_context) {
                                Err(es) => Some(Err(es)),
                                Ok(body_ty) => match then(e1, check_spec(body, body_ty, body_context)) {
                                    None => None,
                                    Some(e2) => match then(e2, check_usage_spec(term, fst_type, body, 0, context)) {
                                        None => None,
                                        Some(e3) => match then(e3, check_usage_spec(term, snd_type, body, 1, context)) {
                                            None => None,
                                            Some(e4) => Some(wrap(e4)),
                                        },
                                    },
                                },
                            }
                        },
                    _ => Some(wrap(e1.push(err_at(discrim, context, InnerErrorView::ExpectedOfPairType { giv_type: discrim_ty })))),
                },
            },
        },
        _ => Some(Ok(())),
    }
}

/// The context the branches of a two-way elimination on `discrim` are checked
/// in: when `discrim`, with the context's definitions put in, is a variable,
/// that variable is defined as `discrim` (and `discrim` is put in for it
/// throughout the context); `None` when that cannot be done.
pub open spec fn branch_context_spec(discrim: Term, context: Map<usize, ContextEntry>) -> Option<Map<usize, ContextEntry>> {
    match *subst_term(discrim, 0, context).0 {
        InnerTerm::Var(index) => if update_fits(context, index)
            && can_add(update_map(context, index, discrim), index, ContextEntryKind::Def) {
            Some(with_map(update_map(context, index, discrim), index, ContextEntryKind::Def, discrim))
        } else {
            None
        },
        _ => Some(context),
    }
}

/// `DoubElim(discrim, branch1, branch2)`: `discrim` is checked against its
/// annotation, which must be the two-element type; both branches are checked
/// against this term's type in the branch context.
pub open spec fn check_doub_elim_spec(term: Term, ty: Term, context: Map<usize, ContextEntry>) -> Option<Result<(), Seq<ErrorView>>>
    decreases term_size(term), 0nat,
{
    match *term.0 {
        InnerTerm::DoubElim(discrim, branch1, branch2) => match type_spec(discrim, context) {
            Err(es) => Some(Err(es)),
            Ok(discrim_ty) => match then(Seq::empty(), check_spec(discrim, discrim_ty, context)) {
                None => None,
                Some(e1) => match *discrim_ty.0 {
                    InnerTerm::DoubTypeIntro => match branch_context_spec(discrim, context) {
                        None => None,
                        Some(bc) => match then(e1, check_spec(branch1, ty, bc)) {
                            None => None,
                            Some(e2) => match then(e2, check_spec(branch2, ty, bc)) {
                                None => None,
                                Some(e3) => Some(wrap(e3)),
                            },
                        },
                    },
                    _ => Some(wrap(e1.push(err_at(discrim, context, InnerErrorView::ExpectedOfEnumType { giv_type: discrim_ty })))),
                },
            },
        },
        _ => Some(Ok(())),
    }
}

/// `FoldTypeIntro(inner)`: the annotation must be a universe, and `inner` is
/// checked against its own annotation.
pub open spec fn check_fold_type_spec(term: Term, ty: Term, context: Map<usize, ContextEntry>) -> Option<Result<(), Seq<ErrorView>>>
    decreases term_size(term), 0nat,
{
    match *term.0 {
        InnerTerm::FoldTypeIntro(inner) => match *ty.0 {
            InnerTerm::TypeTypeIntro(_, _) => match type_spec(inner, context) {
                Err(es) => Some(Err(es)),
                Ok(inner_ty) => match then(Seq::empty(), check_spec(inner, inner_ty, context)) {
                    None => None,
                    Some(e1) => Some(wrap(e1)),
                },
            },
            _ => Some(fail1(err_at(term, context, InnerErrorView::ExpectedOfTypeType { min_level: 0, giv_type: ty }))),
        },
        _ => Some(Ok(())),
    }
}

/// `CapturesListIntro(list)`: the annotation must be a captures-list type. A
/// non-empty list is judged by the annotation of its head, which can never be a
/// universe and a captures-list type at once, so it is always an error.
pub open spec fn check_caps_list_spec(term: Term, ty: Term, context: Map<usize, ContextEntry>) -> Option<Result<(), Seq<ErrorView>>> {
    match *term.0 {
        InnerTerm::CapturesListIntro(list) => match *ty.0 {
            InnerTerm::CapturesListTypeIntro(_) => match list {
                List::Cons(head, tail) => match type_spec(head, context) {
                    Err(es) => Some(Err(es)),
                    Ok(head_ty) => Some(wrap(match *head_ty.0 {
                        InnerTerm::TypeTypeIntro(level, _) =>
                            seq![err_at(head, context, InnerErrorView::ExpectedOfCapturesListType { min_level: level, giv_type: head_ty })],
                        InnerTerm::CapturesListTypeIntro(level) =>
                            seq![err_at(tail, context, InnerErrorView::ExpectedOfTypeType { min_level: level, giv_type: head_ty })],
                        _ => seq![
                            err_at(head, context, InnerErrorView::ExpectedOfTypeType { min_level: 0, giv_type: head_ty }),
                            err_at(tail, context, InnerErrorView::ExpectedOfCapturesListType { min_level: 0, giv_type: head_ty }),
                        ],
                    })),
                },
                List::Nil => Some(Ok(())),
            },
            _ => Some(fail1(err_at(term, context, InnerErrorView::ExpectedOfCapturesListType { min_level: 0, giv_type: ty }))),
        },
        _ => Some(Ok(())),
    }
}

fn max(a: usize, b: usize) -> (res: usize)
    ensures
        res == max_usize(a, b),
{
    if a >= b { a } else { b }
}

proof fn lemma_errs_view_empty<'a>(es: Seq<Error<'a>>)
    requires
        es.len() == 0,
    ensures
        errs_view(es) == Seq::<ErrorView>::empty(),
{
    assert(errs_view(es) =~= Seq::<ErrorView>::empty());
}

proof fn lemma_errs_view_push<'a>(old: Seq<Error<'a>>, e: Error<'a>)
    ensures
        errs_view(old.push(e)) == errs_view(old).push(e@),
{
    assert(errs_view(old.push(e)) =~= errs_view(old).push(e@));
}

proof fn lemma_push<'a>(old: Seq<Error<'a>>, r: CheckResult<'a, ()>)
    ensures
        then(errs_view(old), Some(res_view(r))) == Some(errs_view(old + match r {
            Ok(_) => Seq::<Error<'a>>::empty(),
            Err(es) => es@,
        })),
{
    match r {
        Ok(_) => {
            assert(old + Seq::<Error<'a>>::empty() =~= old);
        },
        Err(es) => {
            lemma_errs_view_add(old, es@);
        },
    }
}

/// Adds the outcome of a sub-check to `errors`.
fn add_check<'a>(errors: &mut Vec<Error<'a>>, this_check: CheckResult<'a, ()>)
    ensures
        then(errs_view(old(errors)@), Some(res_view(this_check))) == Some(errs_view(final(errors)@)),
{
    proof { lemma_push(errors@, this_check); }
    push_check(errors, this_check);
}

/// Adds a single error to `errors`.
fn add_error<'a>(errors: &mut Vec<Error<'a>>, e: Error<'a>)
    ensures
        errs_view(final(errors)@) == errs_view(old(errors)@).push(e@),
{
    proof { lemma_errs_view_push(errors@, e); }
    errors.push(e);
}

fn wrap_errors<'a>(errors: Vec<Error<'a>>) -> (res: CheckResult<'a, ()>)
    ensures
        res_view(res) == wrap(errs_view(errors@)),
{
    wrap_checks(errors)
}

/// The check that failed with the single error `error` at `term`.
fn fail<'a>(term: &'a Term, context: Context, error: InnerError) -> (res: CheckResult<'a, ()>)
    ensures
        res_view(res) == fail1(err_at(*term, context@, error@)),
{
    let mut es = Vec::new();
    let e = Error::new(term, context, error);
    es.push(e);
    assert(errs_view(es@) =~= seq![e@]);
    Err(es)
}

fn universe_term(level: usize, u: Usage) -> (res: Term)
    ensures
        res == universe(level, u),
{
    Term(Box::new(InnerTerm::TypeTypeIntro(level, u)), None)
}

/// Checks `term` against the expected type `exp_type` in `context`, which
/// should be checked and in normal form: `Some` with `Ok` or every error
/// found, and `None` exactly on the inputs the checker does not handle (where
/// `check_spec` is `None`): a function body that holds a variable; counting
/// the uses of a variable of a `Unique` type in a body that holds a function
/// application or uses it more than `usize::MAX` times; a universe or
/// captures-list type at level `usize::MAX` that is not well typed; moving a
/// context index out of the range of `isize`; adding a declaration or
/// definition where the context already holds one.
pub fn try_check<'a>(term: &'a Term, exp_type: Term, context: Context) -> (res: Option<CheckResult<'a, ()>>)
    ensures
        opt_res_view(res) == check_spec(*term, exp_type, context@),
    decreases term_size(*term), 2nat,
{
    let type_ann = match type_of(term, &context) {
        Ok(t) => t,
        Err(es) => return Some(Err(es)),
    };
    if !is_terms_eq(&type_ann, &exp_type) {
        return Some(fail(term, context, InnerError::MismatchedTypes { exp_type: exp_type.clone(), giv_type: type_ann.clone() }));
    }
    check_node(term, type_ann, context)
}

/// Checks `term` against the expected type `exp_type` in `context`, which
/// should be checked and in normal form, gathering every error found. The
/// input must be one the checker handles; `try_check` tells which are.
pub fn check<'a>(term: &'a Term, exp_type: Term, context: Context) -> (res: CheckResult<'a, ()>)
    requires
        check_spec(*term, exp_type, context@) is Some,
    ensures
        Some(res_view(res)) == check_spec(*term, exp_type, context@),
{
    match try_check(term, exp_type, context) {
        Some(r) => r,
        // unreachable: the input is handled
        None => Ok(()),
    }
}

fn check_node<'a>(term: &'a Term, type_ann: Term, context: Context) -> (res: Option<CheckResult<'a, ()>>)
    ensures
        opt_res_view(res) == check_node_spec(*term, type_ann, context@),
    decreases term_size(*term), 1nat,
{
    match &*term.0 {
        InnerTerm::TypeTypeIntro(level, _) => match &*type_ann.0 {
            InnerTerm::TypeTypeIntro(type_ann_level, _) if *type_ann_level > *level => Some(Ok(())),
            _ => if *level < usize::MAX {
                Some(fail(term, context, InnerError::ExpectedOfTypeType { min_level: *level + 1, giv_type: type_ann.clone() }))
            } else {
                None
            },
        },
        InnerTerm::Var(index) => match context.get_dec(*index) {
            Some(var_type) => if is_terms_eq(&var_type, &type_ann) {
                Some(Ok(()))
            } else {
                Some(fail(term, context, InnerError::MismatchedTypes { exp_type: type_ann, giv_type: var_type }))
            },
            None => Some(fail(term, context, InnerError::NonexistentVar { index: *index })),
        },
        InnerTerm::Rec(_) => check_rec(term, type_ann, context),
        InnerTerm::FunctionTypeIntro(_, _, _) => check_fn_type(term, type_ann, context),
        InnerTerm::FunctionIntro(_) => check_fn(term, type_ann, context),
        InnerTerm::FunctionElim(_, _) => check_app(term, type_ann, context),
        InnerTerm::PairTypeIntro(_, _) => check_pair_type(term, type_ann, context),
        InnerTerm::PairIntro(_, _) => check_pair(term, type_ann, context),
        InnerTerm::PairElim(_, _) => check_pair_elim(term, type_ann, context),
        InnerTerm::VoidTypeIntro | InnerTerm::UnitTypeIntro | InnerTerm::DoubTypeIntro => match &*type_ann.0 {
            InnerTerm::TypeTypeIntro(_, _) => Some(Ok(())),
            _ => Some(fail(term, context, InnerError::ExpectedOfTypeType { min_level: 0, giv_type: type_ann.clone() })),
        },
        InnerTerm::UnitIntro => match &*type_ann.0 {
            InnerTerm::UnitTypeIntro => Some(Ok(())),
            _ => Some(fail(term, context, InnerError::ExpectedOfUnitType { giv_type: type_ann.clone() })),
        },
        InnerTerm::DoubIntro(_) => Some(Ok(())),
        InnerTerm::DoubElim(_, _, _) => check_doub_elim(term, type_ann, context),
        InnerTerm::FoldTypeIntro(_) => check_fold_type(term, type_ann, context),
        InnerTerm::FoldIntro(inner_term) => match &*type_ann.0 {
            InnerTerm::FoldTypeIntro(inner_type) => try_check(inner_term, inner_type.clone(), context),
            _ => Some(fail(term, context, InnerError::ExpectedOfFoldType { giv_type: type_ann.clone() })),
        },
        InnerTerm::FoldElim(folded_term) => {
            let folded_term_type = match type_of(folded_term, &context) {
                Ok(t) => t,
                Err(es) => return Some(Err(es)),
            };
            if is_terms_eq(&folded_term_type, &type_ann) {
                Some(Ok(()))
            } else {
                Some(fail(term, context, InnerError::MismatchedTypes { exp_type: type_ann.clone(), giv_type: folded_term_type.clone() }))
            }
        },
        InnerTerm::CapturesListTypeIntro(level) => match &*type_ann.0 {
            InnerTerm::TypeTypeIntro(u_level, _) => if *u_level > *level {
                Some(Ok(()))
            } else if *level < usize::MAX {
                Some(fail(term, context, InnerError::ExpectedOfTypeType { min_level: *level + 1, giv_type: type_ann.clone() }))
            } else {
                None
            },
            _ => Some(fail(term, context, InnerError::ExpectedOfTypeType { min_level: 1, giv_type: type_ann.clone() })),
        },
        InnerTerm::CapturesListIntro(_) => check_caps_list(term, type_ann, context),
    }
}

fn check_rec<'a>(term: &'a Term, type_ann: Term, context: Context) -> (res: Option<CheckResult<'a, ()>>)
    ensures
        opt_res_view(res) == check_rec_spec(*term, type_ann, context@),
    decreases term_size(*term), 0nat,
{
    match &*term.0 {
        InnerTerm::Rec(inner_term) => {
            if !context.fits_inc(1) {
                return None;
            }
            let mut errors: Vec<Error<'a>> = Vec::new();
            proof { lemma_errs_view_empty(errors@); }
            let new_context = context.clone().inc_and_shift(1);
            let inner_term_type = match type_of(inner_term, &new_context) {
                Ok(t) => t,
                Err(es) => return Some(Err(es)),
            };
            if new_context.exists_dec(0) {
                return None;
            }
            match try_check(inner_term, inner_term_type.clone(), new_context.with_dec(0, inner_term_type.clone())) {
                Some(r) => add_check(&mut errors, r),
                None => return None,
            }
            match try_check_usage(term, inner_term_type, inner_term, 0, context.clone()) {
                Some(r) => add_check(&mut errors, r),
                None => return None,
            }
            Some(wrap_errors(errors))
        },
        _ => Some(Ok(())),
    }
}

fn fn_type_level_errors_exec<'a>(term: &'a Term, caps_list: &'a Term, in_type: &'a Term, out_type: &'a Term,
    caps_list_type: &Term, in_type_type: &Term, out_type_type: &Term, type_ann: &Term, context: &Context) -> (res: Vec<Error<'a>>)
    ensures
        errs_view(res@) == fn_type_level_errors(*term, *caps_list, *in_type, *out_type, *caps_list_type, *in_type_type, *out_type_type, *type_ann, context@),
{
    let mut errors: Vec<Error<'a>> = Vec::new();
    proof { lemma_errs_view_empty(errors@); }
    match (&*caps_list_type.0, &*in_type_type.0, &*out_type_type.0) {
        (InnerTerm::CapturesListTypeIntro(caps_list_level), InnerTerm::TypeTypeIntro(in_level, _), InnerTerm::TypeTypeIntro(out_level, _)) => {
            let giv_max = max(*caps_list_level, max(*in_level, *out_level));
            match &*type_ann.0 {
                InnerTerm::TypeTypeIntro(max_level, fn_usage) => {
                    if giv_max != *max_level {
                        add_error(&mut errors, Error::new(term, context.clone(), InnerError::MismatchedTypes {
                            exp_type: universe_term(*max_level, *fn_usage),
                            giv_type: universe_term(giv_max, *fn_usage),
                        }));
                    }
                },
                _ => add_error(&mut errors, Error::new(term, context.clone(), InnerError::ExpectedOfTypeType { min_level: giv_max, giv_type: type_ann.clone() })),
            }
        },
        (_, _, InnerTerm::TypeTypeIntro(level, _)) => {
            add_error(&mut errors, Error::new(in_type, context.clone(), InnerError::ExpectedOfTypeType { min_level: *level, giv_type: in_type_type.clone() }));
            add_error(&mut errors, Error::new(caps_list, context.clone(), InnerError::ExpectedOfCapturesListType { min_level: *level, giv_type: caps_list_type.clone() }));
        },
        (_, InnerTerm::TypeTypeIntro(level, _), _) => {
            add_error(&mut errors, Error::new(out_type, context.clone(), InnerError::ExpectedOfTypeType { min_level: *level, giv_type: out_type_type.clone() }));
            add_error(&mut errors, Error::new(caps_list, context.clone(), InnerError::ExpectedOfCapturesListType { min_level: *level, giv_type: caps_list_type.clone() }));
        },
        _ => {
            add_error(&mut errors, Error::new(in_type, context.clone(), InnerError::ExpectedOfTypeType { min_level: 0, giv_type: in_type_type.clone() }));
            add_error(&mut errors, Error::new(out_type, context.clone(), InnerError::ExpectedOfTypeType { min_level: 0, giv_type: out_type_type.clone() }));
            add_error(&mut errors, Error::new(caps_list, context.clone(), InnerError::ExpectedOfCapturesListType { min_level: 0, giv_type: caps_list_type.clone() }));
        },
    }
    errors
}

fn check_fn_type<'a>(term: &'a Term, type_ann: Term, context: Context) -> (res: Option<CheckResult<'a, ()>>)
    ensures
        opt_res_view(res) == check_fn_type_spec(*term, type_ann, context@),
    decreases term_size(*term), 0nat,
{
    match &*term.0 {
        InnerTerm::FunctionTypeIntro(caps_list, in_type, out_type) => {
            if !context.fits_inc(1) {
                return None;
            }
            let shifted = context.clone().inc_and_shift(1);
            if shifted.exists_dec(0) {
                return None;
            }
            let mut errors: Vec<Error<'a>> = Vec::new();
            proof { lemma_errs_view_empty(errors@); }
            let out_type_context = shifted.with_dec(0, in_type.clone());
            let caps_list_type = match type_of(caps_list, &context) {
                Ok(t) => t,
                Err(es) => return Some(Err(es)),
            };
            let in_type_type = match type_of(in_type, &context) {
                Ok(t) => t,
                Err(es) => return Some(Err(es)),
            };
            let out_type_type = match type_of(out_type, &out_type_context) {
                Ok(t) => t,
                Err(es) => return Some(Err(es)),
            };
            match try_check(caps_list, caps_list_type.clone(), context.clone()) {
                Some(r) => add_check(&mut errors, r),
                None => return None,
            }
            match try_check(in_type, in_type_type.clone(), context.clone()) {
                Some(r) => add_check(&mut errors, r),
                None => return None,
            }
            match try_check(out_type, out_type_type.clone(), out_type_context) {
                Some(r) => add_check(&mut errors, r),
                None => return None,
            }
            match try_check_usage(term, in_type.clone(), out_type, 0, context.clone().inc_and_shift(1)) {
                Some(r) => add_check(&mut errors, r),
                None => return None,
            }
            let mut level_errors = fn_type_level_errors_exec(term, caps_list, in_type, out_type,
                &caps_list_type, &in_type_type, &out_type_type, &type_ann, &context);
            let ghost before = errors@;
            let ghost added = level_errors@;
            errors.append(&mut level_errors);
            proof { lemma_errs_view_add(before, added); }
            Some(wrap_errors(errors))
        },
        _ => Some(Ok(())),
    }
}

/// The heads of a captures list, in order, down to the first node that is
/// not a `Cons`.
pub open spec fn caps_list_heads(caps_list: Term) -> Seq<Term>
    decreases caps_list,
{
    match *caps_list.0 {
        InnerTerm::CapturesListIntro(List::Cons(head, tail)) => seq![head] + caps_list_heads(tail),
        _ => Seq::empty(),
    }
}

/// Appends the types in a captures list, in order, to `acc`.
fn flatten_caps_list(caps_list: &Term, acc: &mut Vec<Term>)
    ensures
        final(acc)@ == old(acc)@ + caps_list_heads(*caps_list),
    decreases caps_list,
{
    match &*caps_list.0 {
        InnerTerm::CapturesListIntro(List::Cons(head, tail)) => {
            let ghost before = acc@;
            acc.push(head.clone());
            flatten_caps_list(tail, acc);
            assert(acc@ =~= before + caps_list_heads(*caps_list));
        },
        _ => {
            assert(acc@ =~= old(acc)@ + caps_list_heads(*caps_list));
        },
    }
}

fn check_fn<'a>(term: &'a Term, type_ann: Term, context: Context) -> (res: Option<CheckResult<'a, ()>>)
    ensures
        opt_res_view(res) == check_fn_spec(*term, type_ann, context@),
    decreases term_size(*term), 0nat,
{
    match &*term.0 {
        InnerTerm::FunctionIntro(body) => {
            let mut errors: Vec<Error<'a>> = Vec::new();
            proof { lemma_errs_view_empty(errors@); }
            match &*type_ann.0 {
                InnerTerm::FunctionTypeIntro(caps_list, in_type, out_type) => {
                    if !context.fits_inc(1) {
                        return None;
                    }
                    let shifted = context.clone().inc_and_shift(1);
                    if shifted.exists_dec(0) {
                        return None;
                    }
                    let body_context = shifted.with_dec(0, shift(in_type, 0, 1));
                    match try_check(body, out_type.clone(), body_context) {
                        Some(r) => add_check(&mut errors, r),
                        None => return None,
                    }
                    match try_check_usage(term, in_type.clone(), body, 0, context.clone().inc_and_shift(1)) {
                        Some(r) => add_check(&mut errors, r),
                        None => return None,
                    }
                    let mut capd_var_types: Vec<Term> = Vec::new();
                    flatten_caps_list(caps_list, &mut capd_var_types);
                    // each free variable of the body must have its type in the captures list;
                    // gathering them does not handle a body with a variable, and a body
                    // without one has none, so no variable goes unmentioned
                    if has_var(body) {
                        return None;
                    }
                    let free_vars = get_free_vars(body);
                    assert(free_vars@.len() == 0);
                },
                _ => add_error(&mut errors, Error::new(term, context, InnerError::ExpectedOfFunctionType { giv_type: type_ann.clone() })),
            }
            Some(wrap_errors(errors))
        },
        _ => Some(Ok(())),
    }
}

fn check_app<'a>(term: &'a Term, type_ann: Term, context: Context) -> (res: Option<CheckResult<'a, ()>>)
    ensures
        opt_res_view(res) == check_app_spec(*term, type_ann, context@),
    decreases term_size(*term), 0nat,
{
    match &*term.0 {
        InnerTerm::FunctionElim(abs, arg) => {
            let mut errors: Vec<Error<'a>> = Vec::new();
            proof { lemma_errs_view_empty(errors@); }
            let abs_type = match type_of(abs, &context) {
                Ok(t) => t,
                Err(es) => return Some(Err(es)),
            };
            match try_check(abs, abs_type.clone(), context.clone()) {
                Some(r) => add_check(&mut errors, r),
                None => return None,
            }
            match &*abs_type.0 {
                InnerTerm::FunctionTypeIntro(_, in_type, _) => match try_check(arg, in_type.clone(), context.clone()) {
                    Some(r) => add_check(&mut errors, r),
                    None => return None,
                },
                _ => add_error(&mut errors, Error::new(term, context, InnerError::ExpectedOfFunctionType { giv_type: abs_type.clone() })),
            }
            Some(wrap_errors(errors))
        },
        _ => Some(Ok(())),
    }
}

fn pair_type_level_errors_exec<'a>(term: &'a Term, fst_type: &'a Term, snd_type: &'a Term,
    fst_type_type: &Term, snd_type_type: &Term, type_ann: &Term, context: &Context) -> (res: Vec<Error<'a>>)
    ensures
        errs_view(res@) == pair_type_level_errors(*term, *fst_type, *snd_type, *fst_type_type, *snd_type_type, *type_ann, context@),
{
    let mut errors: Vec<Error<'a>> = Vec::new();
    proof { lemma_errs_view_empty(errors@); }
    match (&*fst_type_type.0, &*snd_type_type.0) {
        (InnerTerm::TypeTypeIntro(fst_level, _), InnerTerm::TypeTypeIntro(snd_level, _)) => {
            let m = max(*fst_level, *snd_level);
            match &*type_ann.0 {
                InnerTerm::TypeTypeIntro(max_level, pair_usage) => {
                    if m != *max_level {
                        add_error(&mut errors, Error::new(term, context.clone(), InnerError::MismatchedTypes {
                            exp_type: universe_term(*max_level, *pair_usage),
                            giv_type: universe_term(m, *pair_usage),
                        }));
                    }
                },
                _ => add_error(&mut errors, Error::new(term, context.clone(), InnerError::ExpectedOfTypeType { min_level: m, giv_type: type_ann.clone() })),
            }
        },
        (_, InnerTerm::TypeTypeIntro(level, _)) =>
            add_error(&mut errors, Error::new(fst_type, context.clone(), InnerError::ExpectedOfTypeType { min_level: *level, giv_type: fst_type_type.clone() })),
        (InnerTerm::TypeTypeIntro(level, _), _) =>
            add_error(&mut errors, Error::new(snd_type, context.clone(), InnerError::ExpectedOfTypeType { min_level: *level, giv_type: snd_type_type.clone() })),
        _ => {
            add_error(&mut errors, Error::new(fst_type, context.clone(), InnerError::ExpectedOfTypeType { min_level: 0, giv_type: fst_type_type.clone() }));
            add_error(&mut errors, Error::new(snd_type, context.clone(), InnerError::ExpectedOfTypeType { min_level: 0, giv_type: snd_type_type.clone() }));
        },
    }
    errors
}

fn check_pair_type<'a>(term: &'a Term, type_ann: Term, context: Context) -> (res: Option<CheckResult<'a, ()>>)
    ensures
        opt_res_view(res) == check_pair_type_spec(*term, type_ann, context@),
    decreases term_size(*term), 0nat,
{
    match &*term.0 {
        InnerTerm::PairTypeIntro(fst_type, snd_type) => {
            let mut errors: Vec<Error<'a>> = Vec::new();
            proof { lemma_errs_view_empty(errors@); }
            let fst_type_type = match type_of(fst_type, &context) {
                Ok(t) => t,
                Err(es) => return Some(Err(es)),
            };
            if !context.fits_inc(2) {
                return None;
            }
            let shifted = context.clone().inc_and_shift(2);
            if shifted.exists_dec(1) {
                return None;
            }
            match try_check(fst_type, fst_type_type.clone(), shifted.clone().with_dec(1, snd_type.clone())) {
                Some(r) => add_check(&mut errors, r),
                None => return None,
            }
            let snd_type_type = match type_of(snd_type, &context) {
                Ok(t) => t,
                Err(es) => return Some(Err(es)),
            };
            if shifted.exists_dec(0) {
                return None;
            }
            match try_check(snd_type, snd_type_type.clone(), shifted.with_dec(0, fst_type.clone())) {
                Some(r) => add_check(&mut errors, r),
                None => return None,
            }
            match try_check_usage(term, fst_type.clone(), snd_type, 0, context.clone()) {
                Some(r) => add_check(&mut errors, r),
                None => return None,
            }
            match try_check_usage(term, snd_type.clone(), fst_type, 1, context.clone()) {
                Some(r) => add_check(&mut errors, r),
                None => return None,
            }
            let mut level_errors = pair_type_level_errors_exec(term, fst_type, snd_type,
                &fst_type_type, &snd_type_type, &type_ann, &context);
            let ghost before = errors@;
            let ghost added = level_errors@;
            errors.append(&mut level_errors);
            proof { lemma_errs_view_add(before, added); }
            Some(wrap_errors(errors))
        },
        _ => Some(Ok(())),
    }
}

fn check_pair<'a>(term: &'a Term, type_ann: Term, context: Context) -> (res: Option<CheckResult<'a, ()>>)
    ensures
        opt_res_view(res) == check_pair_spec(*term, type_ann, context@),
    decreases term_size(*term), 0nat,
{
    match &*term.0 {
        InnerTerm::PairIntro(fst, snd) => match &*type_ann.0 {
            InnerTerm::PairTypeIntro(fst_type, snd_type) => {
                if !context.fits_inc(2) {
                    return None;
                }
                let shifted = context.inc_and_shift(2);
                if shifted.exists_dec(1) || shifted.exists_dec(0) {
                    return None;
                }
                let mut errors: Vec<Error<'a>> = Vec::new();
                proof { lemma_errs_view_empty(errors@); }
                let fst_check = match try_check(fst, fst_type.clone(), shifted.clone().with_dec(1, snd_type.clone())) {
                    Some(r) => r,
                    None => return None,
                };
                let snd_check = match try_check(snd, snd_type.clone(), shifted.with_dec(0, fst_type.clone())) {
                    Some(r) => r,
                    None => return None,
                };
                add_check(&mut errors, fst_check);
                add_check(&mut errors, snd_check);
                Some(wrap_errors(errors))
            },
            _ => Some(fail(term, context, InnerError::ExpectedOfPairType { giv_type: type_ann.clone() })),
        },
        _ => Some(Ok(())),
    }
}

fn check_pair_elim<'a>(term: &'a Term, type_ann: Term, context: Context) -> (res: Option<CheckResult<'a, ()>>)
    ensures
        opt_res_view(res) == check_pair_elim_spec(*term, type_ann, context@),
    decreases term_size(*term), 0nat,
{
    match &*term.0 {
        InnerTerm::PairElim(discrim, body) => {
            let mut errors: Vec<Error<'a>> = Vec::new();
            proof { lemma_errs_view_empty(errors@); }
            let discrim_type = match type_of(discrim, &context) {
                Ok(t) => t,
                Err(es) => return Some(Err(es)),
            };
            match try_check(discrim, discrim_type.clone(), context.clone()) {
                Some(r) => add_check(&mut errors, r),
                None => return None,
            }
            match &*discrim_type.0 {
                InnerTerm::PairTypeIntro(fst_type, snd_type) => {
                    if !context.fits_inc(2) {
                        return None;
                    }
                    let shifted = context.clone().inc_and_shift(2);
                    if shifted.exists_dec(0) {
                        return None;
                    }
                    let with_fst = shifted.with_dec(0, fst_type.clone());
                    if with_fst.exists_dec(1) {
                        return None;
                    }
                    let body_context = with_fst.with_dec(1, snd_type.clone());
                    let body_type = match type_of(body, &body_context) {
                        Ok(t) => t,
                        Err(es) => return Some(Err(es)),
                    };
                    match try_check(body, body_type, body_context) {
                        Some(r) => add_check(&mut errors, r),
                        None => return None,
                    }
                    match try_check_usage(term, fst_type.clone(), body, 0, context.clone()) {
                        Some(r) => add_check(&mut errors, r),
                        None => return None,
                    }
                    match try_check_usage(term, snd_type.clone(), body, 1, context.clone()) {
                        Some(r) => add_check(&mut errors, r),
                        None => return None,
                    }
                },
                _ => add_error(&mut errors, Error::new(discrim, context, InnerError::ExpectedOfPairType { giv_type: discrim_type.clone() })),
            }
            Some(wrap_errors(errors))
        },
        _ => Some(Ok(())),
    }
}

/// The context the branches of a two-way elimination on `discrim` are
/// checked in, or `None` exactly when `branch_context_spec` is `None`.
fn branch_context(discrim: &Term, context: &Context) -> (res: Option<Context>)
    ensures
        match res {
            Some(c) => branch_context_spec(*discrim, context@) == Some(c@),
            None => branch_context_spec(*discrim, context@) is None,
        },
{
    let normal = normalize(discrim, context);
    match &*normal.0 {
        InnerTerm::Var(index) => {
            if !context.fits_update(*index) {
                return None;
            }
            let updated = context.clone().update(*index, discrim.clone());
            if updated.exists_def(*index) {
                return None;
            }
            Some(updated.with_def(*index, discrim.clone()))
        },
        _ => Some(context.clone()),
    }
}

fn check_doub_elim<'a>(term: &'a Term, type_ann: Term, context: Context) -> (res: Option<CheckResult<'a, ()>>)
    ensures
        opt_res_view(res) == check_doub_elim_spec(*term, type_ann, context@),
    decreases term_size(*term), 0nat,
{
    match &*term.0 {
        InnerTerm::DoubElim(discrim, branch1, branch2) => {
            let mut errors: Vec<Error<'a>> = Vec::new();
            proof { lemma_errs_view_empty(errors@); }
            let discrim_type = match type_of(discrim, &context) {
                Ok(t) => t,
                Err(es) => return Some(Err(es)),
            };
            match try_check(discrim, discrim_type.clone(), context.clone()) {
                Some(r) => add_check(&mut errors, r),
                None => return None,
            }
            match &*discrim_type.0 {
                InnerTerm::DoubTypeIntro => {
                    let bc = match branch_context(discrim, &context) {
                        Some(c) => c,
                        None => return None,
                    };
                    match try_check(branch1, type_ann.clone(), bc.clone()) {
                        Some(r) => add_check(&mut errors, r),
                        None => return None,
                    }
                    match try_check(branch2, type_ann, bc) {
                        Some(r) => add_check(&mut errors, r),
                        None => return None,
                    }
                },
                _ => add_error(&mut errors, Error::new(discrim, context, InnerError::ExpectedOfEnumType { giv_type: discrim_type.clone() })),
            }
            Some(wrap_errors(errors))
        },
        _ => Some(Ok(())),
    }
}

fn check_fold_type<'a>(term: &'a Term, type_ann: Term, context: Context) -> (res: Option<CheckResult<'a, ()>>)
    ensures
        opt_res_view(res) == check_fold_type_spec(*term, type_ann, context@),
    decreases term_size(*term), 0nat,
{
    match &*term.0 {
        InnerTerm::FoldTypeIntro(inner_type) => match &*type_ann.0 {
            InnerTerm::TypeTypeIntro(_, _) => {
                let mut errors: Vec<Error<'a>> = Vec::new();
                proof { lemma_errs_view_empty(errors@); }
                let inner_type_type = match type_of(inner_type, &context) {
                    Ok(t) => t,
                    Err(es) => return Some(Err(es)),
                };
                match try_check(inner_type, inner_type_type, context.clone()) {
                    Some(r) => add_check(&mut errors, r),
                    None => return None,
                }
                add_check(&mut errors, check_type(inner_type, context.clone()));
                Some(wrap_errors(errors))
            },
            _ => Some(fail(term, context, InnerError::ExpectedOfTypeType { min_level: 0, giv_type: type_ann.clone() })),
        },
        _ => Some(Ok(())),
    }
}

fn check_caps_list<'a>(term: &'a Term, type_ann: Term, context: Context) -> (res: Option<CheckResult<'a, ()>>)
    ensures
        opt_res_view(res) == check_caps_list_spec(*term, type_ann, context@),
{
    match &*term.0 {
        InnerTerm::CapturesListIntro(list) => match &*type_ann.0 {
            InnerTerm::CapturesListTypeIntro(_) => match list {
                List::Cons(head, tail) => {
                    let mut errors: Vec<Error<'a>> = Vec::new();
                    proof { lemma_errs_view_empty(errors@); }
                    let head_type = match type_of(head, &context) {
                        Ok(t) => t,
                        Err(es) => return Some(Err(es)),
                    };
                    let tail_type = match type_of(head, &context) {
                        Ok(t) => t,
                        Err(es) => return Some(Err(es)),
                    };
                    assert(tail_type == head_type);
                    let ghost cv = context@;
                    match (&*head_type.0, &*tail_type.0) {
                        (InnerTerm::TypeTypeIntro(level, _), _) => {
                            add_error(&mut errors, Error::new(head, context, InnerError::ExpectedOfCapturesListType { min_level: *level, giv_type: head_type.clone() }));
                            assert(errs_view(errors@) =~= seq![err_at(*head, cv, InnerErrorView::ExpectedOfCapturesListType { min_level: *level, giv_type: head_type })]);
                        },
                        (_, InnerTerm::CapturesListTypeIntro(level)) => {
                            add_error(&mut errors, Error::new(tail, context, InnerError::ExpectedOfTypeType { min_level: *level, giv_type: tail_type.clone() }));
                            assert(errs_view(errors@) =~= seq![err_at(*tail, cv, InnerErrorView::ExpectedOfTypeType { min_level: *level, giv_type: head_type })]);
                        },
                        _ => {
                            add_error(&mut errors, Error::new(head, context.clone(), InnerError::ExpectedOfTypeType { min_level: 0, giv_type: head_type.clone() }));
                            add_error(&mut errors, Error::new(tail, context, InnerError::ExpectedOfCapturesListType { min_level: 0, giv_type: tail_type.clone() }));
                            assert(errs_view(errors@) =~= seq![
                                err_at(*head, cv, InnerErrorView::ExpectedOfTypeType { min_level: 0, giv_type: head_type }),
                                err_at(*tail, cv, InnerErrorView::ExpectedOfCapturesListType { min_level: 0, giv_type: head_type }),
                            ]);
                        },
                    }
                    Some(wrap_errors(errors))
                },
                List::Nil => Some(Ok(())),
            },
            _ => Some(fail(term, context, InnerError::ExpectedOfCapturesListType { min_level: 0, giv_type: type_ann.clone() })),
        },
        _ => Some(Ok(())),
    }
}

proof fn lemma_erase_anns_idempotent(t: Term)
    ensures
        erase_anns(erase_anns(t)) == erase_anns(t),
    decreases t,
{
    match *t.0 {
        InnerTerm::Rec(x) => lemma_erase_anns_idempotent(x),
        InnerTerm::FunctionTypeIntro(c, i, o) => {
            lemma_erase_anns_idempotent(c);
            lemma_erase_anns_idempotent(i);
            lemma_erase_anns_idempotent(o);
        },
        InnerTerm::FunctionIntro(b) => lemma_erase_anns_idempotent(b),
        InnerTerm::FunctionElim(a, b) => {
            lemma_erase_anns_idempotent(a);
            lemma_erase_anns_idempotent(b);
        },
        InnerTerm::PairTypeIntro(a, b) => {
            lemma_erase_anns_idempotent(a);
            lemma_erase_anns_idempotent(b);
        },
        InnerTerm::PairIntro(a, b) => {
            lemma_erase_anns_idempotent(a);
            lemma_erase_anns_idempotent(b);
        },
        InnerTerm::PairElim(a, b) => {
            lemma_erase_anns_idempotent(a);
            lemma_erase_anns_idempotent(b);
        },
        InnerTerm::DoubElim(d, a, b) => {
            lemma_erase_anns_idempotent(d);
            lemma_erase_anns_idempotent(a);
            lemma_erase_anns_idempotent(b);
        },
        InnerTerm::FoldTypeIntro(x) => lemma_erase_anns_idempotent(x),
        InnerTerm::FoldIntro(x) => lemma_erase_anns_idempotent(x),
        InnerTerm::FoldElim(x) => lemma_erase_anns_idempotent(x),
        InnerTerm::CapturesListIntro(List::Cons(h, tl)) => {
            lemma_erase_anns_idempotent(h);
            lemma_erase_anns_idempotent(tl);
        },
        _ => {},
    }
}

/// Term equality disregards type annotations: two terms compare as their
/// annotation-free forms do.
pub proof fn lemma_terms_eq_disregards_annotations(t1: Term, t2: Term)
    ensures
        terms_eq(t1, t2) == terms_eq(erase_anns(t1), erase_anns(t2)),
{
    lemma_erase_anns_idempotent(t1);
    lemma_erase_anns_idempotent(t2);
}

/// Term equality is symmetric.
pub proof fn lemma_terms_eq_symmetric(t1: Term, t2: Term)
    ensures
        terms_eq(t1, t2) == terms_eq(t2, t1),
{
}

/// Term equality is reflexive: every term equals itself.
pub proof fn lemma_terms_eq_reflexive(t: Term)
    ensures
        terms_eq(t, t),
{
}

/// Term equality is transitive.
pub proof fn lemma_terms_eq_transitive(t1: Term, t2: Term, t3: Term)
    requires
        terms_eq(t1, t2),
        terms_eq(t2, t3),
    ensures
        terms_eq(t1, t3),
{
}

/// A term that checks against an expected type carries an annotation equal to it.
pub proof fn lemma_check_ok_has_expected_annotation(term: Term, exp_type: Term, context: Map<usize, ContextEntry>)
    requires
        check_spec(term, exp_type, context) == Some(Ok::<(), Seq<ErrorView>>(())),
    ensures
        term.1 is Some,
        terms_eq(*term.1.unwrap(), exp_type),
{
}

/// A term whose annotation differs from the expected type fails with that one
/// mismatch, and a term with no annotation fails for the want of one.
pub proof fn lemma_check_annotation_must_match(term: Term, exp_type: Term, context: Map<usize, ContextEntry>)
    ensures
        term.1 is None ==> check_spec(term, exp_type, context)
            == Some(fail1(err_at(term, context, InnerErrorView::MissingTypeAnn))),
        term.1 is Some && !terms_eq(*term.1.unwrap(), exp_type) ==> check_spec(term, exp_type, context)
            == Some(fail1(err_at(term, context, InnerErrorView::MismatchedTypes { exp_type, giv_type: *term.1.unwrap() }))),
{
}

/// The level of `t` when it is a universe.
pub open spec fn universe_level(t: Term) -> Option<usize> {
    match *t.0 {
        InnerTerm::TypeTypeIntro(l, _) => Some(l),
        _ => None,
    }
}

/// The level of `t` when it is a captures-list type.
pub open spec fn caps_type_level(t: Term) -> Option<usize> {
    match *t.0 {
        InnerTerm::CapturesListTypeIntro(l) => Some(l),
        _ => None,
    }
}

/// The type `context` declares for the variable `i`.
pub open spec fn declared(context: Map<usize, ContextEntry>, i: usize) -> Option<Term> {
    if context.contains_key(i) { context[i].dec } else { None }
}

/// The level of the universe `t` is annotated with.
pub open spec fn ann_universe_level(t: Term) -> Option<usize> {
    match t.1 {
        Some(a) => universe_level(*a),
        None => None,
    }
}

/// Whether checking a node whose annotation matched passes.
pub open spec fn node_passes(term: Term, ty: Term, context: Map<usize, ContextEntry>) -> bool {
    check_node_spec(term, ty, context) == Some(Ok::<(), Seq<ErrorView>>(()))
}

/// Variables and universes, for a term whose annotation `ty` matched the
/// expected type: a variable passes exactly when the context declares it with
/// a type equal to `ty`, and an undeclared one is reported as such; a
/// universe, or a captures-list type, at level `l` passes exactly when `ty` is
/// a universe at a level above `l`.
pub proof fn lemma_check_variables_and_levels(term: Term, ty: Term, context: Map<usize, ContextEntry>, i: usize, l: usize, u: Usage)
    ensures
        *term.0 == InnerTerm::Var(i) ==> (node_passes(term, ty, context)
            <==> (declared(context, i) is Some && terms_eq(declared(context, i).unwrap(), ty))),
        *term.0 == InnerTerm::Var(i) && declared(context, i) is None ==> check_node_spec(term, ty, context)
            == Some(fail1(err_at(term, context, InnerErrorView::NonexistentVar { index: i }))),
        *term.0 == InnerTerm::TypeTypeIntro(l, u) ==> (node_passes(term, ty, context)
            <==> (universe_level(ty) is Some && universe_level(ty).unwrap() > l)),
        *term.0 == InnerTerm::CapturesListTypeIntro(l) ==> (node_passes(term, ty, context)
            <==> (universe_level(ty) is Some && universe_level(ty).unwrap() > l)),
{
}

/// The other leaves, for a term whose annotation `ty` matched the expected
/// type: the void, unit and two-element types pass exactly when `ty` is a
/// universe; the unit value exactly when `ty` is the unit type; a label of the
/// two-element type always; an unfolding exactly when what it unfolds is
/// annotated with a type equal to `ty`; the empty captures list exactly when
/// `ty` is a captures-list type.
pub proof fn lemma_check_leaves(term: Term, ty: Term, context: Map<usize, ContextEntry>)
    ensures
        (*term.0 is VoidTypeIntro || *term.0 is UnitTypeIntro || *term.0 is DoubTypeIntro)
            ==> (node_passes(term, ty, context) <==> universe_level(ty) is Some),
        *term.0 is UnitIntro ==> (node_passes(term, ty, context) <==> *ty.0 is UnitTypeIntro),
        *term.0 is DoubIntro ==> node_passes(term, ty, context),
        *term.0 is FoldElim ==> (node_passes(term, ty, context) <==> ({
            let x = (*term.0)->FoldElim_0;
            x.1 is Some && terms_eq(*x.1.unwrap(), ty)
        })),
        *term.0 == InnerTerm::CapturesListIntro(List::Nil) ==> (node_passes(term, ty, context)
            <==> caps_type_level(ty) is Some),
{
}

/// A pair type passes only when `ty` is the universe at the larger level of
/// its halves' universes, and a function type only when `ty` is the universe
/// at the largest of its captures-list level and its input's and output's
/// universe levels.
pub proof fn lemma_check_type_levels(term: Term, ty: Term, context: Map<usize, ContextEntry>)
    ensures
        *term.0 is PairTypeIntro && node_passes(term, ty, context) ==> ({
            let a = (*term.0)->PairTypeIntro_0;
            let b = (*term.0)->PairTypeIntro_1;
            &&& ann_universe_level(a) is Some
            &&& ann_universe_level(b) is Some
            &&& universe_level(ty) == Some(max_usize(ann_universe_level(a).unwrap(), ann_universe_level(b).unwrap()))
        }),
        *term.0 is FunctionTypeIntro && node_passes(term, ty, context) ==> ({
            let c = (*term.0)->FunctionTypeIntro_0;
            let i = (*term.0)->FunctionTypeIntro_1;
            let o = (*term.0)->FunctionTypeIntro_2;
            &&& c.1 is Some && caps_type_level(*c.1.unwrap()) is Some
            &&& ann_universe_level(i) is Some
            &&& ann_universe_level(o) is Some
            &&& universe_level(ty) == Some(max_usize(caps_type_level(*c.1.unwrap()).unwrap(),
                    max_usize(ann_universe_level(i).unwrap(), ann_universe_level(o).unwrap())))
        }),
{
    if *term.0 is PairTypeIntro {
        assert(check_node_spec(term, ty, context) == check_pair_type_spec(term, ty, context));
    }
    if *term.0 is FunctionTypeIntro {
        assert(check_node_spec(term, ty, context) == check_fn_type_spec(term, ty, context));
    }
}

/// The errors a handled check reports: none when it passed.
pub open spec fn reported(r: Option<Result<(), Seq<ErrorView>>>) -> Seq<ErrorView> {
    match r {
        Some(Err(es)) => es,
        _ => Seq::empty(),
    }
}

/// Checking a pair checks both halves. When the pair is annotated with the
/// expected type `A x B`, under two new binders the first half is checked
/// against `A` with `B` declared at index 1, and the second against `B` with
/// `A` declared at index 0. The pair is handled exactly when both halves are;
/// then it reports the errors of the first half followed by those of the
/// second, and passes exactly when both halves pass.
pub proof fn lemma_check_pair_checks_both_halves(fst: Term, snd: Term, ty: Term, a: Term, b: Term,
    exp_type: Term, context: Map<usize, ContextEntry>)
    requires
        *ty.0 == InnerTerm::PairTypeIntro(a, b),
        terms_eq(ty, exp_type),
        inc_fits(context, 2),
        can_add(inc_shift(context, 2), 1, ContextEntryKind::Dec),
        can_add(inc_shift(context, 2), 0, ContextEntryKind::Dec),
    ensures
        ({
            let pair = Term(Box::new(InnerTerm::PairIntro(fst, snd)), Some(Box::new(ty)));
            let first = check_spec(fst, a, with_dec_map(inc_shift(context, 2), 1, b));
            let second = check_spec(snd, b, with_dec_map(inc_shift(context, 2), 0, a));
            &&& (check_spec(pair, exp_type, context) is Some <==> (first is Some && second is Some))
            &&& (check_spec(pair, exp_type, context) is Some ==>
                    reported(check_spec(pair, exp_type, context)) == reported(first) + reported(second))
            &&& (check_spec(pair, exp_type, context) == Some(Ok::<(), Seq<ErrorView>>(()))
                    <==> (first == Some(Ok::<(), Seq<ErrorView>>(())) && second == Some(Ok::<(), Seq<ErrorView>>(()))))
        }),
{
    let pair = Term(Box::new(InnerTerm::PairIntro(fst, snd)), Some(Box::new(ty)));
    let c1 = with_dec_map(inc_shift(context, 2), 1, b);
    let c2 = with_dec_map(inc_shift(context, 2), 0, a);
    lemma_check_err_nonempty(fst, a, c1);
    lemma_check_err_nonempty(snd, b, c2);
    assert(type_spec(pair, context) == Ok::<Term, Seq<ErrorView>>(ty));
    assert(check_spec(pair, exp_type, context) == check_node_spec(pair, ty, context));
    assert(check_node_spec(pair, ty, context) == check_pair_spec(pair, ty, context));
    let first = check_spec(fst, a, c1);
    let second = check_spec(snd, b, c2);
    if first is Some && second is Some {
        let e2 = reported(first) + reported(second);
        assert(then(Seq::empty(), first) == Some(reported(first))) by {
            assert(Seq::<ErrorView>::empty() + reported(first) =~= reported(first));
        }
        assert(then(reported(first), second) == Some(e2)) by {
            if second == Some(Ok::<(), Seq<ErrorView>>(())) {
                assert(e2 =~= reported(first));
            }
        }
        assert(check_pair_spec(pair, ty, context) == Some(wrap(e2)));
        assert(reported(Some(wrap(e2))) == e2);
        assert(e2.len() == reported(first).len() + reported(second).len());
        match first {
            Some(Ok(u)) => { assert(u == ()); },
            _ => {},
        }
        match second {
            Some(Ok(u)) => { assert(u == ()); },
            _ => {},
        }
        assert(reported(first).len() == 0 <==> first == Some(Ok::<(), Seq<ErrorView>>(())));
        assert(reported(second).len() == 0 <==> second == Some(Ok::<(), Seq<ErrorView>>(())));
    } else {
        assert(check_pair_spec(pair, ty, context) is None);
    }
    assert(check_spec(pair, exp_type, context) is Some <==> (first is Some && second is Some));
    assert(check_spec(pair, exp_type, context) is Some ==>
        reported(check_spec(pair, exp_type, context)) == reported(first) + reported(second));
}

/// A variable of a `Unique` type must be used exactly once: where its uses in
/// the body can be counted, the usage check passes exactly when the body uses
/// it once at fewest and once at most, and otherwise reports the count it
/// found. A variable of a `Shared` type always passes.
pub proof fn lemma_usage_exactly_once(binder: Term, term_type: Term, body: Term, target_index: usize,
    context: Map<usize, ContextEntry>)
    ensures
        usage_spec(term_type) == Usage::Shared
            ==> check_usage_spec(binder, term_type, body, target_index, context) == Some(Ok::<(), Seq<ErrorView>>(())),
        usage_spec(term_type) == Usage::Unique && count_ok(body, 0) ==> (
            check_usage_spec(binder, term_type, body, target_index, context) == Some(Ok::<(), Seq<ErrorView>>(()))
                <==> (count_spec(body, 0).0 == 1 && count_spec(body, 0).1 == 1)),
        usage_spec(term_type) == Usage::Unique && count_ok(body, 0)
            && !(count_spec(body, 0).0 == 1 && count_spec(body, 0).1 == 1) ==>
            check_usage_spec(binder, term_type, body, target_index, context) == Some(Err::<(), Seq<ErrorView>>(seq![
                err_at(binder, context, InnerErrorView::MismatchedUsage {
                    var_index: target_index,
                    exp_usage: (1, 1),
                    giv_usage: (count_spec(body, 0).0 as usize, count_spec(body, 0).1 as usize),
                }),
            ])),
{
}

/// The checks a node makes of its parts, each as (part, expected type,
/// context), when every annotation they need is present: the body of a
/// recursive term, of a function and of a pair elimination, the parts of a
/// function type and of a pair type, both halves of a pair, the function and
/// argument of an application, the discriminant and both branches of a
/// two-way elimination, and what a fold type or fold value holds.
pub open spec fn checked_parts(term: Term, ty: Term, context: Map<usize, ContextEntry>) -> Seq<(Term, Term, Map<usize, ContextEntry>)> {
    let none = Seq::<(Term, Term, Map<usize, ContextEntry>)>::empty();
    match *term.0 {
        InnerTerm::Rec(inner) => match inner.1 {
            Some(it) => seq![(inner, *it, with_dec_map(inc_shift(context, 1), 0, *it))],
            None => none,
        },
        InnerTerm::FunctionTypeIntro(c, i, o) => match (c.1, i.1, o.1) {
            (Some(ct), Some(it), Some(ot)) => seq![
                (c, *ct, context),
                (i, *it, context),
                (o, *ot, with_dec_map(inc_shift(context, 1), 0, i)),
            ],
            _ => none,
        },
        InnerTerm::FunctionIntro(body) => match *ty.0 {
            InnerTerm::FunctionTypeIntro(_, in_t, out_t) =>
                seq![(body, out_t, with_dec_map(inc_shift(context, 1), 0, shift_term(in_t, 0, 1)))],
            _ => none,
        },
        InnerTerm::FunctionElim(abs, arg) => match abs.1 {
            Some(at) => match *at.0 {
                InnerTerm::FunctionTypeIntro(_, in_t, _) => seq![(abs, *at, context), (arg, in_t, context)],
                _ => seq![(abs, *at, context)],
            },
            None => none,
        },
        InnerTerm::PairTypeIntro(a, b) => match (a.1, b.1) {
            (Some(at), Some(bt)) => seq![
                (a, *at, with_dec_map(inc_shift(context, 2), 1, b)),
                (b, *bt, with_dec_map(inc_shift(context, 2), 0, a)),
            ],
            _ => none,
        },
        InnerTerm::PairIntro(a, b) => match *ty.0 {
            InnerTerm::PairTypeIntro(at, bt) => seq![
                (a, at, with_dec_map(inc_shift(context, 2), 1, bt)),
                (b, bt, with_dec_map(inc_shift(context, 2), 0, at)),
            ],
            _ => none,
        },
        InnerTerm::PairElim(d, body) => match d.1 {
            Some(dt) => match *dt.0 {
                InnerTerm::PairTypeIntro(ft, st) => match body.1 {
                    Some(bt) => seq![
                        (d, *dt, context),
                        (body, *bt, with_dec_map(with_dec_map(inc_shift(context, 2), 0, ft), 1, st)),
                    ],
                    None => seq![(d, *dt, context)],
                },
                _ => seq![(d, *dt, context)],
            },
            None => none,
        },
        InnerTerm::DoubElim(d, b1, b2) => match d.1 {
            Some(dt) => match (*dt.0, branch_context_spec(d, context)) {
                (InnerTerm::DoubTypeIntro, Some(bc)) => seq![(d, *dt, context), (b1, ty, bc), (b2, ty, bc)],
                _ => seq![(d, *dt, context)],
            },
            None => none,
        },
        InnerTerm::FoldTypeIntro(x) => match (*ty.0, x.1) {
            (InnerTerm::TypeTypeIntro(_, _), Some(xt)) => seq![(x, *xt, context)],
            _ => none,
        },
        InnerTerm::FoldIntro(x) => match *ty.0 {
            InnerTerm::FoldTypeIntro(xt) => seq![(x, xt, context)],
            _ => none,
        },
        _ => none,
    }
}

/// A node is checked only together with its parts: where checking it is
/// handled, so is checking each of its parts, and where it passes, each of
/// its parts passes too.
#[verifier::spinoff_prover]
#[verifier::rlimit(60)]
pub proof fn lemma_check_covers_parts(term: Term, ty: Term, context: Map<usize, ContextEntry>, n: int)
    requires
        0 <= n < checked_parts(term, ty, context).len(),
        check_node_spec(term, ty, context) is Some,
    ensures
        ({
            let p = checked_parts(term, ty, context)[n];
            &&& check_spec(p.0, p.1, p.2) is Some
            &&& (check_node_spec(term, ty, context) == Some(Ok::<(), Seq<ErrorView>>(()))
                    ==> check_spec(p.0, p.1, p.2) == Some(Ok::<(), Seq<ErrorView>>(())))
        }),
{
    let parts = checked_parts(term, ty, context);
    let p = parts[n];
    lemma_check_err_nonempty(p.0, p.1, p.2);
    match check_spec(p.0, p.1, p.2) {
        Some(Ok(u)) => { assert(u == ()); },
        _ => {},
    }
    match *term.0 {
        InnerTerm::Rec(_) => {
            assert(check_node_spec(term, ty, context) == check_rec_spec(term, ty, context));
        },
        InnerTerm::FunctionTypeIntro(_, _, _) => {
            assert(check_node_spec(term, ty, context) == check_fn_type_spec(term, ty, context));
        },
        InnerTerm::FunctionIntro(_) => {
            assert(check_node_spec(term, ty, context) == check_fn_spec(term, ty, context));
        },
        InnerTerm::FunctionElim(_, _) => {
            assert(check_node_spec(term, ty, context) == check_app_spec(term, ty, context));
        },
        InnerTerm::PairTypeIntro(_, _) => {
            assert(check_node_spec(term, ty, context) == check_pair_type_spec(term, ty, context));
        },
        InnerTerm::PairIntro(_, _) => {
            assert(check_node_spec(term, ty, context) == check_pair_spec(term, ty, context));
        },
        InnerTerm::PairElim(_, _) => {
            assert(check_node_spec(term, ty, context) == check_pair_elim_spec(term, ty, context));
        },
        InnerTerm::DoubElim(_, _, _) => {
            assert(check_node_spec(term, ty, context) == check_doub_elim_spec(term, ty, context));
        },
        InnerTerm::FoldTypeIntro(_) => {
            assert(check_node_spec(term, ty, context) == check_fold_type_spec(term, ty, context));
        },
        _ => {},
    }
}

/// The usage checks a node makes of the variables it binds, each as (binder,
/// type of the variable, scope, index, context), when every annotation they
/// need is present: the variable of a recursive term, of a function type and
/// of a function, both variables of a pair type and of a pair elimination.
pub open spec fn usage_checks(term: Term, ty: Term, context: Map<usize, ContextEntry>) -> Seq<(Term, Term, Term, usize, Map<usize, ContextEntry>)> {
    let none = Seq::<(Term, Term, Term, usize, Map<usize, ContextEntry>)>::empty();
    match *term.0 {
        InnerTerm::Rec(inner) => match inner.1 {
            Some(it) => seq![(term, *it, inner, 0usize, context)],
            None => none,
        },
        InnerTerm::FunctionTypeIntro(c, i, o) => match (c.1, i.1, o.1) {
            (Some(_), Some(_), Some(_)) => seq![(term, i, o, 0usize, inc_shift(context, 1))],
            _ => none,
        },
        InnerTerm::FunctionIntro(body) => match *ty.0 {
            InnerTerm::FunctionTypeIntro(_, in_t, _) => seq![(term, in_t, body, 0usize, inc_shift(context, 1))],
            _ => none,
        },
        InnerTerm::PairTypeIntro(a, b) => match (a.1, b.1) {
            (Some(_), Some(_)) => seq![(term, a, b, 0usize, context), (term, b, a, 1usize, context)],
            _ => none,
        },
        InnerTerm::PairElim(d, body) => match d.1 {
            Some(dt) => match (*dt.0, body.1) {
                (InnerTerm::PairTypeIntro(ft, st), Some(_)) =>
                    seq![(term, ft, body, 0usize, context), (term, st, body, 1usize, context)],
                _ => none,
            },
            None => none,
        },
        _ => none,
    }
}

/// A node that binds variables is checked only together with their usage:
/// where checking it is handled, so is each usage check it makes, and where
/// it passes, each of those passes too.
#[verifier::spinoff_prover]
#[verifier::rlimit(60)]
pub proof fn lemma_check_covers_usage(term: Term, ty: Term, context: Map<usize, ContextEntry>, n: int)
    requires
        0 <= n < usage_checks(term, ty, context).len(),
        check_node_spec(term, ty, context) is Some,
    ensures
        ({
            let u = usage_checks(term, ty, context)[n];
            &&& check_usage_spec(u.0, u.1, u.2, u.3, u.4) is Some
            &&& (check_node_spec(term, ty, context) == Some(Ok::<(), Seq<ErrorView>>(()))
                    ==> check_usage_spec(u.0, u.1, u.2, u.3, u.4) == Some(Ok::<(), Seq<ErrorView>>(())))
        }),
{
    let u = usage_checks(term, ty, context)[n];
    match check_usage_spec(u.0, u.1, u.2, u.3, u.4) {
        Some(Ok(x)) => { assert(x == ()); },
        _ => {},
    }
    match *term.0 {
        InnerTerm::Rec(_) => {
            assert(check_node_spec(term, ty, context) == check_rec_spec(term, ty, context));
        },
        InnerTerm::FunctionTypeIntro(_, _, _) => {
            assert(check_node_spec(term, ty, context) == check_fn_type_spec(term, ty, context));
        },
        InnerTerm::FunctionIntro(_) => {
            assert(check_node_spec(term, ty, context) == check_fn_spec(term, ty, context));
        },
        InnerTerm::PairTypeIntro(_, _) => {
            assert(check_node_spec(term, ty, context) == check_pair_type_spec(term, ty, context));
        },
        InnerTerm::PairElim(_, _) => {
            assert(check_node_spec(term, ty, context) == check_pair_elim_spec(term, ty, context));
        },
        _ => {},
    }
}

/// A failed check reports at least one error.
pub proof fn lemma_check_err_nonempty(term: Term, exp_type: Term, context: Map<usize, ContextEntry>)
    ensures
        check_spec(term, exp_type, context) matches Some(Err(es)) ==> es.len() > 0,
    decreases term_size(term), 1nat,
{
    match type_spec(term, context) {
        Err(es) => {},
        Ok(ty) => if terms_eq(ty, exp_type) {
            lemma_node_err_nonempty(term, ty, context);
        },
    }
}

proof fn lemma_node_err_nonempty(term: Term, ty: Term, context: Map<usize, ContextEntry>)
    ensures
        check_node_spec(term, ty, context) matches Some(Err(es)) ==> es.len() > 0,
    decreases term_size(term), 0nat,
{
    match *term.0 {
        InnerTerm::Rec(_) => assert(check_node_spec(term, ty, context) == check_rec_spec(term, ty, context)),
        InnerTerm::FunctionTypeIntro(_, _, _) => assert(check_node_spec(term, ty, context) == check_fn_type_spec(term, ty, context)),
        InnerTerm::FunctionIntro(_) => assert(check_node_spec(term, ty, context) == check_fn_spec(term, ty, context)),
        InnerTerm::FunctionElim(_, _) => assert(check_node_spec(term, ty, context) == check_app_spec(term, ty, context)),
        InnerTerm::PairTypeIntro(_, _) => assert(check_node_spec(term, ty, context) == check_pair_type_spec(term, ty, context)),
        InnerTerm::PairIntro(_, _) => assert(check_node_spec(term, ty, context) == check_pair_spec(term, ty, context)),
        InnerTerm::PairElim(_, _) => assert(check_node_spec(term, ty, context) == check_pair_elim_spec(term, ty, context)),
        InnerTerm::DoubElim(_, _, _) => assert(check_node_spec(term, ty, context) == check_doub_elim_spec(term, ty, context)),
        InnerTerm::FoldTypeIntro(_) => assert(check_node_spec(term, ty, context) == check_fold_type_spec(term, ty, context)),
        InnerTerm::CapturesListIntro(_) => assert(check_node_spec(term, ty, context) == check_caps_list_spec(term, ty, context)),
        InnerTerm::FoldIntro(inner) => match *ty.0 {
            InnerTerm::FoldTypeIntro(inner_type) => {
                lemma_check_err_nonempty(inner, inner_type, context);
            },
            _ => {},
        },
        _ => {},
    }
}

} // verus!
