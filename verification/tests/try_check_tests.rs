use std::collections::HashSet;
use typecore::context::{Context, ContextEntry};
use typecore::lang::{InnerTerm, Term, Usage};
use typecore::typing::{check, count_uses, try_check, try_count_uses, InnerError};

fn bare(inner: InnerTerm) -> Term {
    Term(Box::new(inner), None)
}

fn ann(inner: InnerTerm, ty: Term) -> Term {
    Term(Box::new(inner), Some(Box::new(ty)))
}

fn universe(level: usize) -> Term {
    bare(InnerTerm::TypeTypeIntro(level, Usage::Shared))
}

fn fn_type() -> Term {
    bare(InnerTerm::FunctionTypeIntro(bare(InnerTerm::Var(5)), bare(InnerTerm::DoubTypeIntro), universe(1)))
}

#[test]
fn try_check_agrees_with_check_where_handled() {
    let body = ann(InnerTerm::TypeTypeIntro(0, Usage::Shared), universe(1));
    let f = ann(InnerTerm::FunctionIntro(body), fn_type());
    assert!(try_check(&f, fn_type(), Context::new()).unwrap().is_ok());
    assert!(check(&f, fn_type(), Context::new()).is_ok());

    let bad_body = ann(InnerTerm::TypeTypeIntro(0, Usage::Shared), universe(3));
    let g = ann(InnerTerm::FunctionIntro(bad_body), fn_type());
    let errs = try_check(&g, fn_type(), Context::new()).unwrap().unwrap_err();
    assert_eq!(errs.len(), 1);
    assert!(matches!(errs[0].error(), InnerError::MismatchedTypes { .. }));
}

#[test]
fn try_check_declines_function_body_with_variable() {
    let body = ann(InnerTerm::Var(0), universe(1));
    let f = ann(InnerTerm::FunctionIntro(body), fn_type());
    assert!(try_check(&f, fn_type(), Context::new()).is_none());
}

#[test]
fn try_check_declines_top_universe_out_of_place() {
    let top = ann(InnerTerm::TypeTypeIntro(usize::MAX, Usage::Shared), universe(usize::MAX));
    assert!(try_check(&top, universe(usize::MAX), Context::new()).is_none());

    let below = ann(InnerTerm::TypeTypeIntro(usize::MAX - 1, Usage::Shared), universe(1));
    let errs = try_check(&below, universe(1), Context::new()).unwrap().unwrap_err();
    match errs[0].error() {
        InnerError::ExpectedOfTypeType { min_level, .. } => assert_eq!(*min_level, usize::MAX),
        other => panic!("{:?}", other),
    }
}

#[test]
fn try_check_declines_index_out_of_range() {
    let ty = universe(1);
    let rec = ann(InnerTerm::Rec(ann(InnerTerm::TypeTypeIntro(0, Usage::Shared), universe(1))), ty);
    let far = Context::new().with_dec(isize::MAX as usize, universe(0));
    assert!(try_check(&rec, universe(1), far).is_none());
    assert!(try_check(&rec, universe(1), Context::new()).unwrap().is_ok());
}

#[test]
fn try_check_reports_missing_annotation() {
    let t = bare(InnerTerm::UnitIntro);
    let errs = try_check(&t, bare(InnerTerm::UnitTypeIntro), Context::new()).unwrap().unwrap_err();
    assert!(matches!(errs[0].error(), InnerError::MissingTypeAnn));
}

#[test]
fn context_fits_inc_and_update() {
    let c = Context::new().with_dec(5, universe(0));
    assert!(c.fits_inc(1));
    assert!(c.fits_inc(-5));
    assert!(c.fits_update(10));
    assert!(!c.fits_update(usize::MAX));
    let far = Context::new().with_dec(isize::MAX as usize, universe(0));
    assert!(!far.fits_inc(1));
    assert!(far.fits_inc(-1));
    assert!(Context::new().fits_inc(isize::MAX));
}

#[test]
fn terms_and_entries_compare_and_hash() {
    assert_eq!(universe(1), universe(1));
    assert_ne!(universe(1), universe(2));
    let mut set: HashSet<(usize, Term)> = HashSet::new();
    set.insert((0, universe(1)));
    set.insert((0, universe(1)));
    set.insert((1, universe(1)));
    assert_eq!(set.len(), 2);
    let e1 = ContextEntry { dec: Some(universe(0)), def: None };
    let e2 = ContextEntry { dec: Some(universe(0)), def: None };
    assert_eq!(e1, e2);
}

#[test]
fn try_count_uses_declines_applications() {
    let v0 = bare(InnerTerm::Var(0));
    let pair = bare(InnerTerm::PairIntro(bare(InnerTerm::Var(0)), bare(InnerTerm::Var(0))));
    assert_eq!(try_count_uses(&v0, 0), Some((1, 1)));
    assert_eq!(try_count_uses(&pair, 0), Some(count_uses(&pair, 0)));
    assert_eq!(try_count_uses(&pair, 0), Some((2, 2)));
    let app = bare(InnerTerm::FunctionElim(bare(InnerTerm::Var(0)), bare(InnerTerm::Var(1))));
    assert_eq!(try_count_uses(&app, 0), None);
    let rec = bare(InnerTerm::Rec(bare(InnerTerm::Var(0))));
    assert_eq!(try_count_uses(&rec, usize::MAX), None);
}
