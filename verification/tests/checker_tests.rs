use typecore::context::Context;
use typecore::lang::{Doub, InnerTerm, Term, Usage};
use typecore::typing::{check, is_terms_eq, InnerError};

fn bare(inner: InnerTerm) -> Term {
    Term(Box::new(inner), None)
}

fn ann(inner: InnerTerm, ty: Term) -> Term {
    Term(Box::new(inner), Some(Box::new(ty)))
}

fn universe(level: usize) -> Term {
    bare(InnerTerm::TypeTypeIntro(level, Usage::Shared))
}

/// `U0 : U1`
fn small_type() -> Term {
    ann(InnerTerm::TypeTypeIntro(0, Usage::Shared), universe(1))
}

fn fn_type() -> Term {
    bare(InnerTerm::FunctionTypeIntro(bare(InnerTerm::Var(5)), bare(InnerTerm::DoubTypeIntro), universe(1)))
}

#[test]
fn checks_function_against_its_type() {
    let f = ann(InnerTerm::FunctionIntro(small_type()), fn_type());
    assert!(check(&f, fn_type(), Context::new()).is_ok());
}

#[test]
fn function_body_of_wrong_type() {
    let body = ann(InnerTerm::TypeTypeIntro(0, Usage::Shared), universe(3));
    let f = ann(InnerTerm::FunctionIntro(body), fn_type());
    let errs = check(&f, fn_type(), Context::new()).unwrap_err();
    assert_eq!(errs.len(), 1);
    assert!(matches!(errs[0].error(), InnerError::MismatchedTypes { .. }));
}

#[test]
fn checks_application() {
    let abs = ann(InnerTerm::Var(0), fn_type());
    let arg = ann(InnerTerm::DoubIntro(Doub::This), bare(InnerTerm::DoubTypeIntro));
    let app = ann(InnerTerm::FunctionElim(abs, arg), universe(1));
    let ctx = Context::new().with_dec(0, fn_type());
    assert!(check(&app, universe(1), ctx).is_ok());
}

#[test]
fn application_of_non_function() {
    let abs = ann(InnerTerm::Var(0), bare(InnerTerm::DoubTypeIntro));
    let arg = ann(InnerTerm::DoubIntro(Doub::This), bare(InnerTerm::DoubTypeIntro));
    let app = ann(InnerTerm::FunctionElim(abs, arg), universe(1));
    let ctx = Context::new().with_dec(0, bare(InnerTerm::DoubTypeIntro));
    let errs = check(&app, universe(1), ctx).unwrap_err();
    assert_eq!(errs.len(), 1);
    assert!(matches!(errs[0].error(), InnerError::ExpectedOfFunctionType { .. }));
}

#[test]
fn checks_recursive_term() {
    let r = ann(InnerTerm::Rec(small_type()), universe(1));
    assert!(check(&r, universe(1), Context::new()).is_ok());
}

#[test]
fn checks_pair_type_levels() {
    let p = ann(InnerTerm::PairTypeIntro(small_type(), small_type()), universe(1));
    assert!(check(&p, universe(1), Context::new()).is_ok());
    let wrong = ann(InnerTerm::PairTypeIntro(small_type(), small_type()), universe(4));
    let errs = check(&wrong, universe(4), Context::new()).unwrap_err();
    assert_eq!(errs.len(), 1);
    match errs[0].error() {
        InnerError::MismatchedTypes { exp_type, giv_type } => {
            assert!(is_terms_eq(exp_type, &universe(4)));
            assert!(is_terms_eq(giv_type, &universe(1)));
        },
        e => panic!("{:?}", e),
    }
}

#[test]
fn pair_elim_of_non_pair() {
    let discrim = ann(InnerTerm::DoubIntro(Doub::That), bare(InnerTerm::DoubTypeIntro));
    let t = ann(InnerTerm::PairElim(discrim, small_type()), universe(1));
    let errs = check(&t, universe(1), Context::new()).unwrap_err();
    assert!(matches!(errs[0].error(), InnerError::ExpectedOfPairType { .. }));
}

#[test]
fn checks_two_way_elimination() {
    let discrim = ann(InnerTerm::DoubIntro(Doub::This), bare(InnerTerm::DoubTypeIntro));
    let t = ann(InnerTerm::DoubElim(discrim, small_type(), small_type()), universe(1));
    assert!(check(&t, universe(1), Context::new()).is_ok());
}

#[test]
fn checks_two_way_elimination_on_variable() {
    let discrim = ann(InnerTerm::Var(0), bare(InnerTerm::DoubTypeIntro));
    let t = ann(InnerTerm::DoubElim(discrim, small_type(), small_type()), universe(1));
    let ctx = Context::new().with_dec(0, bare(InnerTerm::DoubTypeIntro));
    assert!(check(&t, universe(1), ctx).is_ok());
}

#[test]
fn two_way_elimination_needs_two_element_type() {
    let discrim = ann(InnerTerm::TypeTypeIntro(0, Usage::Shared), universe(1));
    let t = ann(InnerTerm::DoubElim(discrim, small_type(), small_type()), universe(1));
    let errs = check(&t, universe(1), Context::new()).unwrap_err();
    assert_eq!(errs.len(), 1);
    assert!(matches!(errs[0].error(), InnerError::ExpectedOfEnumType { .. }));
}

#[test]
fn function_type_reports_levels() {
    let caps = ann(InnerTerm::Var(3), universe(0));
    let ctx = Context::new().with_dec(3, universe(0));
    let t = ann(InnerTerm::FunctionTypeIntro(caps, small_type(), small_type()), universe(1));
    let errs = check(&t, universe(1), ctx).unwrap_err();
    // the captures list's type is a universe, not a captures-list type
    assert!(errs.iter().any(|e| matches!(e.error(), InnerError::ExpectedOfCapturesListType { .. })));
    assert!(errs.iter().all(|e| !matches!(e.error(), InnerError::MissingTypeAnn)));
}

#[test]
fn ok_means_annotation_matches_expected() {
    let t = small_type();
    assert!(check(&t, universe(1), Context::new()).is_ok());
    assert!(is_terms_eq(t.1.as_ref().unwrap(), &universe(1)));
    assert!(check(&t, universe(2), Context::new()).is_err());
}

#[test]
fn terms_eq_is_symmetric_on_examples() {
    let a = bare(InnerTerm::PairTypeIntro(universe(0), universe(0)));
    let b = bare(InnerTerm::PairTypeIntro(universe(1), universe(2)));
    assert_eq!(is_terms_eq(&a, &b), is_terms_eq(&b, &a));
    assert_eq!(is_terms_eq(&fn_type(), &small_type()), is_terms_eq(&small_type(), &fn_type()));
    assert!(is_terms_eq(&fn_type(), &fn_type()));
}
