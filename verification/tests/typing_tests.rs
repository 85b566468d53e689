use typecore::context::Context;
use typecore::lang::{Doub, InnerTerm, List, Term, Usage};
use typecore::typing::{
    check, check_type, check_usage, count_uses, get_free_vars, is_terms_eq, push_check, wrap_checks, Error,
    InnerError,
};

fn bare(inner: InnerTerm) -> Term {
    Term(Box::new(inner), None)
}

fn ann(inner: InnerTerm, ty: Term) -> Term {
    Term(Box::new(inner), Some(Box::new(ty)))
}

fn universe(level: usize, usage: Usage) -> Term {
    bare(InnerTerm::TypeTypeIntro(level, usage))
}

fn var(i: usize) -> Term {
    bare(InnerTerm::Var(i))
}

#[test]
fn terms_eq_ignores_annotations() {
    let a = ann(InnerTerm::Var(3), universe(0, Usage::Shared));
    let b = ann(InnerTerm::Var(3), universe(7, Usage::Unique));
    assert!(is_terms_eq(&a, &b));
    assert!(is_terms_eq(&var(3), &b));
}

#[test]
fn terms_eq_compares_structure() {
    assert!(is_terms_eq(&universe(1, Usage::Shared), &universe(1, Usage::Shared)));
    assert!(!is_terms_eq(&universe(1, Usage::Shared), &universe(2, Usage::Shared)));
    assert!(!is_terms_eq(&universe(1, Usage::Shared), &universe(1, Usage::Unique)));
    assert!(!is_terms_eq(&var(0), &var(1)));
    let f1 = bare(InnerTerm::FunctionIntro(var(0)));
    let f2 = bare(InnerTerm::FunctionIntro(var(0)));
    let f3 = bare(InnerTerm::FunctionIntro(var(1)));
    assert!(is_terms_eq(&f1, &f2));
    assert!(!is_terms_eq(&f1, &f3));
    assert!(is_terms_eq(&bare(InnerTerm::DoubIntro(Doub::This)), &bare(InnerTerm::DoubIntro(Doub::This))));
    assert!(!is_terms_eq(&bare(InnerTerm::DoubIntro(Doub::This)), &bare(InnerTerm::DoubIntro(Doub::That))));
}

#[test]
fn terms_eq_is_reflexive() {
    for t in [
        bare(InnerTerm::UnitIntro),
        bare(InnerTerm::UnitTypeIntro),
        bare(InnerTerm::VoidTypeIntro),
        bare(InnerTerm::CapturesListTypeIntro(0)),
        bare(InnerTerm::CapturesListIntro(List::Nil)),
        bare(InnerTerm::CapturesListIntro(List::Cons(var(0), bare(InnerTerm::CapturesListIntro(List::Nil))))),
        bare(InnerTerm::PairTypeIntro(var(0), var(1))),
    ] {
        assert!(is_terms_eq(&t, &t));
    }
    assert!(!is_terms_eq(&bare(InnerTerm::UnitIntro), &bare(InnerTerm::UnitTypeIntro)));
    assert!(!is_terms_eq(&bare(InnerTerm::CapturesListTypeIntro(0)), &bare(InnerTerm::CapturesListTypeIntro(1))));
}

#[test]
fn terms_eq_pair_types_compare_componentwise() {
    let p1 = bare(InnerTerm::PairTypeIntro(var(0), var(0)));
    let p2 = bare(InnerTerm::PairTypeIntro(var(1), var(1)));
    assert!(!is_terms_eq(&p1, &p2));
    let p3 = bare(InnerTerm::PairTypeIntro(var(0), var(1)));
    let p4 = bare(InnerTerm::PairTypeIntro(var(0), var(1)));
    assert!(is_terms_eq(&p3, &p4));
    assert!(!is_terms_eq(&p3, &bare(InnerTerm::PairTypeIntro(var(1), var(0)))));
}

#[test]
fn count_uses_of_variables() {
    assert_eq!(count_uses(&var(0), 0), (1, 1));
    assert_eq!(count_uses(&var(1), 0), (0, 0));
    let pair = bare(InnerTerm::PairIntro(var(2), var(2)));
    assert_eq!(count_uses(&pair, 2), (2, 2));
    // a binder moves the target index up by one
    let f = bare(InnerTerm::FunctionIntro(var(1)));
    assert_eq!(count_uses(&f, 0), (1, 1));
    assert_eq!(count_uses(&f, 1), (0, 0));
    // the pair eliminator's body binds two
    let elim = bare(InnerTerm::PairElim(var(0), var(2)));
    assert_eq!(count_uses(&elim, 0), (2, 2));
}

#[test]
fn count_uses_includes_annotations() {
    let t = ann(InnerTerm::Var(0), var(0));
    assert_eq!(count_uses(&t, 0), (2, 2));
}

#[test]
fn count_uses_function_type_input_is_multiplied_away() {
    let ft = bare(InnerTerm::FunctionTypeIntro(var(0), var(0), var(1)));
    // caps list once, output type (index 1 under the binder) once; the input type product is zero
    assert_eq!(count_uses(&ft, 0), (2, 2));
}

#[test]
fn free_vars_of_closed_term_is_empty() {
    let t = bare(InnerTerm::PairIntro(bare(InnerTerm::UnitIntro), universe(0, Usage::Shared)));
    assert_eq!(get_free_vars(&t).len(), 0);
}

#[test]
fn push_and_wrap() {
    let t = var(0);
    let mut errors: Vec<Error> = Vec::new();
    push_check::<()>(&mut errors, Ok(()));
    assert_eq!(errors.len(), 0);
    assert!(wrap_checks(Vec::new()).is_ok());
    let e = Error::new(&t, Context::new(), InnerError::NonexistentVar { index: 0 });
    push_check::<()>(&mut errors, Err(vec![e]));
    assert_eq!(errors.len(), 1);
    let r = wrap_checks(errors);
    assert_eq!(r.unwrap_err().len(), 1);
}

#[test]
fn check_universe() {
    let t = ann(InnerTerm::TypeTypeIntro(0, Usage::Shared), universe(1, Usage::Shared));
    assert!(check(&t, universe(1, Usage::Shared), Context::new()).is_ok());
    // a universe does not belong to a universe at its own level
    let t2 = ann(InnerTerm::TypeTypeIntro(1, Usage::Shared), universe(1, Usage::Shared));
    let errs = check(&t2, universe(1, Usage::Shared), Context::new()).unwrap_err();
    assert_eq!(errs.len(), 1);
    assert!(matches!(errs[0].error(), InnerError::ExpectedOfTypeType { min_level: 2, .. }));
}

#[test]
fn check_mismatched_expected_type() {
    let t = ann(InnerTerm::TypeTypeIntro(0, Usage::Shared), universe(1, Usage::Shared));
    let errs = check(&t, universe(5, Usage::Shared), Context::new()).unwrap_err();
    assert_eq!(errs.len(), 1);
    match errs[0].error() {
        InnerError::MismatchedTypes { exp_type, giv_type } => {
            assert!(is_terms_eq(exp_type, &universe(5, Usage::Shared)));
            assert!(is_terms_eq(giv_type, &universe(1, Usage::Shared)));
        },
        _ => panic!("expected a type mismatch"),
    }
}

#[test]
fn check_missing_annotation() {
    let t = bare(InnerTerm::UnitIntro);
    let errs = check(&t, bare(InnerTerm::UnitTypeIntro), Context::new()).unwrap_err();
    assert_eq!(errs.len(), 1);
    assert!(matches!(errs[0].error(), InnerError::MissingTypeAnn));
}

#[test]
fn check_variables() {
    let ty = universe(0, Usage::Shared);
    let ctx = Context::new().with_dec(0, ty.clone());
    let v = ann(InnerTerm::Var(0), ty.clone());
    assert!(check(&v, ty.clone(), ctx.clone()).is_ok());
    let v1 = ann(InnerTerm::Var(1), ty.clone());
    let errs = check(&v1, ty.clone(), ctx).unwrap_err();
    assert!(matches!(errs[0].error(), InnerError::NonexistentVar { index: 1 }));
}

#[test]
fn check_variable_of_other_type() {
    let ctx = Context::new().with_dec(0, universe(3, Usage::Shared));
    let v = ann(InnerTerm::Var(0), universe(0, Usage::Shared));
    let errs = check(&v, universe(0, Usage::Shared), ctx).unwrap_err();
    assert!(matches!(errs[0].error(), InnerError::MismatchedTypes { .. }));
}

#[test]
fn check_unit_and_void() {
    let void = ann(InnerTerm::VoidTypeIntro, universe(0, Usage::Shared));
    assert!(check(&void, universe(0, Usage::Shared), Context::new()).is_ok());
    let bad_void = ann(InnerTerm::VoidTypeIntro, var(0));
    let errs = check(&bad_void, var(0), Context::new()).unwrap_err();
    assert!(matches!(errs[0].error(), InnerError::ExpectedOfTypeType { min_level: 0, .. }));
}

#[test]
fn check_unit_intro() {
    let unit = ann(InnerTerm::UnitIntro, bare(InnerTerm::UnitTypeIntro));
    assert!(check(&unit, bare(InnerTerm::UnitTypeIntro), Context::new()).is_ok());
    let wrong = ann(InnerTerm::UnitIntro, var(4));
    let errs = check(&wrong, var(4), Context::new()).unwrap_err();
    assert!(matches!(errs[0].error(), InnerError::ExpectedOfUnitType { .. }));
}

#[test]
fn check_pair_intro_needs_pair_type() {
    let p = ann(InnerTerm::PairIntro(var(0), var(0)), universe(0, Usage::Shared));
    let errs = check(&p, universe(0, Usage::Shared), Context::new()).unwrap_err();
    assert_eq!(errs.len(), 1);
    assert!(matches!(errs[0].error(), InnerError::ExpectedOfPairType { .. }));
}

#[test]
fn check_function_needs_function_type() {
    let f = ann(InnerTerm::FunctionIntro(bare(InnerTerm::UnitIntro)), universe(0, Usage::Shared));
    let errs = check(&f, universe(0, Usage::Shared), Context::new()).unwrap_err();
    assert!(matches!(errs[0].error(), InnerError::ExpectedOfFunctionType { .. }));
}

#[test]
fn check_fold_forms() {
    let u0 = universe(0, Usage::Shared);
    let inner = ann(InnerTerm::TypeTypeIntro(0, Usage::Shared), universe(1, Usage::Shared));
    let fold_ty = ann(InnerTerm::FoldTypeIntro(inner), u0.clone());
    assert!(check(&fold_ty, u0.clone(), Context::new()).is_ok());
    let elim = ann(InnerTerm::FoldElim(ann(InnerTerm::DoubIntro(Doub::This), var(9))), var(9));
    assert!(check(&elim, var(9), Context::new()).is_ok());
    let bad = ann(InnerTerm::FoldIntro(bare(InnerTerm::UnitIntro)), var(9));
    let errs = check(&bad, var(9), Context::new()).unwrap_err();
    assert!(matches!(errs[0].error(), InnerError::ExpectedOfFoldType { .. }));
}

#[test]
fn check_captures_lists() {
    let u2 = universe(2, Usage::Shared);
    let clt = ann(InnerTerm::CapturesListTypeIntro(1), u2.clone());
    assert!(check(&clt, u2.clone(), Context::new()).is_ok());
    let nil_ty = ann(InnerTerm::CapturesListTypeIntro(0), universe(1, Usage::Shared));
    let nil = ann(InnerTerm::CapturesListIntro(List::Nil), nil_ty.clone());
    assert!(check(&nil, nil_ty, Context::new()).is_ok());
}

#[test]
fn check_doub_intro_is_accepted() {
    let d = ann(InnerTerm::DoubIntro(Doub::That), bare(InnerTerm::DoubTypeIntro));
    assert!(check(&d, bare(InnerTerm::DoubTypeIntro), Context::new()).is_ok());
}

#[test]
fn check_usage_unique_and_shared() {
    let unique_ty = ann(InnerTerm::VoidTypeIntro, universe(0, Usage::Unique));
    let shared_ty = ann(InnerTerm::VoidTypeIntro, universe(0, Usage::Shared));
    let binder = var(0);
    let once = var(0);
    let twice = bare(InnerTerm::PairIntro(var(0), var(0)));
    assert!(check_usage(&binder, unique_ty.clone(), &once, 0, Context::new()).is_ok());
    let errs = check_usage(&binder, unique_ty, &twice, 0, Context::new()).unwrap_err();
    match errs[0].error() {
        InnerError::MismatchedUsage { var_index, exp_usage, giv_usage } => {
            assert_eq!(*var_index, 0);
            assert_eq!(*exp_usage, (1, 1));
            assert_eq!(*giv_usage, (2, 2));
        },
        _ => panic!("expected a usage mismatch"),
    }
    assert!(check_usage(&binder, shared_ty, &twice, 0, Context::new()).is_ok());
}

#[test]
fn check_type_accepts() {
    let t = var(0);
    assert!(check_type(&t, Context::new()).is_ok());
}

#[test]
fn push_many_then_wrap() {
    let t = var(0);
    let mut errors: Vec<Error> = Vec::new();
    push_check::<()>(&mut errors, Ok(()));
    push_check::<()>(&mut errors, Err(vec![]));
    assert!(wrap_checks(errors).is_ok());
    let mut errors: Vec<Error> = Vec::new();
    push_check::<()>(&mut errors, Err(vec![Error::new(&t, Context::new(), InnerError::NonexistentVar { index: 1 })]));
    push_check::<()>(&mut errors, Ok(()));
    push_check::<()>(&mut errors, Err(vec![Error::new(&t, Context::new(), InnerError::NonexistentVar { index: 2 })]));
    let errs = wrap_checks(errors).unwrap_err();
    assert_eq!(errs.len(), 2);
    assert!(matches!(errs[0].error(), InnerError::NonexistentVar { index: 1 }));
    assert!(matches!(errs[1].error(), InnerError::NonexistentVar { index: 2 }));
}
