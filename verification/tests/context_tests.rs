use typecore::context::{Context, ContextEntryKind};
use typecore::eval::{normalize, shift};
use typecore::lang::{InnerTerm, List, Term, Usage};
use typecore::typing::is_terms_eq;

fn bare(inner: InnerTerm) -> Term {
    Term(Box::new(inner), None)
}

fn var(i: usize) -> Term {
    bare(InnerTerm::Var(i))
}

fn index_of(t: &Term) -> usize {
    match &*t.0 {
        InnerTerm::Var(i) => *i,
        _ => panic!("not a variable"),
    }
}

#[test]
fn new_context_is_empty() {
    let c = Context::new();
    assert_eq!(c.len(), 0);
    assert!(!c.exists_dec(0));
    assert!(!c.exists_def(0));
    assert!(c.get(0).is_none());
    assert!(c.indices().is_empty());
}

#[test]
fn with_then_get() {
    let c = Context::new().with_dec(2, var(7)).with_def(2, var(8)).with(5, ContextEntryKind::Def, var(9));
    assert_eq!(c.len(), 2);
    assert!(c.exists_dec(2));
    assert!(c.exists_def(2));
    assert!(!c.exists_dec(5));
    assert!(c.exists_def(5));
    assert_eq!(index_of(&c.get_dec(2).unwrap()), 7);
    assert_eq!(index_of(&c.get_def(2).unwrap()), 8);
    assert_eq!(index_of(&c.get_def(5).unwrap()), 9);
    assert!(c.get_dec(5).is_none());
    let e = c.get(2).unwrap();
    assert_eq!(index_of(e.dec.as_ref().unwrap()), 7);
    let idx = c.indices();
    assert!(idx.contains(&2) && idx.contains(&5) && idx.len() == 2);
}

#[test]
fn without_removes() {
    let c = Context::new().with_dec(1, var(0)).with_dec(3, var(0)).without(1);
    assert_eq!(c.len(), 1);
    assert!(!c.exists_dec(1));
    assert!(c.exists_dec(3));
}

#[test]
fn inc_moves_indices() {
    let c = Context::new().with_dec(0, var(4)).with_dec(2, var(5)).inc(3);
    assert_eq!(c.len(), 2);
    assert!(c.exists_dec(3));
    assert!(c.exists_dec(5));
    assert!(!c.exists_dec(0));
    assert_eq!(index_of(&c.get_dec(5).unwrap()), 5);
    let back = c.inc(-3);
    assert!(back.exists_dec(0) && back.exists_dec(2));
}

#[test]
fn shift_moves_free_variables() {
    let c = Context::new().with_dec(0, var(4)).shift(2);
    assert_eq!(index_of(&c.get_dec(0).unwrap()), 6);
    let both = Context::new().with_dec(1, var(0)).inc_and_shift(1);
    assert_eq!(index_of(&both.get_dec(2).unwrap()), 1);
}

#[test]
fn shift_respects_binders() {
    let f = bare(InnerTerm::FunctionIntro(bare(InnerTerm::PairIntro(var(0), var(1)))));
    let s = shift(&f, 0, 10);
    match &*s.0 {
        InnerTerm::FunctionIntro(body) => match &*body.0 {
            InnerTerm::PairIntro(a, b) => {
                assert_eq!(index_of(a), 0);
                assert_eq!(index_of(b), 11);
            },
            _ => panic!(),
        },
        _ => panic!(),
    }
}

#[test]
fn normalize_puts_in_definitions() {
    let defs = Context::new().with_def(0, bare(InnerTerm::UnitIntro));
    let t = bare(InnerTerm::PairIntro(var(0), var(1)));
    let n = normalize(&t, &defs);
    match &*n.0 {
        InnerTerm::PairIntro(a, b) => {
            assert!(matches!(&*a.0, InnerTerm::UnitIntro));
            assert_eq!(index_of(b), 1);
        },
        _ => panic!(),
    }
}

#[test]
fn update_substitutes_through_entries() {
    let c = Context::new().with_dec(1, var(3)).update(2, bare(InnerTerm::UnitIntro));
    // the entry at key 1 has the variable 2 + 1 = 3 replaced
    assert!(matches!(&*c.get_dec(1).unwrap().0, InnerTerm::UnitIntro));
}

#[test]
fn iterator_walks_every_entry_once() {
    let c = Context::new().with_dec(0, var(10)).with_dec(1, var(11)).with_dec(2, var(12));
    let mut it = c.into_iter();
    let mut seen = vec![];
    while let Some((k, e)) = it.next() {
        assert_eq!(index_of(e.dec.as_ref().unwrap()), 10 + k);
        seen.push(k);
    }
    seen.sort();
    assert_eq!(seen, vec![0, 1, 2]);
    assert!(it.next().is_none());
}

#[test]
fn caps_list_holds_every_declaration() {
    let c = Context::new().with_dec(0, var(10)).with_dec(1, var(11));
    let list = c.to_caps_list(3);
    let mut found = vec![];
    let mut cur = &list;
    loop {
        match &cur.1 {
            Some(a) => match &*a.0 {
                InnerTerm::CapturesListTypeIntro(level) => assert_eq!(*level, 3),
                _ => panic!(),
            },
            None => panic!(),
        }
        match &*cur.0 {
            InnerTerm::CapturesListIntro(List::Cons(h, t)) => {
                found.push(index_of(h));
                cur = t;
            },
            InnerTerm::CapturesListIntro(List::Nil) => break,
            _ => panic!(),
        }
    }
    found.sort();
    assert_eq!(found, vec![10, 11]);
}

#[test]
fn caps_list_of_empty_context_is_nil() {
    let list = Context::new().to_caps_list(0);
    assert!(matches!(&*list.0, InnerTerm::CapturesListIntro(List::Nil)));
    let ann = list.1.as_ref().unwrap();
    assert!(is_terms_eq(ann.1.as_ref().unwrap(), &bare(InnerTerm::TypeTypeIntro(0, Usage::Unique))));
}

#[test]
fn inc_keeps_the_number_of_entries() {
    let c = Context::new().with_dec(0, var(1)).with_def(7, var(2)).with_dec(9, var(3));
    assert_eq!(c.len(), 3);
    let moved = c.inc(-0).inc(4);
    assert_eq!(moved.len(), 3);
    assert!(moved.exists_dec(4));
    assert!(moved.exists_def(11));
    assert!(!moved.exists_dec(0));
}
