//! Typing contexts: a finite map from de Bruijn indices to entries, each
//! holding an optional declaration (a type) and an optional definition.

use vstd::prelude::*;
use std::collections::HashMap;
use vstd::std_specs::iter::IteratorSpec;
use std::collections::HashSet;
use crate::lang::{Term, InnerTerm, List, Usage};
use crate::eval::{shift_term, subst_term, shift, normalize, lemma_shift_by_zero};

verus! {

broadcast use vstd::std_specs::hash::group_hash_axioms;


/// The index that key `k` moves to when a context is shifted by `amount`.
pub open spec fn inc_key(k: usize, amount: isize) -> usize {
    ((k as isize) + amount) as usize
}

/// Shifting key `k` by `amount` stays within the range of `isize`.
pub open spec fn inc_key_fits(k: usize, amount: isize) -> bool {
    isize::MIN <= (k as isize) + amount <= isize::MAX
}

/// Every key of `m` can be shifted by `amount`.
pub open spec fn inc_fits(m: Map<usize, ContextEntry>, amount: isize) -> bool {
    forall|k: usize| #[trigger] m.contains_key(k) ==> inc_key_fits(k, amount)
}

/// The map `m` with every key `k` moved to `inc_key(k, amount)`.
pub open spec fn inc_map(m: Map<usize, ContextEntry>, amount: isize) -> Map<usize, ContextEntry> {
    Map::new(
        |k2: usize| exists|k: usize| m.contains_key(k) && #[trigger] inc_key(k, amount) == k2,
        |k2: usize| m[choose|k: usize| m.contains_key(k) && #[trigger] inc_key(k, amount) == k2],
    )
}

/// Distinct keys stay distinct when shifted without overflow.
pub proof fn lemma_inc_key_injective(k1: usize, k2: usize, amount: isize)
    requires
        inc_key_fits(k1, amount),
        inc_key_fits(k2, amount),
        inc_key(k1, amount) == inc_key(k2, amount),
    ensures
        k1 == k2,
{
    let s1: int = (k1 as isize) + amount;
    let s2: int = (k2 as isize) + amount;
    assert((s1 as isize) as int == s1);
    assert((s2 as isize) as int == s2);
    assert(k1 == k2) by (bit_vector)
        requires
            (((k1 as isize) + amount) as isize) == (k1 as isize) + amount,
            (((k2 as isize) + amount) as isize) == (k2 as isize) + amount,
            ((k1 as isize) + amount) as usize == ((k2 as isize) + amount) as usize;
}


/// `s` lists every entry of `m` exactly once, in some order.
pub open spec fn is_enumeration(m: Map<usize, ContextEntry>, s: Seq<(usize, ContextEntry)>) -> bool {
    &&& forall|j: int| 0 <= j < s.len() ==> #[trigger] m.contains_key(s[j].0) && m[s[j].0] == s[j].1
    &&& forall|j1: int, j2: int| 0 <= j1 < s.len() && 0 <= j2 < s.len() && j1 != j2 ==> #[trigger] s[j1].0 != #[trigger] s[j2].0
    &&& forall|k: usize| #[trigger] m.contains_key(k) ==> exists|j: int| 0 <= j < s.len() && s[j].0 == k
}

/// The entry at `index`, if there is one.
pub open spec fn entry_at(m: Map<usize, ContextEntry>, index: usize) -> Option<ContextEntry> {
    if m.contains_key(index) { Some(m[index]) } else { None }
}

/// The entry at `index`, or an empty one.
pub open spec fn entry_or_empty(m: Map<usize, ContextEntry>, index: usize) -> ContextEntry {
    if m.contains_key(index) { m[index] } else { ContextEntry { dec: None, def: None } }
}

/// `with` can add a `kind` entry at `index`: that half is not yet taken.
pub open spec fn can_add(m: Map<usize, ContextEntry>, index: usize, kind: ContextEntryKind) -> bool {
    match kind {
        ContextEntryKind::Dec => entry_or_empty(m, index).dec is None,
        ContextEntryKind::Def => entry_or_empty(m, index).def is None,
    }
}

/// `m` with `entry` filled in as the declaration or definition at `index`.
pub open spec fn with_map(m: Map<usize, ContextEntry>, index: usize, kind: ContextEntryKind, entry: Term) -> Map<usize, ContextEntry> {
    let e = entry_or_empty(m, index);
    m.insert(index, match kind {
        ContextEntryKind::Dec => ContextEntry { dec: Some(entry), def: e.def },
        ContextEntryKind::Def => ContextEntry { dec: e.dec, def: Some(entry) },
    })
}

/// An entry with the free variables of both halves moved by `amount`.
pub open spec fn shift_entry(e: ContextEntry, amount: isize) -> ContextEntry {
    ContextEntry {
        dec: match e.dec { Some(t) => Some(shift_term(t, 0, amount)), None => None },
        def: match e.def { Some(t) => Some(shift_term(t, 0, amount)), None => None },
    }
}

/// Every declaration and definition of `m` with its free variables moved by `amount`.
pub open spec fn shift_map(m: Map<usize, ContextEntry>, amount: isize) -> Map<usize, ContextEntry> {
    Map::new(|k: usize| m.contains_key(k), |k: usize| shift_entry(m[k], amount))
}

/// The one-definition context that `update` substitutes through the entry at key `k`.
pub open spec fn update_defs(index: usize, k: usize, val: Term) -> Map<usize, ContextEntry> {
    Map::empty().insert((index + k) as usize, ContextEntry { dec: None, def: Some(val) })
}

/// An entry at key `k` with `val` substituted for the variable at `index + k`.
pub open spec fn update_entry(e: ContextEntry, index: usize, k: usize, val: Term) -> ContextEntry {
    ContextEntry {
        dec: match e.dec { Some(t) => Some(subst_term(t, 0, update_defs(index, k, val))), None => None },
        def: match e.def { Some(t) => Some(subst_term(t, 0, update_defs(index, k, val))), None => None },
    }
}

/// Every entry of `m` with `val` substituted for the variable at `index + k`,
/// where `k` is the entry's own key.
pub open spec fn update_map(m: Map<usize, ContextEntry>, index: usize, val: Term) -> Map<usize, ContextEntry> {
    Map::new(|k: usize| m.contains_key(k), |k: usize| update_entry(m[k], index, k, val))
}

/// `update` can add `index` to every key of `m`.
pub open spec fn update_fits(m: Map<usize, ContextEntry>, index: usize) -> bool {
    forall|k: usize| #[trigger] m.contains_key(k) ==> index + k <= usize::MAX
}

/// The unannotated variable `j`.
pub open spec fn var_term(j: usize) -> Term {
    Term(Box::new(InnerTerm::Var(j)), None)
}

/// `shift` keeps every index and treats the two halves of each entry alike:
/// the free variables of the declaration and of the definition are both moved
/// by `amount`, so a lone variable `j` in either half becomes `j + amount`
/// (wrapping around the range of `usize`).
pub proof fn lemma_shift_moves_both_halves(m: Map<usize, ContextEntry>, amount: isize, k: usize, j: usize)
    requires
        m.contains_key(k),
    ensures
        shift_map(m, amount).dom() == m.dom(),
        shift_map(m, amount)[k].dec == (match m[k].dec { Some(t) => Some(shift_term(t, 0, amount)), None => None }),
        shift_map(m, amount)[k].def == (match m[k].def { Some(t) => Some(shift_term(t, 0, amount)), None => None }),
        m[k].dec == Some(var_term(j)) ==> shift_map(m, amount)[k].dec == Some(var_term(j.wrapping_add_signed(amount))),
        m[k].def == Some(var_term(j)) ==> shift_map(m, amount)[k].def == Some(var_term(j.wrapping_add_signed(amount))),
{
    assert(shift_map(m, amount).dom() =~= m.dom());
}

/// `update` keeps every index and treats the two halves of each entry alike:
/// in the declaration and in the definition at key `k`, `val` is put in for
/// the variable `index + k`, so that variable on its own becomes `val`.
pub proof fn lemma_update_substitutes_both_halves(m: Map<usize, ContextEntry>, index: usize, val: Term, k: usize)
    requires
        m.contains_key(k),
        index + k <= usize::MAX,
    ensures
        update_map(m, index, val).dom() == m.dom(),
        update_map(m, index, val)[k].dec == (match m[k].dec {
            Some(t) => Some(subst_term(t, 0, Map::empty().insert((index + k) as usize, ContextEntry { dec: None, def: Some(val) }))),
            None => None,
        }),
        update_map(m, index, val)[k].def == (match m[k].def {
            Some(t) => Some(subst_term(t, 0, Map::empty().insert((index + k) as usize, ContextEntry { dec: None, def: Some(val) }))),
            None => None,
        }),
        m[k].dec == Some(var_term((index + k) as usize)) ==> update_map(m, index, val)[k].dec == Some(val),
        m[k].def == Some(var_term((index + k) as usize)) ==> update_map(m, index, val)[k].def == Some(val),
{
    assert(update_map(m, index, val).dom() =~= m.dom());
    lemma_shift_by_zero(val, 0);
    let defs = update_defs(index, k, val);
    assert(defs == Map::empty().insert((index + k) as usize, ContextEntry { dec: None, def: Some(val) }));
    assert(subst_term(var_term((index + k) as usize), 0, defs) == shift_term(val, 0, 0));
}

/// The annotation every node of a generated captures list carries.
pub open spec fn caps_list_ann(level: usize) -> Option<Box<Term>> {
    Some(Box::new(Term(
        Box::new(InnerTerm::CapturesListTypeIntro(level)),
        Some(Box::new(Term(Box::new(InnerTerm::TypeTypeIntro(level, Usage::Unique)), None))),
    )))
}

/// The captures list built by consing `decs[0]`, then `decs[1]`, ... onto the empty list.
pub open spec fn caps_list_of(decs: Seq<Term>, level: usize) -> Term
    decreases decs.len(),
{
    if decs.len() == 0 {
        Term(Box::new(InnerTerm::CapturesListIntro(List::Nil)), caps_list_ann(level))
    } else {
        Term(
            Box::new(InnerTerm::CapturesListIntro(List::Cons(decs.last(), caps_list_of(decs.drop_last(), level)))),
            caps_list_ann(level),
        )
    }
}

/// The declarations of the entries listed in `s`.
pub open spec fn decs_of(s: Seq<(usize, ContextEntry)>) -> Seq<Term> {
    s.map_values(|p: (usize, ContextEntry)| p.1.dec.unwrap())
}

/// Every entry of `m` has a declaration.
pub open spec fn all_declared(m: Map<usize, ContextEntry>) -> bool {
    forall|k: usize| #[trigger] m.contains_key(k) ==> m[k].dec is Some
}


/// Reading back what `with` wrote: the filled half holds `entry`, the other
/// half and every other index are as before.
pub proof fn lemma_with_then_get(m: Map<usize, ContextEntry>, index: usize, kind: ContextEntryKind, entry: Term, other: usize)
    requires
        other != index,
    ensures
        with_map(m, index, kind, entry).contains_key(index),
        kind == ContextEntryKind::Dec ==> with_map(m, index, kind, entry)[index].dec == Some(entry)
            && with_map(m, index, kind, entry)[index].def == entry_or_empty(m, index).def,
        kind == ContextEntryKind::Def ==> with_map(m, index, kind, entry)[index].def == Some(entry)
            && with_map(m, index, kind, entry)[index].dec == entry_or_empty(m, index).dec,
        entry_at(with_map(m, index, kind, entry), other) == entry_at(m, other),
{
}

/// Moving the indices of a finite context by an amount that keeps them in
/// range neither merges nor loses entries: their number stays the same.
pub proof fn lemma_inc_keeps_len(m: Map<usize, ContextEntry>, amount: isize)
    requires
        m.dom().finite(),
        inc_fits(m, amount),
    ensures
        inc_map(m, amount).dom().finite(),
        inc_map(m, amount).len() == m.len(),
{
    let f = |k: usize| inc_key(k, amount);
    assert forall|k1: usize, k2: usize| m.dom().contains(k1) && m.dom().contains(k2) && #[trigger] f(k1) == #[trigger] f(k2)
        implies k1 == k2 by {
        lemma_inc_key_injective(k1, k2, amount);
    }
    assert(m.dom().map(f) =~= inc_map(m, amount).dom());
    vstd::set_lib::lemma_map_size(m.dom(), inc_map(m, amount).dom(), f);
}

proof fn lemma_inc_key_roundtrip(k: usize, amount: isize)
    requires
        inc_key_fits(k, amount),
        amount > isize::MIN,
    ensures
        inc_key_fits(inc_key(k, amount), (-amount) as isize),
        inc_key(inc_key(k, amount), (-amount) as isize) == k,
{
    let s: int = (k as isize) + amount;
    assert((s as isize) as int == s);
    let neg: int = -amount;
    assert((neg as isize) as int == neg);
    assert((((((k as isize) + amount) as usize) as isize) as int) == (k as isize) + amount) by (bit_vector)
        requires
            (((k as isize) + amount) as isize) == (k as isize) + amount;
    let k2 = inc_key(k, amount);
    assert((k2 as isize) + ((-amount) as isize) == k as isize);
    assert((((k2 as isize) + ((-amount) as isize)) as usize) == k) by (bit_vector)
        requires
            (k2 as isize) + ((-amount) as isize) == k as isize;
}

/// Moving a context's indices by `amount` and then by `-amount` gives it back.
pub proof fn lemma_inc_inverse(m: Map<usize, ContextEntry>, amount: isize)
    requires
        inc_fits(m, amount),
        amount > isize::MIN,
    ensures
        inc_fits(inc_map(m, amount), (-amount) as isize),
        inc_map(inc_map(m, amount), (-amount) as isize) == m,
{
    let m1 = inc_map(m, amount);
    let neg = (-amount) as isize;
    assert forall|k1: usize| #[trigger] m1.contains_key(k1) implies inc_key_fits(k1, neg)
        && m.contains_key(inc_key(k1, neg))
        && m1[k1] == m[inc_key(k1, neg)] by {
        let k0 = choose|k: usize| m.contains_key(k) && #[trigger] inc_key(k, amount) == k1;
        lemma_inc_key_roundtrip(k0, amount);
    }
    let m2 = inc_map(m1, neg);
    assert forall|k: usize| #[trigger] m2.contains_key(k) <==> m.contains_key(k) by {
        if m.contains_key(k) {
            lemma_inc_key_roundtrip(k, amount);
            assert(m1.contains_key(inc_key(k, amount)));
        }
        if m2.contains_key(k) {
            let k1 = choose|k1: usize| m1.contains_key(k1) && #[trigger] inc_key(k1, neg) == k;
        }
    }
    assert forall|k: usize| #[trigger] m2.contains_key(k) implies m2[k] == m[k] by {
        let k1 = choose|k1: usize| m1.contains_key(k1) && #[trigger] inc_key(k1, neg) == k;
        assert(m1[k1] == m[k]);
    }
    assert(m2 =~= m);
}

/// Which half of a context entry an insertion fills.
#[derive(PartialEq, Eq, Structural, Clone, Copy, Debug, Hash)]
pub enum ContextEntryKind {
    Dec,
    Def,
}

/// What a context knows of one index: its type, its value, or both.
#[derive(Debug, PartialEq, Eq, Hash)]
pub struct ContextEntry {
    pub dec: Option<Term>,
    pub def: Option<Term>,
}

impl Clone for ContextEntry {
    fn clone(&self) -> (res: Self)
        ensures
            res == *self,
    {
        let dec = match &self.dec {
            Some(t) => Some(t.clone()),
            None => None,
        };
        let def = match &self.def {
            Some(t) => Some(t.clone()),
            None => None,
        };
        ContextEntry { dec, def }
    }
}

/// A typing context.
#[derive(Debug)]
pub struct Context(HashMap<usize, ContextEntry>);

impl View for Context {
    type V = Map<usize, ContextEntry>;

    closed spec fn view(&self) -> Map<usize, ContextEntry> {
        self.0@
    }
}

impl Clone for Context {
    fn clone(&self) -> (res: Self)
        ensures
            res@ == self@,
    {
        Context(self.0.clone())
    }
}

impl Context {
    pub fn new() -> (res: Self)
        ensures
            res@ == Map::<usize, ContextEntry>::empty(),
    {
        Context(HashMap::new())
    }


    /// Whether index `index` has a declaration.
    pub fn exists_dec(&self, index: usize) -> (res: bool)
        ensures
            res == (self@.contains_key(index) && self@[index].dec is Some),
    {
        match self.0.get(&index) {
            Some(e) => e.dec.is_some(),
            None => false,
        }
    }

    /// Whether index `index` has a definition.
    pub fn exists_def(&self, index: usize) -> (res: bool)
        ensures
            res == (self@.contains_key(index) && self@[index].def is Some),
    {
        match self.0.get(&index) {
            Some(e) => e.def.is_some(),
            None => false,
        }
    }

    /// The entry at `index`, if there is one.
    pub fn get(&self, index: usize) -> (res: Option<ContextEntry>)
        ensures
            res == entry_at(self@, index),
    {
        match self.0.get(&index) {
            Some(term) => Some(term.clone()),
            None => None,
        }
    }

    /// The declaration at `index`, if there is one.
    pub fn get_dec(&self, index: usize) -> (res: Option<Term>)
        ensures
            res == (match entry_at(self@, index) { Some(e) => e.dec, None => None }),
    {
        match self.get(index) {
            Some(e) => e.dec,
            None => None,
        }
    }

    /// The definition at `index`, if there is one.
    pub fn get_def(&self, index: usize) -> (res: Option<Term>)
        ensures
            res == (match entry_at(self@, index) { Some(e) => e.def, None => None }),
    {
        match self.get(index) {
            Some(e) => e.def,
            None => None,
        }
    }

    /// Fills in the declaration or definition at `index`; that half must be empty.
    pub fn with(self, index: usize, kind: ContextEntryKind, entry: Term) -> (res: Self)
        requires
            can_add(self@, index, kind),
        ensures
            res@ == with_map(self@, index, kind, entry),
    {
        let mut map = self.0;
        let old = map.remove(&index);
        let e = match old {
            Some(e) => e,
            None => ContextEntry { dec: None, def: None },
        };
        let new_entry = match kind {
            ContextEntryKind::Dec => ContextEntry { dec: Some(entry), def: e.def },
            ContextEntryKind::Def => ContextEntry { dec: e.dec, def: Some(entry) },
        };
        map.insert(index, new_entry);
        Context(map)
    }

    /// Adds the declaration `entry` at `index`.
    pub fn with_dec(self, index: usize, entry: Term) -> (res: Self)
        requires
            can_add(self@, index, ContextEntryKind::Dec),
        ensures
            res@ == with_map(self@, index, ContextEntryKind::Dec, entry),
    {
        self.with(index, ContextEntryKind::Dec, entry)
    }

    /// Adds the definition `entry` at `index`.
    pub fn with_def(self, index: usize, entry: Term) -> (res: Self)
        requires
            can_add(self@, index, ContextEntryKind::Def),
        ensures
            res@ == with_map(self@, index, ContextEntryKind::Def, entry),
    {
        self.with(index, ContextEntryKind::Def, entry)
    }

    /// Drops the entry at `index`.
    pub fn without(self, index: usize) -> (res: Self)
        ensures
            res@ == self@.remove(index),
    {
        let mut map = self.0;
        map.remove(&index);
        Context(map)
    }

    /// The number of indices with an entry.
    pub fn len(&self) -> (res: usize)
        ensures
            res == self@.len(),
    {
        self.0.len()
    }

    /// A context holds finitely many entries.
    pub proof fn lemma_finite(&self)
        ensures
            self@.dom().finite(),
    {
    }

    /// Whether every index can be moved by `amount` without leaving the
    /// range of `isize`, as `inc` needs.
    pub fn fits_inc(&self, amount: isize) -> (res: bool)
        ensures
            res == inc_fits(self@, amount),
    {
        let es = self.entries();
        let n = es.len();
        for i in 0..n
            invariant
                n == es@.len(),
                is_enumeration(self@, es@),
                forall|j: int| 0 <= j < i ==> #[trigger] inc_key_fits(es@[j].0, amount),
        {
            let k = es[i].0;
            let ki = k as isize;
            if ki.checked_add(amount).is_none() {
                assert(self@.contains_key(es@[i as int].0));
                assert(!inc_key_fits(k, amount));
                return false;
            }
        }
        proof {
            assert forall|k: usize| #[trigger] self@.contains_key(k) implies inc_key_fits(k, amount) by {
                let j = choose|j: int| 0 <= j < es@.len() && es@[j].0 == k;
                assert(inc_key_fits(es@[j].0, amount));
            }
        }
        true
    }

    /// Whether `index` can be added to every index, as `update` needs.
    pub fn fits_update(&self, index: usize) -> (res: bool)
        ensures
            res == update_fits(self@, index),
    {
        let es = self.entries();
        let n = es.len();
        for i in 0..n
            invariant
                n == es@.len(),
                is_enumeration(self@, es@),
                forall|j: int| 0 <= j < i ==> index + #[trigger] es@[j].0 <= usize::MAX,
        {
            let k = es[i].0;
            if k > usize::MAX - index {
                assert(self@.contains_key(es@[i as int].0));
                return false;
            }
        }
        proof {
            assert forall|k: usize| #[trigger] self@.contains_key(k) implies index + k <= usize::MAX by {
                let j = choose|j: int| 0 <= j < es@.len() && es@[j].0 == k;
                assert(index + es@[j].0 <= usize::MAX);
            }
        }
        true
    }

    /// Every entry of the context once, in the order the map yields them.
    fn entries(&self) -> (res: Vec<(usize, ContextEntry)>)
        ensures
            is_enumeration(self@, res@),
    {
        let mut out: Vec<(usize, ContextEntry)> = Vec::new();
        let iter = self.0.iter();
        let ghost s = iter.remaining();
        for (k, v) in it: iter
            invariant
                it.seq() == s,
                s.no_duplicates(),
                forall|j: int| 0 <= j < s.len() ==> #[trigger] self.0@.contains_key(*s[j].0) && self.0@[*s[j].0] == *s[j].1,
                forall|k: usize| #[trigger] self.0@.contains_key(k) ==> s.contains((&k, &self.0@[k])),
                out@.len() == it.index(),
                forall|j: int| 0 <= j < it.index() ==> #[trigger] out@[j] == (*s[j].0, *s[j].1),
        {
            out.push((*k, v.clone()));
        }
        proof {
            assert forall|j1: int, j2: int| 0 <= j1 < out@.len() && 0 <= j2 < out@.len() && j1 != j2
                implies #[trigger] out@[j1].0 != #[trigger] out@[j2].0 by {
                if out@[j1].0 == out@[j2].0 {
                    assert(out@[j1] == (*s[j1].0, *s[j1].1));
                    assert(out@[j2] == (*s[j2].0, *s[j2].1));
                    assert(self.0@.contains_key(*s[j1].0));
                    assert(self.0@.contains_key(*s[j2].0));
                    assert(s[j1] == s[j2]);
                }
            }
            assert forall|k: usize| #[trigger] self@.contains_key(k) implies exists|j: int| 0 <= j < out@.len() && out@[j].0 == k by {
                assert(s.contains((&k, &self.0@[k])));
                let j = choose|j: int| 0 <= j < s.len() && s[j] == (&k, &self.0@[k]);
                assert(out@[j] == (*s[j].0, *s[j].1));
            }
            assert forall|j: int| 0 <= j < out@.len() implies #[trigger] self@.contains_key(out@[j].0) && self@[out@[j].0] == out@[j].1 by {
                assert(out@[j] == (*s[j].0, *s[j].1));
                assert(self.0@.contains_key(*s[j].0));
            }
        }
        out
    }

    /// Moves every entry from index `k` to index `k + amount`.
    #[verifier::spinoff_prover]
    pub fn inc(self, amount: isize) -> (res: Self)
        requires
            inc_fits(self@, amount),
        ensures
            res@ == inc_map(self@, amount),
            res@.len() == self@.len(),
    {
        let es = self.entries();
        let mut new_map: HashMap<usize, ContextEntry> = HashMap::new();
        let n = es.len();
        for i in 0..n
            invariant
                n == es@.len(),
                is_enumeration(self@, es@),
                inc_fits(self@, amount),
                forall|j: int| 0 <= j < i ==> #[trigger] new_map@.contains_key(inc_key(es@[j].0, amount))
                    && new_map@[inc_key(es@[j].0, amount)] == es@[j].1,
                forall|k2: usize| #[trigger] new_map@.contains_key(k2) ==> exists|j: int| 0 <= j < i && inc_key(es@[j].0, amount) == k2,
        {
            let k = es[i].0;
            assert(self@.contains_key(es@[i as int].0));
            assert(inc_key_fits(k, amount));
            let nk = ((k as isize) + amount) as usize;
            assert forall|j: int| 0 <= j < i implies inc_key(es@[j].0, amount) != nk by {
                if inc_key(es@[j].0, amount) == nk {
                    assert(self@.contains_key(es@[j].0));
                    lemma_inc_key_injective(es@[j].0, k, amount);
                }
            }
            new_map.insert(nk, es[i].1.clone());
        }
        proof {
            assert forall|k2: usize| #[trigger] inc_map(self@, amount).contains_key(k2) implies new_map@.contains_key(k2) by {
                let k = choose|k: usize| self@.contains_key(k) && #[trigger] inc_key(k, amount) == k2;
                let j = choose|j: int| 0 <= j < es@.len() && es@[j].0 == k;
                assert(new_map@.contains_key(inc_key(es@[j].0, amount)));
            }
            assert forall|k2: usize| #[trigger] new_map@.contains_key(k2) implies inc_map(self@, amount).contains_key(k2)
                && new_map@[k2] == inc_map(self@, amount)[k2] by {
                let j = choose|j: int| 0 <= j < n && inc_key(es@[j].0, amount) == k2;
                let kj = es@[j].0;
                assert(self@.contains_key(kj));
                assert(inc_map(self@, amount).contains_key(k2));
                let k = choose|k: usize| self@.contains_key(k) && #[trigger] inc_key(k, amount) == k2;
                lemma_inc_key_injective(k, kj, amount);
            }
            assert(new_map@ =~= inc_map(self@, amount));
            assert(new_map@.len() == self@.len()) by {
                self.lemma_finite();
                lemma_inc_keeps_len(self@, amount);
            }
        }
        Context(new_map)
    }

    /// Moves the free variables of every declaration and definition by `amount`.
    pub fn shift(self, amount: isize) -> (res: Self)
        ensures
            res@ == shift_map(self@, amount),
    {
        let es = self.entries();
        let mut new_map: HashMap<usize, ContextEntry> = HashMap::new();
        let n = es.len();
        for i in 0..n
            invariant
                n == es@.len(),
                is_enumeration(self@, es@),
                forall|j: int| 0 <= j < i ==> #[trigger] new_map@.contains_key(es@[j].0)
                    && new_map@[es@[j].0] == shift_entry(es@[j].1, amount),
                forall|k: usize| #[trigger] new_map@.contains_key(k) ==> exists|j: int| 0 <= j < i && es@[j].0 == k,
        {
            let k = es[i].0;
            let e = &es[i].1;
            let dec = match &e.dec {
                Some(t) => Some(shift(t, 0, amount)),
                None => None,
            };
            let def = match &e.def {
                Some(t) => Some(shift(t, 0, amount)),
                None => None,
            };
            new_map.insert(k, ContextEntry { dec, def });
        }
        proof {
            assert forall|k: usize| #[trigger] new_map@.contains_key(k) <==> self@.contains_key(k) by {
                if self@.contains_key(k) {
                    let j = choose|j: int| 0 <= j < es@.len() && es@[j].0 == k;
                    assert(new_map@.contains_key(es@[j].0));
                }
                if new_map@.contains_key(k) {
                    let j = choose|j: int| 0 <= j < n && es@[j].0 == k;
                    assert(self@.contains_key(es@[j].0));
                }
            }
            assert forall|k: usize| #[trigger] new_map@.contains_key(k) implies new_map@[k] == shift_map(self@, amount)[k] by {
                let j = choose|j: int| 0 <= j < n && es@[j].0 == k;
                assert(self@.contains_key(es@[j].0));
            }
            assert(new_map@ =~= shift_map(self@, amount));
        }
        Context(new_map)
    }

    /// Substitutes `val` for the variable at `index + k` in the entry at each key `k`.
    pub fn update(self, index: usize, val: Term) -> (res: Self)
        requires
            update_fits(self@, index),
        ensures
            res@ == update_map(self@, index, val),
    {
        let es = self.entries();
        let mut new_map: HashMap<usize, ContextEntry> = HashMap::new();
        let n = es.len();
        for i in 0..n
            invariant
                n == es@.len(),
                is_enumeration(self@, es@),
                update_fits(self@, index),
                forall|j: int| 0 <= j < i ==> #[trigger] new_map@.contains_key(es@[j].0)
                    && new_map@[es@[j].0] == update_entry(es@[j].1, index, es@[j].0, val),
                forall|k: usize| #[trigger] new_map@.contains_key(k) ==> exists|j: int| 0 <= j < i && es@[j].0 == k,
        {
            let k = es[i].0;
            assert(self@.contains_key(es@[i as int].0));
            let e = &es[i].1;
            let dec = match &e.dec {
                Some(t) => {
                    let defs = Context::new().with_def(index + k, val.clone());
                    assert(defs@ =~= update_defs(index, k, val));
                    Some(normalize(t, &defs))
                },
                None => None,
            };
            let def = match &e.def {
                Some(t) => {
                    let defs = Context::new().with_def(index + k, val.clone());
                    assert(defs@ =~= update_defs(index, k, val));
                    Some(normalize(t, &defs))
                },
                None => None,
            };
            let ne = ContextEntry { dec, def };
            assert(ne == update_entry(es@[i as int].1, index, k, val));
            new_map.insert(k, ne);
        }
        proof {
            assert forall|k: usize| #[trigger] new_map@.contains_key(k) <==> self@.contains_key(k) by {
                if self@.contains_key(k) {
                    let j = choose|j: int| 0 <= j < es@.len() && es@[j].0 == k;
                    assert(new_map@.contains_key(es@[j].0));
                }
                if new_map@.contains_key(k) {
                    let j = choose|j: int| 0 <= j < n && es@[j].0 == k;
                    assert(self@.contains_key(es@[j].0));
                }
            }
            assert forall|k: usize| #[trigger] new_map@.contains_key(k) implies new_map@[k] == update_map(self@, index, val)[k] by {
                let j = choose|j: int| 0 <= j < n && es@[j].0 == k;
                assert(self@.contains_key(es@[j].0));
            }
            assert(new_map@ =~= update_map(self@, index, val));
        }
        Context(new_map)
    }

    /// Moves every entry up by `amount` indices and the free variables in them by `amount`.
    pub fn inc_and_shift(self, amount: isize) -> (res: Self)
        requires
            inc_fits(self@, amount),
        ensures
            res@ == shift_map(inc_map(self@, amount), amount),
    {
        self.inc(amount).shift(amount)
    }

    /// An iterator over the entries of the context.
    pub fn into_iter(self) -> (res: ContextIterator)
        ensures
            is_enumeration(self@, res@.0),
            res@.1 == 0,
    {
        ContextIterator::new(self)
    }

    /// The captures list of the declarations of all entries, each entry's
    /// declaration consed on in the order the entries are walked. Every entry
    /// must have a declaration.
    pub fn to_caps_list(self, exp_level: usize) -> (res: Term)
        requires
            all_declared(self@),
        ensures
            exists|s: Seq<(usize, ContextEntry)>| is_enumeration(self@, s) && res == caps_list_of(decs_of(s), exp_level),
    {
        let ghost m = self@;
        let core_nil = Term(
            Box::new(InnerTerm::CapturesListIntro(List::Nil)),
            Some(Box::new(Term(
                Box::new(InnerTerm::CapturesListTypeIntro(exp_level)),
                Some(Box::new(Term(Box::new(InnerTerm::TypeTypeIntro(exp_level, Usage::Unique)), None))),
            ))),
        );
        let mut iter = self.into_iter();
        let ghost s = iter@.0;
        let mut list = core_nil;
        assert(decs_of(s).take(0) =~= Seq::<Term>::empty());
        while iter.has_next()
            invariant
                iter@.0 == s,
                is_enumeration(m, s),
                all_declared(m),
                0 <= iter@.1 <= s.len(),
                list == caps_list_of(decs_of(s).take(iter@.1 as int), exp_level),
            decreases s.len() - iter@.1,
        {
            let ghost j: int = iter@.1 as int;
            let (k, entry) = iter.next_entry();
            assert(m.contains_key(s[j].0));
            let dec = match entry.dec {
                Some(d) => d,
                None => { assert(false); Term(Box::new(InnerTerm::UnitIntro), None) },
            };
            list = Term(
                Box::new(InnerTerm::CapturesListIntro(List::Cons(dec, list))),
                Some(Box::new(Term(
                    Box::new(InnerTerm::CapturesListTypeIntro(exp_level)),
                    Some(Box::new(Term(Box::new(InnerTerm::TypeTypeIntro(exp_level, Usage::Unique)), None))),
                ))),
            );
            assert(decs_of(s).take(j + 1).drop_last() =~= decs_of(s).take(j));
        }
        assert(decs_of(s).take(s.len() as int) =~= decs_of(s));
        list
    }

    pub fn indices(&self) -> (res: HashSet<usize>)
        ensures
            res@ == self@.dom(),
    {
        let mut set = HashSet::new();
        let keys = self.0.keys();
        let ghost s = keys.remaining();
        for key in it: keys
            invariant
                it.seq() == s,
                forall|j: int| 0 <= j < it.index() ==> set@.contains(*#[trigger] s[j]),
                forall|x: usize| set@.contains(x) ==> exists|j: int| 0 <= j < it.index() && *#[trigger] s[j] == x,
        {
            set.insert(*key);
        }
        proof {
            assert(s.unref().to_set() == self.0@.dom());
            assert forall|x: usize| set@.contains(x) <==> self.0@.dom().contains(x) by {
                if self.0@.dom().contains(x) {
                    assert(s.unref().to_set().contains(x));
                    let j = choose|j: int| 0 <= j < s.unref().len() && s.unref()[j] == x;
                    assert(*s[j] == x);
                }
                if set@.contains(x) {
                    let j = choose|j: int| 0 <= j < s.len() && *#[trigger] s[j] == x;
                    assert(s.unref()[j] == x);
                    assert(s.unref().contains(x));
                }
            }
            assert(set@ =~= self@.dom());
        }
        set
    }
}

/// The entries of a context, walked one at a time.
pub struct ContextIterator {
    entries: Vec<(usize, ContextEntry)>,
    pos: usize,
}

impl View for ContextIterator {
    type V = (Seq<(usize, ContextEntry)>, nat);

    closed spec fn view(&self) -> (Seq<(usize, ContextEntry)>, nat) {
        (self.entries@, self.pos as nat)
    }
}

impl ContextIterator {
    fn new(context: Context) -> (res: ContextIterator)
        ensures
            is_enumeration(context@, res@.0),
            res@.1 == 0,
    {
        ContextIterator { entries: context.entries(), pos: 0 }
    }

    /// Whether an entry is left.
    pub fn has_next(&self) -> (res: bool)
        ensures
            res == (self@.1 < self@.0.len()),
    {
        self.pos < self.entries.len()
    }

    /// The next entry; there must be one.
    fn next_entry(&mut self) -> (res: (usize, ContextEntry))
        requires
            old(self)@.1 < old(self)@.0.len(),
        ensures
            res == old(self)@.0[old(self)@.1 as int],
            final(self)@.0 == old(self)@.0,
            final(self)@.1 == old(self)@.1 + 1,
    {
        let e = (self.entries[self.pos].0, self.entries[self.pos].1.clone());
        let len = self.entries.len();
        assert(self.pos < len);
        self.pos = self.pos + 1;
        e
    }

    /// The next entry, or `None` once every entry has been returned.
    pub fn next(&mut self) -> (res: Option<(usize, ContextEntry)>)
        ensures
            final(self)@.0 == old(self)@.0,
            old(self)@.1 < old(self)@.0.len() ==> res == Some(old(self)@.0[old(self)@.1 as int]) && final(self)@.1 == old(self)@.1 + 1,
            old(self)@.1 >= old(self)@.0.len() ==> res is None && final(self)@.1 == old(self)@.1,
    {
        if self.pos < self.entries.len() {
            Some(self.next_entry())
        } else {
            None
        }
    }
}

} // verus!
