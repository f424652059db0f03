//! A stack of scopes mapping symbol identifiers to values; the innermost binding wins.
use std::collections::HashMap;
use vstd::prelude::*;
use crate::ast::SID;

verus! {

broadcast use vstd::std_specs::hash::group_hash_axioms;

/// A stack of scopes; the last scope is the innermost.
#[derive(Debug)]
pub struct Environment<T> {
    scopes: Vec<HashMap<SID, T>>,
}

/// The binding of `id` in the innermost scope of `scopes` that binds it.
pub open spec fn scopes_lookup<T>(scopes: Seq<Map<SID, T>>, id: SID) -> Option<T>
    decreases scopes.len(),
{
    if scopes.len() == 0 {
        None
    } else if scopes.last().contains_key(id) {
        Some(scopes.last()[id])
    } else {
        scopes_lookup(scopes.drop_last(), id)
    }
}

/// `m` with the pairs of `pairs` inserted in order (a later pair overrides an earlier one).
pub open spec fn insert_all<T>(m: Map<SID, T>, pairs: Seq<(SID, T)>) -> Map<SID, T>
    decreases pairs.len(),
{
    if pairs.len() == 0 {
        m
    } else {
        insert_all(m, pairs.drop_last()).insert(pairs.last().0, pairs.last().1)
    }
}

impl<T> View for Environment<T> {
    type V = Seq<Map<SID, T>>;

    closed spec fn view(&self) -> Seq<Map<SID, T>> {
        self.scopes@.map_values(|m: HashMap<SID, T>| m@)
    }
}

impl<T: Clone> Environment<T> {
    /// An environment without any scope: definitions are ignored until a scope is pushed.
    pub fn new() -> (e: Self)
        ensures
            e@ == Seq::<Map<SID, T>>::empty(),
    {
        Self { scopes: Vec::new() }
    }

    /// Binds `id` to `value` in the innermost scope, if there is one.
    pub fn define(&mut self, id: SID, value: T)
        ensures
            old(self)@.len() == 0 ==> final(self)@ == old(self)@,
            old(self)@.len() > 0 ==> final(self)@ == old(self)@.update(
                old(self)@.len() - 1,
                old(self)@.last().insert(id, value),
            ),
    {
        let n = self.scopes.len();
        if n > 0 {
            let mut scope = self.scopes.pop().unwrap();
            scope.insert(id, value);
            self.scopes.push(scope);
            proof {
                assert(self@ =~= old(self)@.update(
                    old(self)@.len() - 1,
                    old(self)@.last().insert(id, value),
                ));
            }
        }
    }

    /// Binds each pair of `pairs`, in order, in the innermost scope, if there is one.
    pub fn define_many(&mut self, pairs: Vec<(SID, T)>)
        ensures
            old(self)@.len() == 0 ==> final(self)@ == old(self)@,
            old(self)@.len() > 0 ==> final(self)@ == old(self)@.update(
                old(self)@.len() - 1,
                insert_all(old(self)@.last(), pairs@),
            ),
    {
        let n = self.scopes.len();
        if n > 0 {
            let mut scope = self.scopes.pop().unwrap();
            let ghost m0 = scope@;
            let ghost all = pairs@;
            let total: usize = pairs.len();
            let mut rest = pairs;
            let mut i: usize = 0;
            while rest.len() > 0
                invariant
                    i + rest@.len() == all.len(),
                    all.len() == total,
                    rest@ == all.skip(i as int),
                    scope@ == insert_all(m0, all.take(i as int)),
                decreases rest.len(),
            {
                let (k, v) = rest.remove(0);
                assert(all.take(i + 1).drop_last() =~= all.take(i as int));
                assert(all[i as int] == (k, v));
                scope.insert(k, v);
                i += 1;
                assert(rest@ =~= all.skip(i as int));
            }
            assert(all.take(i as int) =~= all);
            self.scopes.push(scope);
            proof {
                assert(self@ =~= old(self)@.update(
                    old(self)@.len() - 1,
                    insert_all(old(self)@.last(), pairs@),
                ));
            }
        }
    }

    /// The binding of `id` in the innermost scope that binds it (a clone of the stored value).
    pub fn lookup(&self, id: SID) -> (r: Option<T>)
        ensures
            r is Some <==> scopes_lookup(self@, id) is Some,
            r matches Some(v) ==> cloned(scopes_lookup(self@, id).unwrap(), v),
    {
        let mut i = self.scopes.len();
        assert(self@.take(i as int) =~= self@);
        while i > 0
            invariant
                i <= self.scopes.len(),
                scopes_lookup(self@, id) == scopes_lookup(self@.take(i as int), id),
            decreases i,
        {
            assert(self@.take(i as int).drop_last() =~= self@.take(i - 1));
            match self.scopes[i - 1].get(&id) {
                Some(v) => {
                    return Some(v.clone());
                },
                None => {},
            }
            i -= 1;
        }
        None
    }

    /// Pushes a new, empty innermost scope.
    pub fn push_scope(&mut self)
        ensures
            final(self)@ == old(self)@.push(Map::empty()),
    {
        self.scopes.push(HashMap::new());
        proof {
            assert(self@ =~= old(self)@.push(Map::empty()));
        }
    }

    /// Pops the innermost scope, unless it is the only one.
    pub fn pop_scope(&mut self)
        ensures
            old(self)@.len() > 1 ==> final(self)@ == old(self)@.drop_last(),
            old(self)@.len() <= 1 ==> final(self)@ == old(self)@,
            final(self)@ == scopes_pop(old(self)@),
    {
        if self.scopes.len() > 1 {
            self.scopes.pop();
            proof {
                assert(self@ =~= old(self)@.drop_last());
            }
        }
    }
}

/// Looking up an identifier right after defining it in the innermost scope gives the value
/// defined.
pub proof fn law_lookup_after_define<T>(scopes: Seq<Map<SID, T>>, id: SID, v: T)
    requires
        scopes.len() > 0,
    ensures
        scopes_lookup(scopes.update(scopes.len() - 1, scopes.last().insert(id, v)), id) == Some(v),
{
}

/// Defining an identifier leaves the lookup of every other identifier as it was.
pub proof fn law_define_keeps_others<T>(scopes: Seq<Map<SID, T>>, id: SID, other: SID, v: T)
    requires
        scopes.len() > 0,
        id != other,
    ensures
        scopes_lookup(scopes.update(scopes.len() - 1, scopes.last().insert(id, v)), other)
            == scopes_lookup(scopes, other),
{
    let s2 = scopes.update(scopes.len() - 1, scopes.last().insert(id, v));
    assert(s2.drop_last() =~= scopes.drop_last());
}

/// A new scope hides nothing until something is defined in it.
pub proof fn law_push_keeps_lookups<T>(scopes: Seq<Map<SID, T>>, id: SID)
    ensures
        scopes_lookup(scopes.push(Map::empty()), id) == scopes_lookup(scopes, id),
{
    assert(scopes.push(Map::empty()).drop_last() =~= scopes);
}

/// Popping the scope just pushed onto an environment with a scope gives back the environment
/// as it was.
pub proof fn law_pop_after_push<T>(scopes: Seq<Map<SID, T>>)
    requires
        scopes.len() > 0,
    ensures
        scopes.push(Map::empty()).len() > 1,
        scopes.push(Map::empty()).drop_last() == scopes,
{
    assert(scopes.push(Map::empty()).drop_last() =~= scopes);
}

/// The scopes after `pop_scope`: the innermost one removed, unless it is the only one.
pub open spec fn scopes_pop<T>(scopes: Seq<Map<SID, T>>) -> Seq<Map<SID, T>> {
    if scopes.len() > 1 { scopes.drop_last() } else { scopes }
}

/// The scopes after binding each of `batches` in turn in the innermost scope, as
/// `define_many` does (a `define` is a batch of one pair).
pub open spec fn define_all<T>(scopes: Seq<Map<SID, T>>, batches: Seq<Seq<(SID, T)>>) -> Seq<Map<SID, T>>
    decreases batches.len(),
{
    if batches.len() == 0 {
        scopes
    } else {
        let s = define_all(scopes, batches.drop_last());
        if s.len() == 0 {
            s
        } else {
            s.update(s.len() - 1, insert_all(s.last(), batches.last()))
        }
    }
}

/// A `define` binds as a batch of one pair does.
pub proof fn law_define_is_one_batch<T>(scopes: Seq<Map<SID, T>>, id: SID, v: T)
    requires
        scopes.len() > 0,
    ensures
        define_all(scopes, seq![seq![(id, v)]]) == scopes.update(scopes.len() - 1, scopes.last().insert(id, v)),
{
    let b = seq![seq![(id, v)]];
    assert(b.drop_last() =~= Seq::<Seq<(SID, T)>>::empty());
    assert(define_all(scopes, b.drop_last()) == scopes);
    assert(b.last().drop_last() =~= Seq::<(SID, T)>::empty());
    assert(insert_all(scopes.last(), b.last()) == insert_all(scopes.last(), b.last().drop_last()).insert(b.last().last().0, b.last().last().1));
}

/// Bindings change only the innermost scope: the number of scopes and every outer scope
/// stay as they were.
proof fn lemma_define_all_outer<T>(scopes: Seq<Map<SID, T>>, batches: Seq<Seq<(SID, T)>>)
    ensures
        define_all(scopes, batches).len() == scopes.len(),
        define_all(scopes, batches).drop_last() == scopes.drop_last(),
    decreases batches.len(),
{
    if batches.len() > 0 {
        lemma_define_all_outer(scopes, batches.drop_last());
        let s = define_all(scopes, batches.drop_last());
        if s.len() > 0 {
            assert(s.update(s.len() - 1, insert_all(s.last(), batches.last())).drop_last() =~= s.drop_last());
        }
    }
}

/// Pushing a scope onto an environment that has one, binding any batches, then popping
/// gives back the environment as it was, so every lookup is as before.
pub proof fn law_pop_undoes_scope<T>(scopes: Seq<Map<SID, T>>, batches: Seq<Seq<(SID, T)>>)
    requires
        scopes.len() > 0,
    ensures
        scopes_pop(define_all(scopes.push(Map::empty()), batches)) == scopes,
        forall|id: SID| #[trigger] scopes_lookup(scopes_pop(define_all(scopes.push(Map::empty()), batches)), id)
            == scopes_lookup(scopes, id),
{
    lemma_define_all_outer(scopes.push(Map::empty()), batches);
    assert(scopes.push(Map::empty()).drop_last() =~= scopes);
}

/// Popping an environment with a single scope leaves it as it is: the outermost scope is
/// never removed.
pub proof fn law_pop_keeps_outermost<T>(scopes: Seq<Map<SID, T>>)
    requires
        scopes.len() == 1,
    ensures
        scopes_pop(scopes) == scopes,
{
}

} // verus!
