//! A stack of scopes binding symbols to values; the innermost binding of a symbol wins.
use vstd::prelude::*;
use crate::ast::{Symbol, SymbolV};
use crate::interpreter::value::{Value, ValueV, copy_value};

verus! {

broadcast use vstd::std_specs::vec::group_vec_axioms;

/// A stack of scopes; the last scope is the innermost, and within a scope a later binding
/// of a symbol hides an earlier one.
pub struct Environment {
    scopes: Vec<Vec<(Symbol, Value)>>,
}

/// The map that the bindings of one scope denote.
pub open spec fn scope_view(bs: Seq<(Symbol, Value)>) -> Map<SymbolV, ValueV>
    decreases bs.len(),
{
    if bs.len() == 0 {
        Map::empty()
    } else {
        scope_view(bs.drop_last()).insert(bs.last().0@, bs.last().1@)
    }
}

/// `m` with the pairs of `ps` bound in order (a later pair wins).
pub open spec fn bind_all(m: Map<SymbolV, ValueV>, ps: Seq<(Symbol, Value)>) -> Map<SymbolV, ValueV>
    decreases ps.len(),
{
    if ps.len() == 0 {
        m
    } else {
        bind_all(m, ps.drop_last()).insert(ps.last().0@, ps.last().1@)
    }
}

/// The value bound to `s` in the innermost scope that binds it.
pub open spec fn lookup_scopes(scopes: Seq<Map<SymbolV, ValueV>>, s: SymbolV) -> Option<ValueV>
    decreases scopes.len(),
{
    if scopes.len() == 0 {
        None
    } else if scopes.last().contains_key(s) {
        Some(scopes.last()[s])
    } else {
        lookup_scopes(scopes.drop_last(), s)
    }
}

impl View for Environment {
    type V = Seq<Map<SymbolV, ValueV>>;

    closed spec fn view(&self) -> Seq<Map<SymbolV, ValueV>> {
        self.scopes@.map_values(|bs: Vec<(Symbol, Value)>| scope_view(bs@))
    }
}

/// The two symbols are the same.
fn same_symbol(a: &Symbol, b: &Symbol) -> (r: bool)
    ensures
        r == (a@ == b@),
{
    a.id == b.id && a.name == b.name
}

impl Environment {
    /// An environment without any scope: definitions are ignored until a scope is pushed.
    pub fn new() -> (e: Self)
        ensures
            e@ == Seq::<Map<SymbolV, ValueV>>::empty(),
    {
        proof {
            assert(Seq::<Vec<(Symbol, Value)>>::empty().map_values(|bs: Vec<(Symbol, Value)>| scope_view(bs@)) =~= Seq::<Map<SymbolV, ValueV>>::empty());
        }
        Self { scopes: Vec::new() }
    }

    /// Binds `name` to `value` in the innermost scope, if there is one.
    pub fn define(&mut self, name: Symbol, value: Value)
        ensures
            old(self)@.len() == 0 ==> final(self)@ == old(self)@,
            old(self)@.len() > 0 ==> final(self)@ == old(self)@.update(
                old(self)@.len() - 1,
                old(self)@.last().insert(name@, value@),
            ),
    {
        let n = self.scopes.len();
        if n > 0 {
            let ghost before = self.scopes@;
            let mut scope = self.scopes.pop().unwrap();
            let ghost sb = scope@;
            let ghost pair = (name, value);
            scope.push((name, value));
            proof {
                assert(scope@.drop_last() =~= sb);
            }
            self.scopes.push(scope);
            proof {
                assert(self@ =~= old(self)@.update(old(self)@.len() - 1, old(self)@.last().insert(pair.0@, pair.1@)));
            }
        }
    }

    /// Binds each pair of `pairs`, in order, in the innermost scope, if there is one.
    pub fn define_many(&mut self, pairs: Vec<(Symbol, Value)>)
        ensures
            old(self)@.len() == 0 ==> final(self)@ == old(self)@,
            old(self)@.len() > 0 ==> final(self)@ == old(self)@.update(
                old(self)@.len() - 1,
                bind_all(old(self)@.last(), pairs@),
            ),
    {
        let n = self.scopes.len();
        if n > 0 {
            let mut scope = self.scopes.pop().unwrap();
            let ghost m0 = scope_view(scope@);
            let mut i: usize = 0;
            while i < pairs.len()
                invariant
                    i <= pairs@.len(),
                    scope_view(scope@) == bind_all(m0, pairs@.take(i as int)),
                decreases pairs.len() - i,
            {
                let ghost before = scope@;
                let b = (pairs[i].0.duplicate(), copy_value(&pairs[i].1));
                scope.push(b);
                proof {
                    assert(scope@.drop_last() =~= before);
                    assert(pairs@.take(i + 1).drop_last() =~= pairs@.take(i as int));
                }
                i += 1;
            }
            proof {
                assert(pairs@.take(i as int) =~= pairs@);
            }
            self.scopes.push(scope);
            proof {
                assert(self@ =~= old(self)@.update(old(self)@.len() - 1, bind_all(m0, pairs@)));
            }
        }
    }

    /// The value bound to `name` in the innermost scope that binds it.
    pub fn lookup(&self, name: &Symbol) -> (r: Option<Value>)
        ensures
            match (r, lookup_scopes(self@, name@)) {
                (Some(v), Some(w)) => v@ == w,
                (None, None) => true,
                _ => false,
            },
    {
        let mut i = self.scopes.len();
        proof {
            assert(self@.take(i as int) =~= self@);
        }
        while i > 0
            invariant
                i <= self.scopes@.len(),
                lookup_scopes(self@, name@) == lookup_scopes(self@.take(i as int), name@),
            decreases i,
        {
            let scope = &self.scopes[i - 1];
            proof {
                assert(self@.take(i as int).drop_last() =~= self@.take(i - 1));
                assert(self@.take(i as int).last() == scope_view(scope@));
            }
            let mut j = scope.len();
            proof {
                assert(scope@.take(j as int) =~= scope@);
            }
            while j > 0
                invariant
                    0 < i <= self.scopes@.len(),
                    *scope == self.scopes@[i - 1],
                    lookup_scopes(self@, name@) == lookup_scopes(self@.take(i as int), name@),
                    self@.take(i as int).last() == scope_view(scope@),
                    j <= scope@.len(),
                    scope_view(scope@).contains_key(name@) == scope_view(scope@.take(j as int)).contains_key(name@),
                    scope_view(scope@).contains_key(name@) ==> scope_view(scope@)[name@] == scope_view(scope@.take(j as int))[name@],
                decreases j,
            {
                proof {
                    assert(scope@.take(j as int).drop_last() =~= scope@.take(j - 1));
                    assert(scope@.take(j as int).last() == scope@[j - 1]);
                }
                if same_symbol(&scope[j - 1].0, name) {
                    return Some(copy_value(&scope[j - 1].1));
                }
                j -= 1;
            }
            i -= 1;
        }
        None
    }

    /// Opens a new innermost scope.
    pub fn push_scope(&mut self)
        ensures
            final(self)@ == old(self)@.push(Map::empty()),
    {
        let ghost before = self.scopes@;
        self.scopes.push(Vec::new());
        proof {
            assert(scope_view(Seq::<(Symbol, Value)>::empty()) == Map::<SymbolV, ValueV>::empty());
            assert(self@ =~= old(self)@.push(Map::empty()));
        }
    }

    /// Closes the innermost scope, unless it is the only one.
    pub fn pop_scope(&mut self)
        ensures
            old(self)@.len() > 1 ==> final(self)@ == old(self)@.drop_last(),
            old(self)@.len() <= 1 ==> final(self)@ == old(self)@,
            final(self)@ == scopes_pop(old(self)@),
    {
        if self.scopes.len() > 1 {
            self.scopes.pop();
            proof {
                assert(self@ =~= old(self)@.drop_last());
            }
        }
    }
}

/// Looking up a symbol right after binding it in the innermost scope gives the value bound.
pub proof fn law_lookup_after_define(scopes: Seq<Map<SymbolV, ValueV>>, s: SymbolV, v: ValueV)
    requires
        scopes.len() > 0,
    ensures
        lookup_scopes(scopes.update(scopes.len() - 1, scopes.last().insert(s, v)), s) == Some(v),
{
}

/// Binding a symbol leaves the lookup of every other symbol as it was.
pub proof fn law_define_keeps_others(scopes: Seq<Map<SymbolV, ValueV>>, s: SymbolV, other: SymbolV, v: ValueV)
    requires
        scopes.len() > 0,
        s != other,
    ensures
        lookup_scopes(scopes.update(scopes.len() - 1, scopes.last().insert(s, v)), other)
            == lookup_scopes(scopes, other),
{
    let s2 = scopes.update(scopes.len() - 1, scopes.last().insert(s, v));
    assert(s2.drop_last() =~= scopes.drop_last());
}

/// A new scope hides nothing until something is bound in it.
pub proof fn law_push_keeps_lookups(scopes: Seq<Map<SymbolV, ValueV>>, s: SymbolV)
    ensures
        lookup_scopes(scopes.push(Map::empty()), s) == lookup_scopes(scopes, s),
{
    assert(scopes.push(Map::empty()).drop_last() =~= scopes);
}

/// The scopes after `pop_scope`: the innermost one removed, unless it is the only one.
pub open spec fn scopes_pop(scopes: Seq<Map<SymbolV, ValueV>>) -> Seq<Map<SymbolV, ValueV>> {
    if scopes.len() > 1 { scopes.drop_last() } else { scopes }
}

/// The scopes after binding each of `batches` in turn in the innermost scope, as
/// `define_many` does (a `define` is a batch of one pair).
pub open spec fn define_all(scopes: Seq<Map<SymbolV, ValueV>>, batches: Seq<Seq<(Symbol, Value)>>) -> Seq<Map<SymbolV, ValueV>>
    decreases batches.len(),
{
    if batches.len() == 0 {
        scopes
    } else {
        let s = define_all(scopes, batches.drop_last());
        if s.len() == 0 {
            s
        } else {
            s.update(s.len() - 1, bind_all(s.last(), batches.last()))
        }
    }
}

/// A `define` binds as a batch of one pair does.
pub proof fn law_define_is_one_batch(scopes: Seq<Map<SymbolV, ValueV>>, name: Symbol, value: Value)
    requires
        scopes.len() > 0,
    ensures
        define_all(scopes, seq![seq![(name, value)]]) == scopes.update(scopes.len() - 1, scopes.last().insert(name@, value@)),
{
    let b = seq![seq![(name, value)]];
    assert(b.drop_last() =~= Seq::<Seq<(Symbol, Value)>>::empty());
    assert(define_all(scopes, b.drop_last()) == scopes);
    assert(b.last().drop_last() =~= Seq::<(Symbol, Value)>::empty());
    assert(bind_all(scopes.last(), b.last()) == bind_all(scopes.last(), b.last().drop_last()).insert(b.last().last().0@, b.last().last().1@));
}

/// Bindings change only the innermost scope: the number of scopes and every outer scope
/// stay as they were.
proof fn lemma_define_all_outer(scopes: Seq<Map<SymbolV, ValueV>>, batches: Seq<Seq<(Symbol, Value)>>)
    ensures
        define_all(scopes, batches).len() == scopes.len(),
        define_all(scopes, batches).drop_last() == scopes.drop_last(),
    decreases batches.len(),
{
    if batches.len() > 0 {
        lemma_define_all_outer(scopes, batches.drop_last());
        let s = define_all(scopes, batches.drop_last());
        if s.len() > 0 {
            assert(s.update(s.len() - 1, bind_all(s.last(), batches.last())).drop_last() =~= s.drop_last());
        }
    }
}

/// Pushing a scope onto an environment that has one, binding any batches, then popping
/// gives back the environment as it was, so every lookup is as before.
pub proof fn law_pop_undoes_scope(scopes: Seq<Map<SymbolV, ValueV>>, batches: Seq<Seq<(Symbol, Value)>>)
    requires
        scopes.len() > 0,
    ensures
        scopes_pop(define_all(scopes.push(Map::empty()), batches)) == scopes,
        forall|s: SymbolV| #[trigger] lookup_scopes(scopes_pop(define_all(scopes.push(Map::empty()), batches)), s)
            == lookup_scopes(scopes, s),
{
    lemma_define_all_outer(scopes.push(Map::empty()), batches);
    assert(scopes.push(Map::empty()).drop_last() =~= scopes);
}

/// Popping an environment with a single scope leaves it as it is: the outermost scope is
/// never removed.
pub proof fn law_pop_keeps_outermost(scopes: Seq<Map<SymbolV, ValueV>>)
    requires
        scopes.len() == 1,
    ensures
        scopes_pop(scopes) == scopes,
{
}

} // verus!
