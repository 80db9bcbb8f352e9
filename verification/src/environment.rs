use vstd::prelude::*;
use crate::object::Object;

verus! {

/// One name bound to a value inside a particular scope.
pub struct Binding {
    pub scope: usize,
    pub name: String,
    pub value: Object,
}

/// Mathematical model of an `Environment`: the bindings in the order they
/// were made, and for every scope its optional enclosing scope.
pub struct EnvModel {
    pub bindings: Seq<Binding>,
    pub outer: Seq<Option<usize>>,
}

/// Every scope's outer link points to an earlier scope, so lookup chains are
/// finite.
pub open spec fn env_wf(m: EnvModel) -> bool {
    forall|i: int|
        0 <= i < m.outer.len() ==> ((#[trigger] m.outer[i]) matches Some(o) ==> o < i)
}

/// The value bound to `name` in scope `scope` itself: the latest matching
/// binding, so re-binding a name shadows the earlier binding.
pub open spec fn lookup_local(bindings: Seq<Binding>, scope: int, name: Seq<char>) -> Option<
    Object,
>
    decreases bindings.len(),
{
    if bindings.len() == 0 {
        None
    } else {
        let last = bindings.last();
        if last.scope == scope && last.name@ == name {
            Some(last.value)
        } else {
            lookup_local(bindings.drop_last(), scope, name)
        }
    }
}

/// Lexical lookup: the local store first, then the enclosing scopes in turn.
pub open spec fn lookup(m: EnvModel, scope: int, name: Seq<char>) -> Option<Object>
    decreases scope,
{
    match lookup_local(m.bindings, scope, name) {
        Some(v) => Some(v),
        None => {
            if 0 <= scope < m.outer.len() {
                match m.outer[scope] {
                    Some(o) => {
                        if 0 <= o < scope {
                            lookup(m, o as int, name)
                        } else {
                            None
                        }
                    },
                    None => None,
                }
            } else {
                None
            }
        },
    }
}

/// Shadowing: making a binding in a scope never alters what lookup sees from
/// any older scope, in particular from any scope the new one (transitively)
/// encloses. So a `let` inside a function body shadows an outer binding of
/// the same name and never rewrites it: after the call returns, lookup from
/// the outer scope still finds the old value.
pub proof fn lemma_set_preserves_outer_lookup(
    m: EnvModel,
    scope: usize,
    name: String,
    value: Object,
    j: int,
    key: Seq<char>,
)
    requires
        j < scope,
    ensures
        lookup(
            EnvModel {
                bindings: m.bindings.push(Binding { scope, name, value }),
                outer: m.outer,
            },
            j,
            key,
        ) == lookup(m, j, key),
    decreases j,
{
    let m2 = EnvModel {
        bindings: m.bindings.push(Binding { scope, name, value }),
        outer: m.outer,
    };
    assert(m2.bindings.drop_last() =~= m.bindings);
    assert(m2.bindings.last() == Binding { scope, name, value });
    assert(lookup_local(m2.bindings, j, key) == lookup_local(m.bindings, j, key));
    match lookup_local(m.bindings, j, key) {
        Some(_) => {},
        None => {
            if 0 <= j < m.outer.len() {
                match m.outer[j] {
                    Some(o) => {
                        if 0 <= o < j {
                            lemma_set_preserves_outer_lookup(m, scope, name, value, o as int, key);
                        }
                    },
                    None => {},
                }
            }
        },
    }
}

/// An arena of lexically nested scopes. A scope never moves and is never
/// dropped while the arena lives, so a function value may capture a scope by
/// index and outlive the call frame that created it; every closure made in a
/// scope shares that scope's live store.
pub struct Environment {
    bindings: Vec<Binding>,
    outer: Vec<Option<usize>>,
}

impl View for Environment {
    type V = EnvModel;

    closed spec fn view(&self) -> EnvModel {
        EnvModel { bindings: self.bindings@, outer: self.outer@ }
    }
}

impl Environment {
    pub open spec fn wf(&self) -> bool {
        env_wf(self@)
    }

    /// A fresh arena holding one empty global scope, index 0.
    pub fn new() -> (env: Self)
        ensures
            env.wf(),
            env@.outer.len() == 1,
            env@.outer[0] is None,
            env@.bindings.len() == 0,
    {
        Environment { bindings: Vec::new(), outer: vec![None] }
    }

    /// The number of scopes allocated so far; scope indices below it are live.
    pub fn scope_count(&self) -> (n: usize)
        ensures
            n == self@.outer.len(),
    {
        self.outer.len()
    }

    /// Allocate a fresh empty scope enclosed by `outer`, and return its index.
    pub fn new_enclosed_environment(&mut self, outer: usize) -> (s: usize)
        requires
            old(self).wf(),
            outer < old(self)@.outer.len(),
        ensures
            final(self).wf(),
            s == old(self)@.outer.len(),
            final(self)@.outer == old(self)@.outer.push(Some(outer)),
            final(self)@.bindings == old(self)@.bindings,
    {
        let s = self.outer.len();
        self.outer.push(Some(outer));
        s
    }

    /// Bind `key` to `val` in the local store of scope `scope` alone. An
    /// existing binding of the same name there is shadowed, and bindings in
    /// enclosing scopes are never rebound.
    pub fn set(&mut self, scope: usize, key: String, val: Object)
        requires
            old(self).wf(),
            scope < old(self)@.outer.len(),
        ensures
            final(self).wf(),
            final(self)@.outer == old(self)@.outer,
            final(self)@.bindings == old(self)@.bindings.push(
                Binding { scope, name: key, value: val },
            ),
    {
        self.bindings.push(Binding { scope, name: key, value: val });
    }

    /// Resolve `key` starting at scope `scope`: the local store first, then
    /// the enclosing scopes; `None` when the whole chain misses.
    pub fn get(&self, scope: usize, key: &str) -> (r: Option<Object>)
        requires
            self.wf(),
            scope < self@.outer.len(),
        ensures
            r == lookup(self@, scope as int, key@),
    {
        let mut s = scope;
        loop
            invariant
                self.wf(),
                s < self@.outer.len(),
                lookup(self@, scope as int, key@) == lookup(self@, s as int, key@),
            decreases s,
        {
            let mut i = self.bindings.len();
            proof {
                assert(self@.bindings.take(self@.bindings.len() as int) =~= self@.bindings);
            }
            while i > 0
                invariant
                    i <= self.bindings.len(),
                    self@.bindings == self.bindings@,
                    lookup(self@, scope as int, key@) == lookup(self@, s as int, key@),
                    lookup_local(self@.bindings, s as int, key@) == lookup_local(
                        self@.bindings.take(i as int),
                        s as int,
                        key@,
                    ),
                decreases i,
            {
                i = i - 1;
                let b = &self.bindings[i];
                proof {
                    assert(self@.bindings.take(i as int + 1).drop_last() =~= self@.bindings.take(
                        i as int,
                    ));
                    assert(self@.bindings.take(i as int + 1).last() == self@.bindings[i as int]);
                }
                if b.scope == s && crate::support::str_eq(b.name.as_str(), key) {
                    proof {
                        assert(lookup_local(self@.bindings.take(i as int + 1), s as int, key@)
                            == Some(b.value));
                        assert(lookup(self@, s as int, key@) == Some(b.value));
                    }
                    return Some(b.value.duplicate());
                }
            }
            proof {
                assert(self@.bindings.take(0) =~= Seq::<Binding>::empty());
            }
            match self.outer[s] {
                Some(o) => {
                    s = o;
                },
                None => {
                    return None;
                },
            }
        }
    }
}

} // verus!
