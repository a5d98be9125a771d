use vstd::prelude::*;
use crate::object::{Object, Value};
use crate::token::str_equal;

verus! {

/// The model of an environment: every binding made, tagged with the scope it was made in;
/// the enclosing scope of each scope; and the scope that is current.
pub struct EnvModel {
    pub bindings: Seq<(nat, Seq<char>, Value)>,
    pub parents: Seq<Option<nat>>,
    pub current: nat,
}

/// The value most recently bound to `name` in scope `scope`.
pub open spec fn scope_lookup(b: Seq<(nat, Seq<char>, Value)>, scope: nat, name: Seq<char>) -> Option<Value>
    decreases b.len(),
{
    if b.len() == 0 {
        None
    } else if b[b.len() - 1].0 == scope && b[b.len() - 1].1 == name {
        Some(b[b.len() - 1].2)
    } else {
        scope_lookup(b.subrange(0, b.len() - 1), scope, name)
    }
}

/// The value of `name` seen from scope `at`: its own binding, else the one its enclosing
/// scopes give. Enclosing scopes always come earlier, which ends the walk.
pub open spec fn lookup_from(env: EnvModel, at: nat, name: Seq<char>) -> Option<Value>
    decreases at,
{
    match scope_lookup(env.bindings, at, name) {
        Some(v) => Some(v),
        None => if at < env.parents.len() {
            match env.parents[at as int] {
                Some(p) => if p < at {
                    lookup_from(env, p, name)
                } else {
                    None
                },
                None => None,
            }
        } else {
            None
        },
    }
}

/// The value of `name` in the current scope.
pub open spec fn lookup(env: EnvModel, name: Seq<char>) -> Option<Value> {
    lookup_from(env, env.current, name)
}

/// Binds `name` in the current scope only.
pub open spec fn bind(env: EnvModel, name: Seq<char>, v: Value) -> EnvModel {
    EnvModel { bindings: env.bindings.push((env.current, name, v)), ..env }
}

/// Opens a new, empty scope enclosed by `outer` and makes it current.
/// An index that names no scope yet leaves the new scope without an enclosing one.
pub open spec fn enclose(env: EnvModel, outer: nat) -> EnvModel {
    EnvModel {
        parents: env.parents.push(
            if outer < env.parents.len() {
                Some(outer)
            } else {
                None
            },
        ),
        current: env.parents.len(),
        ..env
    }
}

/// One binding of a name to a value, in a given scope.
#[derive(Debug)]
pub struct Binding {
    pub scope: usize,
    pub name: String,
    pub value: Object,
}

/// Scopes that map names to values, each linked to the scope that encloses it.
/// Scopes live side by side in one store, so a function value can keep the scope it was
/// defined in by its index and share it with every other value made there.
#[derive(Debug)]
pub struct Environment {
    pub store: Vec<Binding>,
    pub outer: Vec<Option<usize>>,
    pub current: usize,
}

impl Environment {
    pub open spec fn model(&self) -> EnvModel {
        EnvModel {
            bindings: Seq::new(
                self.store@.len(),
                |i: int| (self.store@[i].scope as nat, self.store@[i].name@, self.store@[i].value.model()),
            ),
            parents: Seq::new(
                self.outer@.len(),
                |i: int|
                    match self.outer@[i] {
                        Some(p) => Some(p as nat),
                        None => None,
                    },
            ),
            current: self.current as nat,
        }
    }

    /// The current scope exists, every binding lies in an existing scope and holds no
    /// return signal, and each scope's enclosing scope comes before it.
    pub open spec fn wf(&self) -> bool {
        &&& self.current < self.outer@.len()
        &&& forall|i: int|
            0 <= i < self.store@.len() ==> (#[trigger] self.store@[i]).scope < self.outer@.len()
                && !(self.store@[i].value.model() is Ret)
        &&& forall|i: int|
            0 <= i < self.outer@.len() ==> match #[trigger] self.outer@[i] {
                Some(p) => p < i,
                None => true,
            }
    }

    /// The global scope: empty, enclosed by nothing.
    pub fn new() -> (r: Environment)
        ensures
            r.wf(),
            r.model() == (EnvModel { bindings: Seq::empty(), parents: seq![None], current: 0 }),
    {
        let mut outer: Vec<Option<usize>> = Vec::new();
        outer.push(None);
        let r = Environment { store: Vec::new(), outer, current: 0 };
        assert(r.model().bindings =~= Seq::empty());
        assert(r.model().parents =~= seq![None]);
        r
    }

    /// A new empty scope enclosed by the current scope of `outer`.
    pub fn new_enclosed(outer: Environment) -> (r: Environment)
        requires
            outer.wf(),
        ensures
            r.wf(),
            r.model() == enclose(outer.model(), outer.current as nat),
    {
        let mut env = outer;
        let c = env.current;
        env.enter_scope(c);
        env
    }

    /// Opens a new empty scope enclosed by scope `outer`, and makes it current.
    pub fn enter_scope(&mut self, outer: usize)
        requires
            old(self).wf(),
        ensures
            final(self).wf(),
            final(self).outer@.len() == old(self).outer@.len() + 1,
            final(self).model() == enclose(old(self).model(), outer as nat),
    {
        let n = self.outer.len();
        if outer < n {
            self.outer.push(Some(outer));
        } else {
            self.outer.push(None);
        }
        self.current = n;
        assert(self.model().bindings =~= old(self).model().bindings);
        assert(self.model().parents =~= enclose(old(self).model(), outer as nat).parents);
    }

    /// Makes scope `scope` current again.
    pub fn restore_scope(&mut self, scope: usize)
        requires
            old(self).wf(),
            scope < old(self).outer@.len(),
        ensures
            final(self).wf(),
            final(self).outer@ == old(self).outer@,
            final(self).model() == (EnvModel { current: scope as nat, ..old(self).model() }),
    {
        self.current = scope;
        assert(self.model().bindings =~= old(self).model().bindings);
        assert(self.model().parents =~= old(self).model().parents);
    }

    fn find_in_scope(&self, scope: usize, name: &str) -> (r: Option<usize>)
        ensures
            match r {
                Some(i) => i < self.store@.len() && scope_lookup(self.model().bindings, scope as nat, name@)
                    == Some(self.store@[i as int].value.model()),
                None => scope_lookup(self.model().bindings, scope as nat, name@) is None,
            },
    {
        let ghost b = self.model().bindings;
        let mut j = self.store.len();
        assert(b.subrange(0, j as int) =~= b);
        while j > 0
            invariant
                b == self.model().bindings,
                j <= self.store@.len(),
                scope_lookup(b, scope as nat, name@) == scope_lookup(b.subrange(0, j as int), scope as nat, name@),
            decreases j,
        {
            j = j - 1;
            assert(b.subrange(0, j + 1).subrange(0, j as int) =~= b.subrange(0, j as int));
            if self.store[j].scope == scope && str_equal(self.store[j].name.as_str(), name) {
                return Some(j);
            }
        }
        None
    }

    /// The value bound to `name` here or, failing that, in the enclosing scopes.
    pub fn get(&self, name: &str) -> (r: Option<&Object>)
        ensures
            self.wf() ==> (r matches Some(o) ==> !(o.model() is Ret)),
            match r {
                Some(o) => lookup(self.model(), name@) == Some(o.model()),
                None => lookup(self.model(), name@) is None,
            },
    {
        let mut at = self.current;
        loop
            invariant
                lookup_from(self.model(), at as nat, name@) == lookup(self.model(), name@),
            decreases at,
        {
            match self.find_in_scope(at, name) {
                Some(i) => {
                    assert(self.store@[i as int].value.model() == self.model().bindings[i as int].2);
                    return Some(&self.store[i].value);
                },
                None => {},
            }
            if at < self.outer.len() {
                match self.outer[at] {
                    Some(p) => {
                        if p < at {
                            at = p;
                        } else {
                            return None;
                        }
                    },
                    None => {
                        return None;
                    },
                }
            } else {
                return None;
            }
        }
    }

    /// Binds `name` to `value` in the current scope, hiding any earlier binding of it there.
    pub fn set(&mut self, name: String, value: Object)
        requires
            old(self).wf(),
            !(value.model() is Ret),
        ensures
            final(self).wf(),
            final(self).outer@ == old(self).outer@,
            final(self).model() == bind(old(self).model(), name@, value.model()),
    {
        let ghost v = value.model();
        let ghost n = name@;
        self.store.push(Binding { scope: self.current, name, value });
        assert(self.model().bindings =~= old(self).model().bindings.push((old(self).current as nat, n, v)));
        assert(self.model().parents =~= old(self).model().parents);
    }
}

} // verus!
