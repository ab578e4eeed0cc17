//! The environment: a chain of scopes, the innermost last.
//!
//! A scope maps names to values. Defining a name touches the innermost
//! scope only; reading and assigning search from the innermost scope
//! outward and stop at the first scope that holds the name.
use vstd::prelude::*;
use crate::icps::{Error, ErrorView};
use crate::scanner::{LocLexeme, LocToken};
use crate::value::{Value, ValueView};

verus! {

/// A name and the value bound to it.
#[derive(Debug)]
pub struct Binding {
    pub name: String,
    pub value: Value,
}

/// One scope: its bindings in the order in which the names were first
/// defined. Where a name stands twice, the first binding counts.
#[derive(Debug)]
pub struct Scope {
    pub bindings: Vec<Binding>,
}

/// The chain of scopes as contracts see it: one map per scope, the
/// innermost last.
pub type Scopes = Seq<Map<Seq<char>, ValueView>>;

/// The map that a sequence of bindings stands for.
pub open spec fn bound(bindings: Seq<Binding>) -> Map<Seq<char>, ValueView>
    decreases bindings.len(),
{
    if bindings.len() == 0 {
        Map::empty()
    } else {
        bound(bindings.drop_first()).insert(bindings[0].name@, bindings[0].value@)
    }
}

/// Whether `i` is the index of the first binding of `name`.
pub open spec fn first_at(bindings: Seq<Binding>, name: Seq<char>, i: int) -> bool {
    &&& 0 <= i < bindings.len()
    &&& bindings[i].name@ == name
    &&& forall|j: int| 0 <= j < i ==> bindings[j].name@ != name
}

/// Whether no binding is of `name`.
pub open spec fn absent(bindings: Seq<Binding>, name: Seq<char>) -> bool {
    forall|j: int| 0 <= j < bindings.len() ==> bindings[j].name@ != name
}

/// A name without a binding is not in the map.
pub proof fn lemma_bound_absent(bindings: Seq<Binding>, name: Seq<char>)
    requires
        absent(bindings, name),
    ensures
        !bound(bindings).dom().contains(name),
    decreases bindings.len(),
{
    if bindings.len() > 0 {
        let rest = bindings.drop_first();
        assert forall|j: int| 0 <= j < rest.len() implies rest[j].name@ != name by {
            assert(rest[j] == bindings[j + 1]);
        }
        lemma_bound_absent(rest, name);
    }
}

/// The map gives a name the value of its first binding.
pub proof fn lemma_bound_first(bindings: Seq<Binding>, name: Seq<char>, i: int)
    requires
        first_at(bindings, name, i),
    ensures
        bound(bindings).dom().contains(name),
        bound(bindings)[name] == bindings[i].value@,
    decreases bindings.len(),
{
    if i > 0 {
        let rest = bindings.drop_first();
        assert forall|j: int| 0 <= j < i - 1 implies rest[j].name@ != name by {
            assert(rest[j] == bindings[j + 1]);
        }
        lemma_bound_first(rest, name, i - 1);
    }
}

/// Replacing the first binding of a name by another of that name puts the
/// new value into the map.
pub proof fn lemma_bound_update(bindings: Seq<Binding>, i: int, binding: Binding)
    requires
        first_at(bindings, binding.name@, i),
    ensures
        bound(bindings.update(i, binding)) == bound(bindings).insert(
            binding.name@,
            binding.value@,
        ),
    decreases bindings.len(),
{
    let name = binding.name@;
    let after = bindings.update(i, binding);
    if i > 0 {
        let rest = bindings.drop_first();
        assert forall|j: int| 0 <= j < i - 1 implies rest[j].name@ != name by {
            assert(rest[j] == bindings[j + 1]);
        }
        lemma_bound_update(rest, i - 1, binding);
        assert(after.drop_first() =~= rest.update(i - 1, binding));
        assert(bound(after) =~= bound(bindings).insert(name, binding.value@));
    } else {
        assert(after.drop_first() =~= bindings.drop_first());
        assert(bound(after) =~= bound(bindings).insert(name, binding.value@));
    }
}

/// A binding of a new name, put last, puts the name into the map.
pub proof fn lemma_bound_push(bindings: Seq<Binding>, binding: Binding)
    requires
        absent(bindings, binding.name@),
    ensures
        bound(bindings.push(binding)) == bound(bindings).insert(binding.name@, binding.value@),
    decreases bindings.len(),
{
    let name = binding.name@;
    let after = bindings.push(binding);
    if bindings.len() > 0 {
        let rest = bindings.drop_first();
        assert forall|j: int| 0 <= j < rest.len() implies rest[j].name@ != name by {
            assert(rest[j] == bindings[j + 1]);
        }
        lemma_bound_push(rest, binding);
        assert(after.drop_first() =~= rest.push(binding));
        assert(bindings[0].name@ != name);
        assert(bound(after) =~= bound(bindings).insert(name, binding.value@));
    } else {
        assert(after.drop_first() =~= Seq::<Binding>::empty());
        assert(after[0] == binding);
        assert(bound(after.drop_first()) =~= Map::<Seq<char>, ValueView>::empty());
        assert(bound(after) =~= bound(bindings).insert(name, binding.value@));
    }
}

impl View for Scope {
    type V = Map<Seq<char>, ValueView>;

    open spec fn view(&self) -> Map<Seq<char>, ValueView> {
        bound(self.bindings@)
    }
}

impl Scope {
    /// A scope without bindings.
    pub fn new() -> (r: Scope)
        ensures
            r@ == Map::<Seq<char>, ValueView>::empty(),
    {
        Scope { bindings: Vec::new() }
    }

    /// The index of the first binding of `name`.
    fn find(&self, name: &String) -> (r: Option<usize>)
        ensures
            match r {
                Some(i) => first_at(self.bindings@, name@, i as int),
                None => absent(self.bindings@, name@),
            },
    {
        let mut i: usize = 0;
        while i < self.bindings.len()
            invariant
                i <= self.bindings.len(),
                forall|j: int| 0 <= j < i ==> self.bindings@[j].name@ != name@,
            decreases self.bindings.len() - i,
        {
            if self.bindings[i].name == *name {
                return Some(i);
            }
            i += 1;
        }
        None
    }

    /// Binds `name` to `value`, in place of what it was bound to.
    pub fn insert(&mut self, name: String, value: Value)
        ensures
            final(self)@ == old(self)@.insert(name@, value@),
    {
        let binding = Binding { name, value };
        match self.find(&binding.name) {
            Some(i) => {
                proof {
                    lemma_bound_update(self.bindings@, i as int, binding);
                }
                self.bindings.set(i, binding);
            },
            None => {
                proof {
                    lemma_bound_push(self.bindings@, binding);
                }
                self.bindings.push(binding);
            },
        }
    }

    /// The value that `name` is bound to.
    pub fn value(&self, name: &String) -> (r: Option<Value>)
        ensures
            match r {
                Some(v) => self@.dom().contains(name@) && self@[name@] == v@,
                None => !self@.dom().contains(name@),
            },
    {
        match self.find(name) {
            Some(i) => {
                proof {
                    lemma_bound_first(self.bindings@, name@, i as int);
                }
                Some(self.bindings[i].value.clone())
            },
            None => {
                proof {
                    lemma_bound_absent(self.bindings@, name@);
                }
                None
            },
        }
    }

    /// Whether `name` is bound.
    pub fn holds(&self, name: &String) -> (r: bool)
        ensures
            r == self@.dom().contains(name@),
    {
        match self.find(name) {
            Some(i) => {
                proof {
                    lemma_bound_first(self.bindings@, name@, i as int);
                }
                true
            },
            None => {
                proof {
                    lemma_bound_absent(self.bindings@, name@);
                }
                false
            },
        }
    }
}

/// The value of `name`: that in the innermost scope that holds the name.
pub open spec fn lookup(scopes: Scopes, name: Seq<char>) -> Option<ValueView>
    decreases scopes.len(),
{
    if scopes.len() == 0 {
        None
    } else if scopes.last().dom().contains(name) {
        Some(scopes.last()[name])
    } else {
        lookup(scopes.drop_last(), name)
    }
}

/// The chain with `name` bound to `value` in the innermost scope.
pub open spec fn defined(scopes: Scopes, name: Seq<char>, value: ValueView) -> Scopes {
    if scopes.len() == 0 {
        seq![Map::<Seq<char>, ValueView>::empty().insert(name, value)]
    } else {
        scopes.drop_last().push(scopes.last().insert(name, value))
    }
}

/// The chain with `name` bound to `value` in the innermost scope that
/// holds the name; the chain itself where none does.
pub open spec fn assigned(scopes: Scopes, name: Seq<char>, value: ValueView) -> Scopes
    decreases scopes.len(),
{
    if scopes.len() == 0 {
        scopes
    } else if scopes.last().dom().contains(name) {
        scopes.drop_last().push(scopes.last().insert(name, value))
    } else {
        assigned(scopes.drop_last(), name, value).push(scopes.last())
    }
}

/// The error of a name that no scope holds.
pub open spec fn undefined(name: LocLexeme) -> ErrorView {
    ErrorView {
        loc: name.loc,
        message: "Undefined variable '"@ + name.token.display() + "'."@,
    }
}

/// The chain of scopes.
#[derive(Debug)]
pub struct Environment {
    pub scopes: Vec<Scope>,
}

impl View for Environment {
    type V = Scopes;

    open spec fn view(&self) -> Scopes {
        self.scopes@.map_values(|s: Scope| s@)
    }
}

impl Environment {
    /// An environment of one empty scope.
    pub fn new() -> (r: Environment)
        ensures
            r@ == seq![Map::<Seq<char>, ValueView>::empty()],
    {
        let mut scopes: Vec<Scope> = Vec::new();
        scopes.push(Scope::new());
        let r = Environment { scopes };
        assert(r@ =~= seq![Map::<Seq<char>, ValueView>::empty()]);
        r
    }

    /// The environment with a new, empty scope inside `enclosing`.
    pub fn new_local(enclosing: Environment) -> (r: Environment)
        ensures
            r@ == enclosing@.push(Map::<Seq<char>, ValueView>::empty()),
    {
        let mut r = enclosing;
        r.push_scope();
        r
    }

    /// Enters a new, empty scope.
    pub fn push_scope(&mut self)
        ensures
            final(self)@ == old(self)@.push(Map::<Seq<char>, ValueView>::empty()),
    {
        self.scopes.push(Scope::new());
        assert(self@ =~= old(self)@.push(Map::<Seq<char>, ValueView>::empty()));
    }

    /// Leaves the innermost scope. The outermost scope stays.
    pub fn pop_scope(&mut self)
        ensures
            final(self)@ == if old(self)@.len() > 1 {
                old(self)@.drop_last()
            } else {
                old(self)@
            },
    {
        if self.scopes.len() > 1 {
            self.scopes.pop();
            assert(self@ =~= old(self)@.drop_last());
        }
    }

    /// The number of scopes.
    pub fn depth(&self) -> (r: usize)
        ensures
            r == self@.len(),
    {
        self.scopes.len()
    }

    /// Binds `name` to `value` in the innermost scope, in place of what it
    /// was bound to there. Enclosing scopes are not searched.
    pub fn define(&mut self, name: &LocToken, value: Value)
        ensures
            final(self)@ == defined(old(self)@, name@.token.display(), value@),
    {
        let key = name.token.text();
        match self.scopes.pop() {
            Some(scope) => {
                let mut scope = scope;
                scope.insert(key, value);
                self.scopes.push(scope);
            },
            None => {
                let mut scope = Scope::new();
                scope.insert(key, value);
                self.scopes.push(scope);
            },
        }
        assert(self@ =~= defined(old(self)@, name@.token.display(), value@));
    }

    /// Binds `name` to `value` in the innermost scope that holds the name.
    /// Where no scope holds it, nothing changes and the error says that
    /// the variable is undefined.
    pub fn assign(&mut self, name: LocToken, value: Value) -> (r: Result<(), Error>)
        ensures
            final(self)@ == assigned(old(self)@, name@.token.display(), value@),
            match lookup(old(self)@, name@.token.display()) {
                Some(_) => r is Ok,
                None => r matches Err(e) && e@ == undefined(name@),
            },
        decreases old(self).scopes.len(),
    {
        let key = name.token.text();
        match self.scopes.pop() {
            Some(scope) => {
                let mut scope = scope;
                assert(self@ =~= old(self)@.drop_last());
                if scope.holds(&key) {
                    scope.insert(key, value);
                    self.scopes.push(scope);
                    assert(self@ =~= assigned(old(self)@, name@.token.display(), value@));
                    Ok(())
                } else {
                    let r = self.assign(name, value);
                    self.scopes.push(scope);
                    assert(self@ =~= assigned(old(self)@, name@.token.display(), value@));
                    r
                }
            },
            None => {
                assert(self@ =~= old(self)@);
                Err(Error::quoting(name.loc, "Undefined variable '", key.as_str(), "'."))
            },
        }
    }

    /// The value of `name`: that in the innermost scope that holds the
    /// name. Where no scope holds it, the error says that the variable is
    /// undefined.
    pub fn get(&self, name: &LocToken) -> (r: Result<Value, Error>)
        ensures
            match lookup(self@, name@.token.display()) {
                Some(v) => r matches Ok(value) && value@ == v,
                None => r matches Err(e) && e@ == undefined(name@),
            },
    {
        let key = name.token.text();
        let mut i: usize = self.scopes.len();
        assert(self@.take(i as int) =~= self@);
        while i > 0
            invariant
                i <= self.scopes.len(),
                key@ == name@.token.display(),
                lookup(self@, key@) == lookup(self@.take(i as int), key@),
            decreases i,
        {
            assert(self@.take(i as int).drop_last() =~= self@.take(i - 1));
            assert(self@.take(i as int).last() == self.scopes@[i - 1]@);
            match self.scopes[i - 1].value(&key) {
                Some(v) => {
                    return Ok(v);
                },
                None => {},
            }
            i -= 1;
        }
        assert(self@.take(self.scopes.len() as int) =~= self@);
        Err(Error::quoting(name.loc, "Undefined variable '", key.as_str(), "'."))
    }
}

/// A name defined in a scope of its own is gone, and the chain is as it
/// was, once that scope is left: a shadow does not leak outward.
pub proof fn lemma_shadow_does_not_leak(scopes: Scopes, name: Seq<char>, value: ValueView)
    ensures
        defined(scopes.push(Map::empty()), name, value).drop_last() == scopes,
        lookup(defined(scopes.push(Map::empty()), name, value), name) == Some(value),
{
    let inner = scopes.push(Map::<Seq<char>, ValueView>::empty());
    assert(inner.drop_last() =~= scopes);
    assert(defined(inner, name, value).drop_last() =~= scopes);
}

/// A name that was defined is read as what it was defined as.
pub proof fn lemma_defined_lookup(scopes: Scopes, name: Seq<char>, value: ValueView)
    ensures
        lookup(defined(scopes, name, value), name) == Some(value),
        defined(scopes, name, value).len() == if scopes.len() == 0 {
            1
        } else {
            scopes.len()
        },
{
}

/// Assigning to a name keeps the number of scopes, and fails to change
/// anything exactly when reading the name fails.
pub proof fn lemma_assigned(scopes: Scopes, name: Seq<char>, value: ValueView)
    ensures
        assigned(scopes, name, value).len() == scopes.len(),
        lookup(scopes, name) is None ==> assigned(scopes, name, value) == scopes,
        lookup(scopes, name) is Some ==> lookup(assigned(scopes, name, value), name) == Some(value),
    decreases scopes.len(),
{
    if scopes.len() > 0 {
        lemma_assigned(scopes.drop_last(), name, value);
        if scopes.last().dom().contains(name) {
        } else {
            let rest = assigned(scopes.drop_last(), name, value);
            assert(rest.push(scopes.last()).drop_last() =~= rest);
            if lookup(scopes, name) is None {
                assert(scopes.drop_last().push(scopes.last()) =~= scopes);
            }
        }
    }
}

} // verus!
