//! Scopes: a chain of name-to-value bindings, innermost first.

use vstd::prelude::*;
use crate::error::{RuntimeError, RuntimeErrorView};
use crate::types::Type;
use crate::variable::{Binding, Variable};

verus! {

/// The bindings of one scope.
pub type Scope = Map<Seq<char>, Type>;

/// Whether some variable of `vars` has the name `name`.
spec fn binds(vars: Seq<Variable>, name: Seq<char>) -> bool {
    exists|i: int| 0 <= i < vars.len() && (#[trigger] vars[i])@.name == name
}

/// The index of a variable of `vars` with the name `name`.
spec fn index_of(vars: Seq<Variable>, name: Seq<char>) -> int {
    choose|i: int| 0 <= i < vars.len() && (#[trigger] vars[i])@.name == name
}

/// No two variables of `vars` have one name.
spec fn distinct(vars: Seq<Variable>) -> bool {
    forall|i: int, j: int|
        0 <= i < vars.len() && 0 <= j < vars.len() && (#[trigger] vars[i])@.name == (
        #[trigger] vars[j])@.name ==> i == j
}

/// The scope that a list of variables with distinct names stands for.
spec fn bindings(vars: Seq<Variable>) -> Scope {
    Map::new(|name: Seq<char>| binds(vars, name), |name: Seq<char>| vars[index_of(vars, name)]@.value)
}

/// The value of `name` in the innermost scope that binds it.
pub open spec fn resolve(scopes: Seq<Scope>, name: Seq<char>) -> Option<Type>
    decreases scopes.len(),
{
    if scopes.len() == 0 {
        None
    } else if scopes[0].dom().contains(name) {
        Some(scopes[0][name])
    } else {
        resolve(scopes.drop_first(), name)
    }
}

/// The scopes after `name` was bound to `value` in the innermost one.
pub open spec fn declared(scopes: Seq<Scope>, name: Seq<char>, value: Type) -> Seq<Scope> {
    scopes.update(0, scopes[0].insert(name, value))
}

/// The scopes after the binding of `name` was taken out of the innermost one.
pub open spec fn removed(scopes: Seq<Scope>, name: Seq<char>) -> Seq<Scope> {
    scopes.update(0, scopes[0].remove(name))
}

/// One scope and a reference to the scope around it.
#[derive(Clone, Debug)]
pub struct SymbolTable<'p> {
    parent: Option<&'p SymbolTable<'p>>,
    symbols: Vec<Variable>,
}

impl<'p> SymbolTable<'p> {
    /// The bindings of this scope.
    pub closed spec fn own(&self) -> Scope {
        bindings(self.symbols@)
    }

    /// This scope, then the scopes around it from the inside out.
    pub closed spec fn scopes(&self) -> Seq<Scope>
        decreases self,
    {
        match self.parent {
            Some(parent) => seq![self.own()] + parent.scopes(),
            None => seq![self.own()],
        }
    }

    /// In every scope of the chain no name is bound twice.
    pub closed spec fn wf(&self) -> bool
        decreases self,
    {
        &&& distinct(self.symbols@)
        &&& match self.parent {
            Some(parent) => parent.wf(),
            None => true,
        }
    }

    /// The innermost scope is this one.
    pub proof fn scopes_start_with_own(&self)
        ensures
            self.scopes().len() > 0,
            self.scopes()[0] == self.own(),
    {
    }

    /// An empty scope inside `parent`.
    pub fn new(parent: &'p Self) -> (table: Self)
        ensures
            table.scopes() == seq![Map::<Seq<char>, Type>::empty()] + parent.scopes(),
            parent.wf() ==> table.wf(),
    {
        let table = Self { parent: Some(parent), symbols: Vec::new() };
        assert(table.own() =~= Map::<Seq<char>, Type>::empty());
        table
    }

    /// The index of the variable `name` in this scope.
    fn find(&self, name: &String) -> (r: Option<usize>)
        requires
            self.wf(),
        ensures
            match r {
                Some(i) => i < self.symbols@.len() && self.symbols@[i as int]@.name == name@
                    && binds(self.symbols@, name@) && index_of(self.symbols@, name@) == i,
                None => !binds(self.symbols@, name@),
            },
    {
        let mut i: usize = 0;
        while i < self.symbols.len()
            invariant
                i <= self.symbols@.len(),
                distinct(self.symbols@),
                forall|j: int| 0 <= j < i ==> (#[trigger] self.symbols@[j])@.name != name@,
            decreases self.symbols@.len() - i,
        {
            if self.symbols[i].is_named(name) {
                return Some(i);
            }
            i += 1;
        }
        None
    }

    /// The variable `name` of the innermost scope that binds it.
    pub fn get_from_tree(&self, name: &str) -> (r: Result<&Variable, RuntimeError>)
        requires
            self.wf(),
        ensures
            match resolve(self.scopes(), name@) {
                Some(value) => r matches Ok(variable) && variable@ == (Binding {
                    name: name@,
                    value,
                }),
                None => r matches Err(e) && e@ == RuntimeErrorView::NotFound(name@),
            },
        decreases self,
    {
        let key = String::from_str(name);
        assert(self.scopes()[0] == bindings(self.symbols@));
        match self.find(&key) {
            Some(i) => {
                assert(self.symbols@[i as int]@ == (Binding {
                    name: name@,
                    value: self.symbols@[i as int]@.value,
                }));
                assert(self.scopes()[0].dom().contains(name@));
                assert(resolve(self.scopes(), name@) == Some(self.symbols@[i as int]@.value));
                Ok(&self.symbols[i])
            },
            None => {
                assert(self.scopes().drop_first() =~= (match self.parent {
                    Some(parent) => parent.scopes(),
                    None => Seq::empty(),
                }));
                assert(!self.scopes()[0].dom().contains(name@));
                assert(resolve(self.scopes(), name@) == resolve(
                    self.scopes().drop_first(),
                    name@,
                ));
                match self.parent {
                    Some(parent) => parent.get_from_tree(name),
                    None => Err(RuntimeError::NotFound(key)),
                }
            },
        }
    }

    /// Binds the variable in this scope, in place of any variable of its
    /// name that this scope holds. Outer scopes are untouched.
    pub fn declare(&mut self, variable: Variable)
        requires
            old(self).wf(),
        ensures
            final(self).wf(),
            final(self).scopes() == declared(old(self).scopes(), variable@.name, variable@.value),
    {
        let ghost before = self.symbols@;
        let ghost name = variable@.name;
        let ghost value = variable@.value;
        let key = variable.name_string().clone();
        match self.find(&key) {
            Some(i) => {
                self.symbols.set(i, variable);
                let ghost after = self.symbols@;
                assert forall|n: Seq<char>| binds(after, n) == binds(before, n) by {
                    if binds(before, n) {
                        let j = index_of(before, n);
                        assert(after[j]@.name == n);
                    }
                    if binds(after, n) {
                        let j = index_of(after, n);
                        assert(before[j]@.name == n);
                    }
                }
                assert forall|n: Seq<char>| binds(after, n) implies #[trigger] bindings(after)[n]
                    == bindings(before).insert(name, value)[n] by {
                    let j = index_of(after, n);
                    assert(before[j]@.name == n);
                    assert(index_of(before, n) == j);
                }
                assert(bindings(after) =~= bindings(before).insert(name, value));
            },
            None => {
                self.symbols.push(variable);
                let ghost after = self.symbols@;
                assert(after[before.len() as int]@.name == name);
                assert forall|n: Seq<char>| binds(after, n) == (binds(before, n) || n == name) by {
                    if binds(before, n) {
                        let j = index_of(before, n);
                        assert(after[j]@.name == n);
                    }
                    if binds(after, n) && n != name {
                        let j = index_of(after, n);
                        assert(before[j]@.name == n);
                    }
                }
                assert forall|n: Seq<char>| binds(after, n) implies #[trigger] bindings(after)[n]
                    == bindings(before).insert(name, value)[n] by {
                    let j = index_of(after, n);
                    if n != name {
                        assert(before[j]@.name == n);
                        assert(index_of(before, n) == j);
                    }
                }
                assert(bindings(after) =~= bindings(before).insert(name, value));
            },
        }
        assert(final(self).scopes() =~= declared(old(self).scopes(), name, value));
    }

    /// Takes the variable `name` out of this scope. Outer scopes are
    /// untouched: a name that only they bind is not found.
    pub fn remove(&mut self, name: &str) -> (r: Result<(), RuntimeError>)
        requires
            old(self).wf(),
        ensures
            final(self).wf(),
            match r {
                Ok(_) => old(self).scopes()[0].dom().contains(name@) && final(self).scopes()
                    == removed(old(self).scopes(), name@),
                Err(e) => !old(self).scopes()[0].dom().contains(name@) && e@
                    == RuntimeErrorView::NotFound(name@) && final(self).scopes() == old(
                    self,
                ).scopes(),
            },
    {
        let ghost before = self.symbols@;
        let key = String::from_str(name);
        match self.find(&key) {
            Some(i) => {
                self.symbols.remove(i);
                let ghost after = self.symbols@;
                assert forall|n: Seq<char>| binds(after, n) == (binds(before, n) && n != name@) by {
                    if binds(before, n) && n != name@ {
                        let j = index_of(before, n);
                        if j < i {
                            assert(after[j]@.name == n);
                        } else {
                            assert(after[j - 1]@.name == n);
                        }
                    }
                    if binds(after, n) {
                        let j = index_of(after, n);
                        if j < i {
                            assert(before[j]@.name == n);
                        } else {
                            assert(before[j + 1]@.name == n);
                        }
                    }
                }
                assert forall|n: Seq<char>| binds(after, n) implies #[trigger] bindings(after)[n]
                    == bindings(before).remove(name@)[n] by {
                    let j = index_of(after, n);
                    if j < i {
                        assert(before[j]@.name == n);
                        assert(index_of(before, n) == j);
                    } else {
                        assert(before[j + 1]@.name == n);
                        assert(index_of(before, n) == j + 1);
                    }
                }
                assert(bindings(after) =~= bindings(before).remove(name@));
                assert(final(self).scopes() =~= removed(old(self).scopes(), name@));
                Ok(())
            },
            None => Err(RuntimeError::NotFound(key)),
        }
    }

    /// A copy of this scope, inside the same outer scopes.
    pub fn duplicate(&self) -> (copy: Self)
        requires
            self.wf(),
        ensures
            copy.wf(),
            copy.scopes() == self.scopes(),
    {
        let mut symbols: Vec<Variable> = Vec::new();
        let mut i: usize = 0;
        while i < self.symbols.len()
            invariant
                i <= self.symbols@.len(),
                symbols@.len() == i,
                forall|j: int| 0 <= j < i ==> (#[trigger] symbols@[j])@ == self.symbols@[j]@,
            decreases self.symbols@.len() - i,
        {
            symbols.push(self.symbols[i].duplicate());
            i += 1;
        }
        let copy = Self { parent: self.parent, symbols };
        proof {
            let a = self.symbols@;
            let b = copy.symbols@;
            assert forall|n: Seq<char>| binds(b, n) == binds(a, n) by {
                if binds(a, n) {
                    let j = index_of(a, n);
                    assert(b[j]@.name == n);
                }
                if binds(b, n) {
                    let j = index_of(b, n);
                    assert(a[j]@.name == n);
                }
            }
            assert forall|n: Seq<char>| binds(b, n) implies #[trigger] bindings(b)[n] == bindings(
                a,
            )[n] by {
                let j = index_of(b, n);
                assert(a[j]@.name == n);
                assert(index_of(a, n) == j);
            }
            assert(bindings(b) =~= bindings(a));
        }
        copy
    }
}

impl<'p> Default for SymbolTable<'p> {
    /// An empty scope with no scope around it.
    fn default() -> (table: Self)
        ensures
            table.wf(),
            table.scopes() == seq![Map::<Seq<char>, Type>::empty()],
    {
        let table = Self { parent: None, symbols: Vec::new() };
        assert(table.own() =~= Map::<Seq<char>, Type>::empty());
        table
    }
}

} // verus!
