//! The binding environment: a mutable store of named values, offered to the
//! virtual machine through the narrow capability interface it needs
//! (membership test, read, creation, initialization, update).

use vstd::prelude::*;

use crate::value::Value;

verus! {

/// The scope a new binding is created in. The environment here is a single
/// flat store, so the scope does not change where the binding lands; the
/// virtual machine creates implicit bindings function-scoped.
#[derive(Clone, Copy, Debug, PartialEq, Eq, Structural)]
pub enum VariableScope {
    Function,
    Block,
}

/// True when `entries` holds an entry named `k`.
pub open spec fn has_key(entries: Seq<(String, Value)>, k: Seq<char>) -> bool {
    exists|i: int| 0 <= i < entries.len() && entries[i].0@ == k
}

/// The index of the entry named `k`, when one exists.
pub open spec fn index_of(entries: Seq<(String, Value)>, k: Seq<char>) -> int {
    choose|i: int| 0 <= i < entries.len() && entries[i].0@ == k
}

/// The mapping an entry sequence denotes, once its names are unique.
pub open spec fn map_of(entries: Seq<(String, Value)>) -> Map<Seq<char>, Value> {
    Map::new(|k: Seq<char>| has_key(entries, k), |k: Seq<char>| entries[index_of(entries, k)].1)
}

/// A name-to-value store with mutable-binding semantics, viewed as a map
/// from the name's characters to the bound value.
#[derive(Debug)]
pub struct Environment {
    bindings: Vec<(String, Value)>,
}

impl View for Environment {
    type V = Map<Seq<char>, Value>;

    closed spec fn view(&self) -> Map<Seq<char>, Value> {
        map_of(self.bindings@)
    }
}

impl Environment {
    /// Internal validity: no two entries share a name, so the map view
    /// determines each binding.
    pub closed spec fn wf(self) -> bool {
        forall|i: int, j: int|
            0 <= i < j < self.bindings@.len() ==> self.bindings@[i].0@ != self.bindings@[j].0@
    }

    proof fn lemma_same_key_same_index(self, i: int, j: int)
        requires
            self.wf(),
            0 <= i < self.bindings@.len(),
            0 <= j < self.bindings@.len(),
            self.bindings@[i].0@ == self.bindings@[j].0@,
        ensures
            i == j,
    {
        if i < j {
            assert(self.bindings@[i].0@ != self.bindings@[j].0@);
        }
        if j < i {
            assert(self.bindings@[j].0@ != self.bindings@[i].0@);
        }
    }

    /// An empty environment: no bindings at all.
    pub fn new() -> (env: Environment)
        ensures
            env.wf(),
            env@ == Map::<Seq<char>, Value>::empty(),
    {
        let env = Environment { bindings: Vec::new() };
        proof {
            assert(env@ =~= Map::<Seq<char>, Value>::empty());
        }
        env
    }

    /// Whether a binding named `name` exists.
    pub fn has_binding(&self, name: &String) -> (r: bool)
        requires
            self.wf(),
        ensures
            r == self@.dom().contains(name@),
    {
        let n = self.bindings.len();
        let mut i: usize = 0;
        while i < n
            invariant
                i <= n,
                n == self.bindings@.len(),
                forall|j: int| 0 <= j < i ==> self.bindings@[j].0@ != name@,
            decreases n - i,
        {
            if self.bindings[i].0 == *name {
                proof {
                    assert(self.bindings@[i as int].0@ == name@);
                }
                return true;
            }
            i += 1;
        }
        proof {
            assert(!has_key(self.bindings@, name@));
        }
        false
    }

    /// The current value of the binding named `name`, or `None` when it is
    /// unbound.
    pub fn get_binding_value(&self, name: &String) -> (r: Option<Value>)
        requires
            self.wf(),
        ensures
            match r {
                Some(v) => self@.dom().contains(name@) && v == self@[name@],
                None => !self@.dom().contains(name@),
            },
    {
        let n = self.bindings.len();
        let mut i: usize = 0;
        while i < n
            invariant
                i <= n,
                n == self.bindings@.len(),
                self.wf(),
                forall|j: int| 0 <= j < i ==> self.bindings@[j].0@ != name@,
            decreases n - i,
        {
            if self.bindings[i].0 == *name {
                proof {
                    assert(self.bindings@[i as int].0@ == name@);
                    let w = index_of(self.bindings@, name@);
                    assert(0 <= w < self.bindings@.len() && self.bindings@[w].0@ == name@);
                    self.lemma_same_key_same_index(i as int, w);
                }
                return Some(self.bindings[i].1);
            }
            i += 1;
        }
        proof {
            assert(!has_key(self.bindings@, name@));
        }
        None
    }

    /// Registers a new mutable binding named `name`, initialized to the
    /// undefined value. The deletability flag and the scope do not change
    /// how this flat store behaves.
    pub fn create_mutable_binding(
        &mut self,
        name: String,
        deletable: bool,
        scope: VariableScope,
    )
        requires
            old(self).wf(),
            !old(self)@.dom().contains(name@),
        ensures
            final(self).wf(),
            final(self)@ == old(self)@.insert(name@, Value::Undefined),
    {
        let ghost olde = self.bindings@;
        let ghost k = name@;
        self.bindings.push((name, Value::Undefined));
        proof {
            let newe = self.bindings@;
            assert(newe == olde.push((name, Value::Undefined)));
            assert forall|i: int, j: int|
                0 <= i < j < newe.len() implies newe[i].0@ != newe[j].0@ by {
                if j < newe.len() - 1 {
                    assert(olde[i].0@ != olde[j].0@);
                } else {
                    assert(olde[i].0@ != k);
                }
            }
            assert forall|k2: Seq<char>| true implies
                (has_key(newe, k2) == (has_key(olde, k2) || k2 == k)) by {
                if has_key(newe, k2) {
                    let i = choose|i: int| 0 <= i < newe.len() && newe[i].0@ == k2;
                    if i < newe.len() - 1 {
                        assert(olde[i].0@ == k2);
                    }
                }
                if has_key(olde, k2) {
                    let i = choose|i: int| 0 <= i < olde.len() && olde[i].0@ == k2;
                    assert(newe[i].0@ == k2);
                }
                if k2 == k {
                    assert(newe[newe.len() - 1].0@ == k2);
                }
            }
            assert forall|k2: Seq<char>| has_key(newe, k2) implies
                newe[index_of(newe, k2)].1 == old(self)@.insert(k, Value::Undefined)[k2] by {
                let i = index_of(newe, k2);
                assert(0 <= i < newe.len() && newe[i].0@ == k2);
                if k2 == k {
                    assert(!has_key(olde, k2));
                    assert(i == newe.len() - 1);
                } else {
                    assert(i < newe.len() - 1);
                    assert(olde[i].0@ == k2);
                    let w = index_of(olde, k2);
                    assert(0 <= w < olde.len() && olde[w].0@ == k2);
                    if w != i {
                        assert(olde[w].0@ != olde[i].0@ || olde[i].0@ != olde[w].0@);
                    }
                    assert(w == i);
                }
            }
            assert(final(self)@ =~= old(self)@.insert(k, Value::Undefined));
        }
    }

    /// Replaces the value of the existing binding named `name`.
    fn update_existing(&mut self, name: &String, value: Value)
        requires
            old(self).wf(),
            old(self)@.dom().contains(name@),
        ensures
            final(self).wf(),
            final(self)@ == old(self)@.insert(name@, value),
    {
        let ghost olde = self.bindings@;
        let ghost k = name@;
        let n = self.bindings.len();
        let mut i: usize = 0;
        while i < n
            invariant
                i <= n,
                n == self.bindings@.len(),
                self.bindings@ == olde,
                k == name@,
                forall|j: int| 0 <= j < i ==> self.bindings@[j].0@ != name@,
                old(self).wf(),
                old(self)@.dom().contains(name@),
                olde == old(self).bindings@,
            decreases n - i,
        {
            if self.bindings[i].0 == *name {
                let fresh_name = name.clone();
                self.bindings[i] = (fresh_name, value);
                proof {
                    let newe = self.bindings@;
                    assert(newe == olde.update(i as int, (fresh_name, value)));
                    assert(fresh_name@ == k);
                    assert forall|a: int, b: int|
                        0 <= a < b < newe.len() implies newe[a].0@ != newe[b].0@ by {
                        assert(newe[a].0@ == olde[a].0@);
                        assert(newe[b].0@ == olde[b].0@);
                    }
                    assert forall|k2: Seq<char>| true implies
                        has_key(newe, k2) == has_key(olde, k2) by {
                        if has_key(newe, k2) {
                            let w = choose|w: int| 0 <= w < newe.len() && newe[w].0@ == k2;
                            assert(olde[w].0@ == k2);
                        }
                        if has_key(olde, k2) {
                            let w = choose|w: int| 0 <= w < olde.len() && olde[w].0@ == k2;
                            assert(newe[w].0@ == k2);
                        }
                    }
                    assert forall|k2: Seq<char>| has_key(newe, k2) implies
                        newe[index_of(newe, k2)].1 == old(self)@.insert(k, value)[k2] by {
                        let w = index_of(newe, k2);
                        assert(0 <= w < newe.len() && newe[w].0@ == k2);
                        if k2 == k {
                            assert(olde[w].0@ == k2 || w == i);
                            old(self).lemma_same_key_same_index(w, i as int);
                            assert(w == i);
                        } else {
                            assert(w != i);
                            assert(olde[w].0@ == k2);
                            let v = index_of(olde, k2);
                            assert(0 <= v < olde.len() && olde[v].0@ == k2);
                            old(self).lemma_same_key_same_index(w, v);
                        }
                    }
                    assert(final(self)@ =~= old(self)@.insert(k, value));
                }
                return ;
            }
            i += 1;
        }
        proof {
            assert(!has_key(olde, k));
            assert(false);
        }
    }

    /// Gives a newly created binding its first value.
    pub fn initialize_binding(&mut self, name: &String, value: Value)
        requires
            old(self).wf(),
            old(self)@.dom().contains(name@),
        ensures
            final(self).wf(),
            final(self)@ == old(self)@.insert(name@, value),
    {
        self.update_existing(name, value);
    }

    /// Updates the value of an existing mutable binding. The strictness flag
    /// does not change how this flat store behaves.
    pub fn set_mutable_binding(&mut self, name: &String, value: Value, strict: bool)
        requires
            old(self).wf(),
            old(self)@.dom().contains(name@),
        ensures
            final(self).wf(),
            final(self)@ == old(self)@.insert(name@, value),
    {
        self.update_existing(name, value);
    }
}

} // verus!
