//! The environment: a mapping from names to values with unique keys.

use vstd::prelude::*;
use crate::syntax::TopLevelStatement;
use crate::syntax::StatementModel;
use crate::syntax::clone_names;
use crate::value::Function;
use crate::value::FunctionModel;
use crate::value::Value;
use crate::value::ValueModel;

verus! {

/// No name is bound twice.
pub open spec fn unique_names(entries: Seq<(String, Value)>) -> bool {
    forall|i: int, j: int|
        0 <= i < entries.len() && 0 <= j < entries.len() && entries[i].0@ == entries[j].0@ ==> i
            == j
}

/// Some entry binds the name.
pub open spec fn binds(entries: Seq<(String, Value)>, name: Seq<char>) -> bool {
    exists|i: int| 0 <= i < entries.len() && entries[i].0@ == name
}

/// An entry that binds the name.
pub open spec fn entry_of(entries: Seq<(String, Value)>, name: Seq<char>) -> int {
    choose|i: int| 0 <= i < entries.len() && entries[i].0@ == name
}

/// The mapping that a sequence of entries with unique names stands for.
pub open spec fn mapping(entries: Seq<(String, Value)>) -> Map<Seq<char>, ValueModel> {
    Map::new(
        |name: Seq<char>| binds(entries, name),
        |name: Seq<char>| entries[entry_of(entries, name)].1@,
    )
}

/// With unique names, the entry that binds a name is the one found.
pub proof fn lemma_entry_found(entries: Seq<(String, Value)>, i: int)
    requires
        unique_names(entries),
        0 <= i < entries.len(),
    ensures
        binds(entries, entries[i].0@),
        entry_of(entries, entries[i].0@) == i,
        mapping(entries).dom().contains(entries[i].0@),
        mapping(entries)[entries[i].0@] == entries[i].1@,
{
}

/// What the definitions among the statements add to a mapping, in order:
/// a later definition of a name replaces an earlier one.
pub open spec fn defined(
    base: Map<Seq<char>, ValueModel>,
    statements: Seq<StatementModel>,
) -> Map<Seq<char>, ValueModel>
    decreases statements.len(),
{
    if statements.len() == 0 {
        base
    } else {
        let rest = defined(base, statements.drop_last());
        match statements.last() {
            StatementModel::FunctionDefinition { name, parameters, body } => rest.insert(
                name,
                ValueModel::Function(FunctionModel { name, parameter_names: parameters, body }),
            ),
            StatementModel::FunctionTypeDeclaration { .. } => rest,
        }
    }
}

/// A mapping from names to values.
///
/// A call extends a copy of the caller's environment; the environment of
/// the caller is never changed in place by an evaluation.
#[derive(Debug)]
pub struct Environment {
    entries: Vec<(String, Value)>,
}

impl View for Environment {
    type V = Map<Seq<char>, ValueModel>;

    closed spec fn view(&self) -> Map<Seq<char>, ValueModel> {
        mapping(self.entries@)
    }
}

impl Clone for Environment {
    fn clone(&self) -> (copy: Environment)
        ensures
            copy@ == self@,
    {
        proof {
            use_type_invariant(self);
        }
        let mut entries: Vec<(String, Value)> = Vec::new();
        let mut i: usize = 0;
        while i < self.entries.len()
            invariant
                i <= self.entries.len(),
                entries@.len() == i,
                forall|j: int|
                    0 <= j < i ==> entries@[j].0@ == self.entries@[j].0@ && entries@[j].1@
                        == self.entries@[j].1@,
            decreases self.entries.len() - i,
        {
            entries.push((self.entries[i].0.clone(), self.entries[i].1.clone()));
            i += 1;
        }
        proof {
            let old_entries = self.entries@;
            let new_entries = entries@;
            assert forall|name: Seq<char>| binds(new_entries, name) == binds(
                old_entries,
                name,
            ) by {
                if binds(old_entries, name) {
                    assert(new_entries[entry_of(old_entries, name)].0@ == name);
                }
            }
            assert forall|name: Seq<char>| binds(new_entries, name) implies mapping(
                new_entries,
            )[name] == mapping(old_entries)[name] by {
                let k = entry_of(new_entries, name);
                lemma_entry_found(new_entries, k);
                lemma_entry_found(old_entries, k);
            }
        }
        Environment { entries }
    }
}

impl Environment {
    #[verifier::type_invariant]
    spec fn valid(&self) -> bool {
        unique_names(self.entries@)
    }

    /// The environment that binds no name.
    pub fn new() -> (made: Environment)
        ensures
            made@ == Map::<Seq<char>, ValueModel>::empty(),
    {
        let made = Environment { entries: Vec::new() };
        made
    }

    /// The number of names bound.
    pub fn len(&self) -> (n: usize)
        ensures
            n == self@.dom().len(),
            self@.dom().finite(),
    {
        proof {
            use_type_invariant(self);
            lemma_mapping_size(self.entries@);
        }
        self.entries.len()
    }

    /// Where the name is bound among the entries.
    fn find(&self, name: &String) -> (at: Option<usize>)
        ensures
            match at {
                Some(i) => i < self.entries@.len() && self.entries@[i as int].0@ == name@,
                None => !binds(self.entries@, name@),
            },
    {
        let mut i: usize = 0;
        while i < self.entries.len()
            invariant
                i <= self.entries.len(),
                forall|j: int| 0 <= j < i ==> self.entries@[j].0@ != name@,
            decreases self.entries.len() - i,
        {
            if self.entries[i].0 == *name {
                return Some(i);
            }
            i += 1;
        }
        None
    }

    /// The value bound to the name, if any.
    pub fn get(&self, name: &String) -> (found: Option<&Value>)
        ensures
            match found {
                Some(value) => self@.dom().contains(name@) && value@ == self@[name@],
                None => !self@.dom().contains(name@),
            },
    {
        proof {
            use_type_invariant(self);
        }
        match self.find(name) {
            Some(i) => {
                proof {
                    lemma_entry_found(self.entries@, i as int);
                }
                Some(&self.entries[i].1)
            },
            None => None,
        }
    }

    /// Binds the name to the value, replacing an earlier binding of the
    /// same name.
    pub fn insert(&mut self, name: String, value: Value)
        ensures
            final(self)@ == old(self)@.insert(name@, value@),
    {
        proof {
            use_type_invariant(&*self);
        }
        let ghost before = self.entries@;
        let ghost key = name@;
        let ghost model = value@;
        let found = self.find(&name);
        let mut taken = Environment { entries: Vec::new() };
        core::mem::swap(self, &mut taken);
        let mut entries = taken.entries;
        match found {
            Some(i) => {
                entries.set(i, (name, value));
                proof {
                    let after = entries@;
                    assert forall|n: Seq<char>| binds(after, n) == (binds(before, n) || n
                        == key) by {
                        if binds(before, n) {
                            assert(after[entry_of(before, n)].0@ == n);
                        }
                    }
                    assert forall|n: Seq<char>| binds(after, n) implies mapping(after)[n]
                        == mapping(before).insert(key, model)[n] by {
                        let k = entry_of(after, n);
                        lemma_entry_found(after, k);
                        lemma_entry_found(before, k);
                    }
                }
            },
            None => {
                entries.push((name, value));
                proof {
                    let after = entries@;
                    let last = after.len() - 1;
                    assert forall|n: Seq<char>| binds(after, n) == (binds(before, n) || n
                        == key) by {
                        if binds(before, n) {
                            assert(after[entry_of(before, n)] == before[entry_of(before, n)]);
                        }
                        if n == key {
                            assert(after[last].0@ == n);
                        }
                    }
                    assert forall|n: Seq<char>| binds(after, n) implies mapping(after)[n]
                        == mapping(before).insert(key, model)[n] by {
                        let k = entry_of(after, n);
                        lemma_entry_found(after, k);
                        if k < last {
                            lemma_entry_found(before, k);
                        }
                    }
                }
            },
        }
        *self = Environment { entries };
    }

    /// Adds every function definition among the statements, in order. Type
    /// declarations bind nothing.
    pub fn define(&mut self, statements: &Vec<TopLevelStatement>)
        ensures
            final(self)@ == defined(
                old(self)@,
                Seq::new(statements@.len(), |i: int| statements@[i]@),
            ),
    {
        let ghost base = self@;
        let ghost all = Seq::new(statements@.len(), |i: int| statements@[i]@);
        let mut i: usize = 0;
        while i < statements.len()
            invariant
                i <= statements.len(),
                all == Seq::new(statements@.len(), |i: int| statements@[i]@),
                self@ == defined(base, all.take(i as int)),
            decreases statements.len() - i,
        {
            proof {
                assert(all.take(i + 1).drop_last() =~= all.take(i as int));
            }
            match &statements[i] {
                TopLevelStatement::FunctionDefinition { name, parameters, body } => {
                    let function = Function {
                        name: name.clone(),
                        parameter_names: clone_names(parameters),
                        body: body.clone(),
                    };
                    self.insert(name.clone(), Value::Function(function));
                },
                TopLevelStatement::FunctionTypeDeclaration { .. } => {},
            }
            i += 1;
        }
        assert(all.take(i as int) =~= all);
    }
}

/// A sequence of entries with unique names stands for a mapping of as
/// many names.
pub proof fn lemma_mapping_size(entries: Seq<(String, Value)>)
    requires
        unique_names(entries),
    ensures
        mapping(entries).dom().finite(),
        mapping(entries).dom().len() == entries.len(),
    decreases entries.len(),
{
    if entries.len() == 0 {
        assert(mapping(entries).dom() =~= Set::<Seq<char>>::empty());
    } else {
        let front = entries.drop_last();
        let last = entries.last();
        lemma_mapping_size(front);
        assert forall|n: Seq<char>| binds(entries, n) == (binds(front, n) || n == last.0@) by {
            if binds(entries, n) {
                let k = entry_of(entries, n);
                if k < front.len() {
                    assert(front[k] == entries[k]);
                }
            }
        }
        assert(mapping(entries).dom() =~= mapping(front).dom().insert(last.0@));
    }
}

} // verus!
