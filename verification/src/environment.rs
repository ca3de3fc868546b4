//! The binding table that resolves variable names during reduction.
//!
//! Bindings are established by the caller before evaluation begins; the
//! evaluator itself only ever reads the table. The table is modelled as a
//! map from the name's characters to the bound expression; inserting an
//! already-bound name replaces its value.

use vstd::prelude::*;

use crate::token::{env_of_values, spec_reducible, Token};

verus! {

/// A mapping from variable names to expressions, with unique keys.
pub struct Environment {
    entries: Vec<(String, Token)>,
}

/// The map described by a sequence of bindings with pairwise distinct keys.
pub open spec fn map_of(entries: Seq<(String, Token)>) -> Map<Seq<char>, Token>
    decreases entries.len(),
{
    if entries.len() == 0 {
        Map::empty()
    } else {
        map_of(entries.drop_last()).insert(entries.last().0@, entries.last().1)
    }
}

/// Keys are pairwise distinct, so every entry is visible in the map.
pub open spec fn distinct_keys(entries: Seq<(String, Token)>) -> bool {
    forall|i: int, j: int|
        0 <= i < j < entries.len() ==> entries[i].0@ != entries[j].0@
}

/// An entry of a distinct-keyed sequence is bound in its map, to its value.
proof fn lemma_map_of_entry(entries: Seq<(String, Token)>, i: int)
    requires
        distinct_keys(entries),
        0 <= i < entries.len(),
    ensures
        map_of(entries).contains_key(entries[i].0@),
        map_of(entries)[entries[i].0@] == entries[i].1,
    decreases entries.len(),
{
    if i == entries.len() - 1 {
    } else {
        assert(entries.drop_last()[i] == entries[i]);
        lemma_map_of_entry(entries.drop_last(), i);
        assert(entries[i].0@ != entries.last().0@);
    }
}

/// A key that no entry carries is not bound in the map.
proof fn lemma_map_of_missing(entries: Seq<(String, Token)>, k: Seq<char>)
    requires
        forall|i: int| 0 <= i < entries.len() ==> entries[i].0@ != k,
    ensures
        !map_of(entries).contains_key(k),
    decreases entries.len(),
{
    if entries.len() > 0 {
        assert(forall|i: int|
            0 <= i < entries.drop_last().len() ==> entries.drop_last()[i].0@ != k);
        lemma_map_of_missing(entries.drop_last(), k);
    }
}

/// Every key bound in the map is carried by some entry.
proof fn lemma_map_of_domain(entries: Seq<(String, Token)>, k: Seq<char>)
    requires
        map_of(entries).contains_key(k),
    ensures
        exists|i: int| 0 <= i < entries.len() && entries[i].0@ == k,
    decreases entries.len(),
{
    if entries.len() > 0 {
        if entries.last().0@ == k {
            assert(entries[entries.len() - 1].0@ == k);
        } else {
            lemma_map_of_domain(entries.drop_last(), k);
            let i = choose|i: int|
                0 <= i < entries.drop_last().len() && entries.drop_last()[i].0@ == k;
            assert(entries[i].0@ == k);
        }
    }
}

impl View for Environment {
    type V = Map<Seq<char>, Token>;

    closed spec fn view(&self) -> Map<Seq<char>, Token> {
        map_of(self.entries@)
    }
}

impl Environment {
    /// The table keeps one entry per name; every public operation
    /// preserves this.
    pub closed spec fn wf(self) -> bool {
        distinct_keys(self.entries@)
    }

    /// An empty table: no name is bound.
    pub fn new() -> (env: Environment)
        ensures
            env@ == Map::<Seq<char>, Token>::empty(),
            env.wf(),
    {
        Environment { entries: Vec::new() }
    }

    /// Binds `name` to `value`; a previous binding of `name` is replaced.
    pub fn insert(&mut self, name: String, value: Token)
        requires
            old(self).wf(),
        ensures
            final(self)@ == old(self)@.insert(name@, value),
            final(self).wf(),
    {
        let n = self.entries.len();
        let mut i: usize = 0;
        while i < n
            invariant
                n == self.entries.len(),
                i <= n,
                self.entries@ == old(self).entries@,
                distinct_keys(self.entries@),
                forall|j: int| 0 <= j < i ==> self.entries@[j].0@ != name@,
            decreases n - i,
        {
            if self.entries[i].0 == name {
                self.entries[i].1 = value;
                proof {
                    lemma_replaced_entry(old(self).entries@, self.entries@, i as int);
                }
                return;
            }
            i += 1;
        }
        self.entries.push((name, value));
        proof {
            assert(self.entries@.drop_last() =~= old(self).entries@);
        }
    }

    /// Looks `name` up; `Some` exactly when the name is bound, and then
    /// the bound expression itself.
    pub fn get(&self, name: &String) -> (r: Option<&Token>)
        requires
            self.wf(),
        ensures
            match r {
                Some(t) => self@.contains_key(name@) && *t == self@[name@],
                None => !self@.contains_key(name@),
            },
    {
        let n = self.entries.len();
        let mut i: usize = 0;
        while i < n
            invariant
                n == self.entries.len(),
                i <= n,
                distinct_keys(self.entries@),
                forall|j: int| 0 <= j < i ==> self.entries@[j].0@ != name@,
            decreases n - i,
        {
            if self.entries[i].0 == *name {
                proof {
                    lemma_map_of_entry(self.entries@, i as int);
                }
                return Some(&self.entries[i].1);
            }
            i += 1;
        }
        proof {
            lemma_map_of_missing(self.entries@, name@);
        }
        None
    }

    /// True exactly when every bound expression is a value (irreducible),
    /// the shape a table must have before `Machine::run` may use it.
    pub fn all_values(&self) -> (r: bool)
        requires
            self.wf(),
        ensures
            r == env_of_values(self@),
    {
        let n = self.entries.len();
        let mut i: usize = 0;
        while i < n
            invariant
                n == self.entries.len(),
                i <= n,
                distinct_keys(self.entries@),
                forall|j: int| 0 <= j < i ==> !spec_reducible(self.entries@[j].1),
            decreases n - i,
        {
            if self.entries[i].1.is_reducible() {
                proof {
                    lemma_map_of_entry(self.entries@, i as int);
                }
                return false;
            }
            i += 1;
        }
        proof {
            assert forall|k: Seq<char>| #[trigger] self@.contains_key(k)
                implies !spec_reducible(self@[k]) by {
                lemma_map_of_domain(self.entries@, k);
                let j = choose|j: int|
                    0 <= j < self.entries@.len() && self.entries@[j].0@ == k;
                lemma_map_of_entry(self.entries@, j);
            }
        }
        true
    }
}

/// Replacing the value of one entry updates exactly that key's binding.
proof fn lemma_replaced_entry(
    before: Seq<(String, Token)>,
    after: Seq<(String, Token)>,
    i: int,
)
    requires
        distinct_keys(before),
        0 <= i < before.len(),
        after.len() == before.len(),
        forall|j: int| 0 <= j < before.len() && j != i ==> after[j] == before[j],
        after[i].0 == before[i].0,
    ensures
        map_of(after) == map_of(before).insert(before[i].0@, after[i].1),
    decreases before.len(),
{
    assert(distinct_keys(after));
    if i == before.len() - 1 {
        assert(after.drop_last() =~= before.drop_last());
        assert(map_of(after) =~= map_of(before).insert(before[i].0@, after[i].1));
    } else {
        assert(forall|j: int|
            0 <= j < before.drop_last().len() && j != i
                ==> before.drop_last()[j] == after.drop_last()[j]);
        assert(before.drop_last()[i] == before[i]);
        assert(after.drop_last()[i] == after[i]);
        lemma_replaced_entry(before.drop_last(), after.drop_last(), i);
        assert(after.last() == before.last());
        assert(before[i].0@ != before.last().0@);
        assert(map_of(after) =~= map_of(before).insert(before[i].0@, after[i].1));
    }
}

} // verus!
