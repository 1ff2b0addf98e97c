//! The table of variables: which type each has, and which were typed
//! explicitly.
//!
//! The table is a vector in which no name occurs twice. It is read as a
//! map from names to types and a set of explicitly typed names.

use vstd::prelude::*;
use crate::python_type::PythonType;
use crate::text::same_text;

verus! {

/// One row of the table.
struct Entry {
    name: String,
    ty: PythonType,
    explicit: bool,
}

/// The table of variables.
pub struct Bindings {
    entries: Vec<Entry>,
}

/// Whether some row carries `name`.
spec fn occurs(entries: Seq<Entry>, name: Seq<char>) -> bool {
    exists|i: int| 0 <= i < entries.len() && #[trigger] entries[i].name@ == name
}

/// A row that carries `name`, if there is one.
spec fn row(entries: Seq<Entry>, name: Seq<char>) -> int {
    choose|i: int| 0 <= i < entries.len() && #[trigger] entries[i].name@ == name
}

/// No name occurs in two rows.
spec fn distinct(entries: Seq<Entry>) -> bool {
    forall|i: int, j: int|
        0 <= i < j < entries.len() ==> #[trigger] entries[i].name@ != #[trigger] entries[j].name@
}

spec fn bindings_of(entries: Seq<Entry>) -> Map<Seq<char>, PythonType> {
    Map::new(
        |name: Seq<char>| occurs(entries, name),
        |name: Seq<char>| entries[row(entries, name)].ty,
    )
}

spec fn explicit_of(entries: Seq<Entry>) -> Set<Seq<char>> {
    Set::new(|name: Seq<char>| occurs(entries, name) && entries[row(entries, name)].explicit)
}

/// In a table without repeated names, a name leads back to its own row.
proof fn lemma_row(entries: Seq<Entry>, i: int)
    requires
        distinct(entries),
        0 <= i < entries.len(),
    ensures
        occurs(entries, entries[i].name@),
        row(entries, entries[i].name@) == i,
{
    let name = entries[i].name@;
    assert(entries[i].name@ == name);
    let j = row(entries, name);
    assert(0 <= j < entries.len() && entries[j].name@ == name);
    if j < i {
        assert(entries[j].name@ != entries[i].name@);
    } else if i < j {
        assert(entries[i].name@ != entries[j].name@);
    }
}

/// Replacing a row by one of the same name keeps the names apart and
/// changes what is on record for that name only.
proof fn lemma_replace(before: Seq<Entry>, i: int, entry: Entry)
    requires
        distinct(before),
        0 <= i < before.len(),
        entry.name@ == before[i].name@,
        before[i].explicit ==> entry.explicit,
    ensures
        distinct(before.update(i, entry)),
        bindings_of(before.update(i, entry)) == bindings_of(before).insert(entry.name@, entry.ty),
        explicit_of(before.update(i, entry)) == if entry.explicit {
            explicit_of(before).insert(entry.name@)
        } else {
            explicit_of(before)
        },
{
    let after = before.update(i, entry);
    let key = entry.name@;
    assert forall|j: int| 0 <= j < after.len() implies #[trigger] after[j].name@
        == before[j].name@ by {}
    assert forall|n: Seq<char>| occurs(after, n) == occurs(before, n) by {
        if occurs(before, n) {
            assert(after[row(before, n)].name@ == n);
        }
        if occurs(after, n) {
            assert(before[row(after, n)].name@ == n);
        }
    }
    assert forall|n: Seq<char>| occurs(after, n) implies row(after, n) == row(before, n) by {
        lemma_row(before, row(after, n));
    }
    lemma_row(before, i);
    assert(bindings_of(after) =~= bindings_of(before).insert(key, entry.ty));
    assert(explicit_of(after) =~= if entry.explicit {
        explicit_of(before).insert(key)
    } else {
        explicit_of(before)
    });
}

/// Appending a row with a new name keeps the names apart and adds what
/// the row says.
proof fn lemma_append(before: Seq<Entry>, entry: Entry)
    requires
        distinct(before),
        !occurs(before, entry.name@),
    ensures
        distinct(before.push(entry)),
        bindings_of(before.push(entry)) == bindings_of(before).insert(entry.name@, entry.ty),
        explicit_of(before.push(entry)) == if entry.explicit {
            explicit_of(before).insert(entry.name@)
        } else {
            explicit_of(before)
        },
{
    let after = before.push(entry);
    let key = entry.name@;
    let last = before.len() as int;
    assert forall|j: int| 0 <= j < before.len() implies #[trigger] after[j] == before[j] by {}
    assert(distinct(after)) by {
        assert forall|a: int, b: int| 0 <= a < b < after.len() implies #[trigger] after[a].name@
            != #[trigger] after[b].name@ by {
            if b == last {
                assert(before[a].name@ != key);
            } else {
                assert(before[a].name@ != before[b].name@);
            }
        }
    }
    assert forall|n: Seq<char>| occurs(after, n) == (occurs(before, n) || n == key) by {
        if occurs(before, n) {
            assert(after[row(before, n)].name@ == n);
        }
        if n == key {
            assert(after[last].name@ == n);
        }
        if occurs(after, n) && n != key {
            assert(before[row(after, n)].name@ == n);
        }
    }
    assert forall|n: Seq<char>| occurs(before, n) implies row(after, n) == row(before, n) by {
        lemma_row(after, row(before, n));
    }
    lemma_row(after, last);
    assert(bindings_of(after) =~= bindings_of(before).insert(key, entry.ty));
    assert(explicit_of(after) =~= if entry.explicit {
        explicit_of(before).insert(key)
    } else {
        explicit_of(before)
    });
}

/// Whether `pairs` lists `bindings`: each pair is a variable with its
/// type, every variable has a pair, and none has two.
pub open spec fn lists(
    pairs: Seq<(String, PythonType)>,
    bindings: Map<Seq<char>, PythonType>,
) -> bool {
    &&& forall|i: int|
        0 <= i < pairs.len() ==> bindings.contains_pair((#[trigger] pairs[i]).0@, pairs[i].1)
    &&& forall|name: Seq<char>| #[trigger]
        bindings.dom().contains(name) ==> exists|i: int|
            0 <= i < pairs.len() && (#[trigger] pairs[i]).0@ == name
    &&& forall|i: int, j: int|
        0 <= i < j < pairs.len() ==> (#[trigger] pairs[i]).0@ != (#[trigger] pairs[j]).0@
}

impl Bindings {
    #[verifier::type_invariant]
    spec fn well_formed(self) -> bool {
        distinct(self.entries@)
    }

    /// The type on record for each variable.
    pub closed spec fn bindings(&self) -> Map<Seq<char>, PythonType> {
        bindings_of(self.entries@)
    }

    /// The variables that were typed explicitly.
    pub closed spec fn explicit(&self) -> Set<Seq<char>> {
        explicit_of(self.entries@)
    }

    /// Every explicitly typed variable has a type on record.
    pub proof fn lemma_explicit_is_bound(&self)
        ensures
            self.explicit().subset_of(self.bindings().dom()),
    {
    }

    /// A table without variables.
    pub fn new() -> (table: Bindings)
        ensures
            table.bindings() == Map::<Seq<char>, PythonType>::empty(),
            table.explicit() == Set::<Seq<char>>::empty(),
    {
        let table = Bindings { entries: Vec::new() };
        assert(table.bindings() =~= Map::<Seq<char>, PythonType>::empty());
        assert(table.explicit() =~= Set::<Seq<char>>::empty());
        table
    }

    /// The row that carries `name`, if there is one.
    fn find(&self, name: &str) -> (found: Option<usize>)
        ensures
            match found {
                Some(i) => i < self.entries.len() && self.entries[i as int].name@ == name@,
                None => !occurs(self.entries@, name@),
            },
    {
        let mut i: usize = 0;
        while i < self.entries.len()
            invariant
                i <= self.entries.len(),
                forall|j: int| 0 <= j < i ==> #[trigger] self.entries[j].name@ != name@,
            decreases self.entries.len() - i,
        {
            if same_text(self.entries[i].name.as_str(), name) {
                return Some(i);
            }
            i += 1;
        }
        None
    }

    /// The type on record for `name`, if it has one.
    pub fn get(&self, name: &str) -> (found: Option<&PythonType>)
        ensures
            match found {
                Some(ty) => self.bindings().dom().contains(name@) && *ty == self.bindings()[name@],
                None => !self.bindings().dom().contains(name@),
            },
    {
        proof {
            use_type_invariant(self);
        }
        match self.find(name) {
            Some(i) => {
                proof {
                    lemma_row(self.entries@, i as int);
                }
                Some(&self.entries[i].ty)
            },
            None => None,
        }
    }

    /// Whether `name` was typed explicitly.
    pub fn is_explicit(&self, name: &str) -> (marked: bool)
        ensures
            marked == self.explicit().contains(name@),
    {
        proof {
            use_type_invariant(self);
        }
        match self.find(name) {
            Some(i) => {
                proof {
                    lemma_row(self.entries@, i as int);
                }
                self.entries[i].explicit
            },
            None => false,
        }
    }

    /// Every variable with its type, each once.
    pub fn to_vec(&self) -> (pairs: Vec<(String, PythonType)>)
        ensures
            lists(pairs@, self.bindings()),
    {
        proof {
            use_type_invariant(self);
        }
        let mut pairs: Vec<(String, PythonType)> = Vec::new();
        let mut i: usize = 0;
        while i < self.entries.len()
            invariant
                i <= self.entries.len(),
                pairs.len() == i,
                distinct(self.entries@),
                forall|j: int|
                    0 <= j < i ==> (#[trigger] pairs[j]).0@ == self.entries[j].name@ && pairs[j].1
                        == self.entries[j].ty,
            decreases self.entries.len() - i,
        {
            pairs.push((self.entries[i].name.clone(), self.entries[i].ty));
            i += 1;
        }
        proof {
            let entries = self.entries@;
            assert forall|j: int| 0 <= j < pairs.len() implies self.bindings().contains_pair(
                (#[trigger] pairs[j]).0@,
                pairs[j].1,
            ) by {
                lemma_row(entries, j);
            }
            assert forall|name: Seq<char>| #[trigger]
                self.bindings().dom().contains(name) implies exists|j: int|
                0 <= j < pairs.len() && (#[trigger] pairs[j]).0@ == name by {
                let j = row(entries, name);
                assert(pairs[j].0@ == name);
            }
            assert forall|a: int, b: int| 0 <= a < b < pairs.len() implies (#[trigger] pairs[a]).0@
                != (#[trigger] pairs[b]).0@ by {
                assert(entries[a].name@ != entries[b].name@);
            }
        }
        pairs
    }

    /// Records `ty` as the type of `name`, in place of any earlier one.
    /// With `mark` the variable also becomes explicitly typed; a variable
    /// that is explicitly typed stays so.
    pub fn bind(&mut self, name: String, ty: PythonType, mark: bool)
        ensures
            final(self).bindings() == old(self).bindings().insert(name@, ty),
            final(self).explicit() == if mark {
                old(self).explicit().insert(name@)
            } else {
                old(self).explicit()
            },
    {
        proof {
            use_type_invariant(&*self);
        }
        let found = self.find(name.as_str());
        let mut entries: Vec<Entry> = Vec::new();
        std::mem::swap(&mut entries, &mut self.entries);
        let ghost before = entries@;
        match found {
            Some(i) => {
                let explicit = mark || entries[i].explicit;
                let entry = Entry { name, ty, explicit };
                proof {
                    lemma_replace(before, i as int, entry);
                }
                entries.set(i, entry);
            },
            None => {
                let entry = Entry { name, ty, explicit: mark };
                proof {
                    lemma_append(before, entry);
                }
                entries.push(entry);
            },
        }
        self.entries = entries;
    }
}

} // verus!
