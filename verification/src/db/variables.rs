//! The variables one user keeps in one room: at most 100 of them, each
//! name set at most once.
use crate::db::keys::DataError;
use crate::dice::{distinct_names, lookup, lookup_from, VariableEntry};
use crate::text::text_eq;
use vstd::prelude::*;

verus! {

/// The most variables a user may keep in one room.
pub const MAX_VARIABLES_PER_ROOM: usize = 100;

/// The variables of one user in one room, in the order they were first set.
pub struct RoomVariables {
    entries: Vec<VariableEntry>,
}

/// Where `lookup_from` finds a name: the value at the first position from
/// `j` on that holds it, or nothing when no position does.
proof fn lemma_lookup_from(s: Seq<VariableEntry>, j: int, n: Seq<char>)
    requires
        0 <= j <= s.len(),
    ensures
        (forall|i: int| j <= i < s.len() ==> #[trigger] s[i].0@ != n) ==> lookup_from(s, j, n) is None,
        forall|i: int|
            j <= i < s.len() && #[trigger] s[i].0@ == n && (forall|k: int| j <= k < i ==> s[k].0@ != n)
                ==> lookup_from(s, j, n) == Some(s[i].1),
    decreases s.len() - j,
{
    if j < s.len() {
        lemma_lookup_from(s, j + 1, n);
        assert forall|i: int|
            j <= i < s.len() && #[trigger] s[i].0@ == n && (forall|k: int| j <= k < i ==> s[k].0@ != n)
                implies lookup_from(s, j, n) == Some(s[i].1) by {
            if i > j {
                assert(s[j].0@ != n);
            }
        }
    }
}

/// With distinct names, the value of a name is the value at the position
/// that holds it, and nothing when no position does.
proof fn lemma_lookup(s: Seq<VariableEntry>, n: Seq<char>)
    requires
        distinct_names(s),
    ensures
        (forall|i: int| 0 <= i < s.len() ==> #[trigger] s[i].0@ != n) ==> lookup(s, n) is None,
        forall|i: int| 0 <= i < s.len() && #[trigger] s[i].0@ == n ==> lookup(s, n) == Some(s[i].1),
{
    lemma_lookup_from(s, 0, n);
    assert forall|i: int| 0 <= i < s.len() && #[trigger] s[i].0@ == n implies lookup(s, n) == Some(
        s[i].1,
    ) by {
        assert forall|k: int| 0 <= k < i implies s[k].0@ != n by {
            assert(s[k].0@ != s[i].0@);
        }
    }
}

impl RoomVariables {
    #[verifier::type_invariant]
    spec fn inv(self) -> bool {
        &&& distinct_names(self.entries@)
        &&& self.entries@.len() <= MAX_VARIABLES_PER_ROOM
    }

    /// The variables, in the order they were first set.
    pub closed spec fn view(&self) -> Seq<VariableEntry> {
        self.entries@
    }

    /// No variables.
    pub fn new() -> (r: RoomVariables)
        ensures
            r.view().len() == 0,
    {
        RoomVariables { entries: Vec::new() }
    }

    /// The variables, for rolling dice with them.
    pub fn entries(&self) -> (r: &[VariableEntry])
        ensures
            r@ == self.view(),
            distinct_names(r@),
    {
        proof {
            use_type_invariant(self);
        }
        self.entries.as_slice()
    }

    /// How many variables are set (at most 100).
    pub fn variable_count(&self) -> (r: i32)
        ensures
            r == self.view().len(),
            r <= MAX_VARIABLES_PER_ROOM,
    {
        proof {
            use_type_invariant(self);
        }
        self.entries.len() as i32
    }

    /// The position of the variable named `name`, if it is set.
    fn position(&self, name: &str) -> (r: Option<usize>)
        ensures
            match r {
                Some(i) => i < self.view().len() && self.view()[i as int].0@ == name@,
                None => forall|i: int| 0 <= i < self.view().len() ==> #[trigger] self.view()[i].0@ != name@,
            },
    {
        let mut i: usize = 0;
        while i < self.entries.len()
            invariant
                i <= self.entries@.len(),
                forall|k: int| 0 <= k < i ==> #[trigger] self.entries@[k].0@ != name@,
            decreases self.entries@.len() - i,
        {
            if text_eq(self.entries[i].0.as_str(), name) {
                return Some(i);
            }
            i = i + 1;
        }
        None
    }

    /// The value of the variable named `name`; an error naming it when it is
    /// not set.
    pub fn get_user_variable(&self, name: &str) -> (r: Result<i32, DataError>)
        ensures
            match lookup(self.view(), name@) {
                Some(v) => r == Ok::<i32, DataError>(v),
                None => r matches Err(DataError::KeyDoesNotExist(k)) && k@ == name@,
            },
    {
        proof {
            use_type_invariant(self);
            lemma_lookup(self.view(), name@);
        }
        match self.position(name) {
            Some(i) => Ok(self.entries[i].1),
            None => Err(DataError::KeyDoesNotExist(name.to_owned())),
        }
    }

    /// Set the variable named `name` to `value`. When 100 variables are
    /// already set this is refused, and nothing changes, even for a
    /// variable that is set; otherwise the variable takes the value, the
    /// others keep theirs, and a new variable is counted once.
    pub fn set_user_variable(&mut self, name: &str, value: i32) -> (r: Result<(), DataError>)
        ensures
            old(self).view().len() >= MAX_VARIABLES_PER_ROOM ==> {
                &&& r == Err::<(), DataError>(DataError::TooManyEntries)
                &&& final(self).view() == old(self).view()
            },
            old(self).view().len() < MAX_VARIABLES_PER_ROOM ==> {
                &&& r is Ok
                &&& lookup(final(self).view(), name@) == Some(value)
                &&& forall|n: Seq<char>|
                    n != name@ ==> #[trigger] lookup(final(self).view(), n) == lookup(old(self).view(), n)
                &&& final(self).view().len() == old(self).view().len() + if lookup(
                    old(self).view(),
                    name@,
                ) is None {
                    1int
                } else {
                    0int
                }
            },
    {
        proof {
            use_type_invariant(&*self);
            lemma_lookup(self.view(), name@);
        }
        if self.entries.len() >= MAX_VARIABLES_PER_ROOM {
            return Err(DataError::TooManyEntries);
        }
        let ghost before = self.entries@;
        match self.position(name) {
            Some(i) => {
                let entry = (self.entries[i].0.clone(), value);
                let mut entries: Vec<VariableEntry> = Vec::new();
                std::mem::swap(&mut entries, &mut self.entries);
                entries.set(i, entry);
                proof {
                    let after = entries@;
                    assert(after[i as int].0@ == before[i as int].0@);
                    assert(distinct_names(after)) by {
                        assert forall|a: int, b: int| 0 <= a < b < after.len() implies after[a].0@
                            != after[b].0@ by {
                            assert(after[a].0@ == before[a].0@);
                            assert(after[b].0@ == before[b].0@);
                        }
                    }
                    lemma_lookup(after, name@);
                    assert forall|n: Seq<char>| n != name@ implies #[trigger] lookup(after, n) == lookup(
                        before,
                        n,
                    ) by {
                        lemma_lookup(after, n);
                        lemma_lookup(before, n);
                        if exists|k: int| 0 <= k < before.len() && before[k].0@ == n {
                            let k = choose|k: int| 0 <= k < before.len() && before[k].0@ == n;
                            assert(after[k] == before[k]);
                        } else {
                            assert forall|k: int| 0 <= k < after.len() implies #[trigger] after[k].0@
                                != n by {
                                assert(after[k].0@ == before[k].0@);
                            }
                        }
                    }
                }
                self.entries = entries;
            },
            None => {
                let entry = (name.to_owned(), value);
                let mut entries: Vec<VariableEntry> = Vec::new();
                std::mem::swap(&mut entries, &mut self.entries);
                entries.push(entry);
                proof {
                    let after = entries@;
                    assert(distinct_names(after)) by {
                        assert forall|a: int, b: int| 0 <= a < b < after.len() implies after[a].0@
                            != after[b].0@ by {
                            if b < before.len() {
                                assert(after[a] == before[a]);
                                assert(after[b] == before[b]);
                            } else {
                                assert(after[a] == before[a]);
                            }
                        }
                    }
                    lemma_lookup(after, name@);
                    assert(after[before.len() as int].0@ == name@);
                    assert forall|n: Seq<char>| n != name@ implies #[trigger] lookup(after, n) == lookup(
                        before,
                        n,
                    ) by {
                        lemma_lookup(after, n);
                        lemma_lookup(before, n);
                        if exists|k: int| 0 <= k < before.len() && before[k].0@ == n {
                            let k = choose|k: int| 0 <= k < before.len() && before[k].0@ == n;
                            assert(after[k] == before[k]);
                        } else {
                            assert forall|k: int| 0 <= k < after.len() implies #[trigger] after[k].0@
                                != n by {
                                if k < before.len() {
                                    assert(after[k] == before[k]);
                                }
                            }
                        }
                    }
                }
                self.entries = entries;
            },
        }
        Ok(())
    }

    /// Remove the variable named `name`: the others keep their values and
    /// the count drops by one. An error naming it, with nothing changed,
    /// when it is not set.
    pub fn delete_user_variable(&mut self, name: &str) -> (r: Result<(), DataError>)
        ensures
            lookup(old(self).view(), name@) is None ==> {
                &&& r matches Err(DataError::KeyDoesNotExist(k)) && k@ == name@
                &&& final(self).view() == old(self).view()
            },
            lookup(old(self).view(), name@) is Some ==> {
                &&& r is Ok
                &&& lookup(final(self).view(), name@) is None
                &&& forall|n: Seq<char>|
                    n != name@ ==> #[trigger] lookup(final(self).view(), n) == lookup(old(self).view(), n)
                &&& final(self).view().len() == old(self).view().len() - 1
            },
    {
        proof {
            use_type_invariant(&*self);
            lemma_lookup(self.view(), name@);
        }
        let ghost before = self.entries@;
        match self.position(name) {
            None => Err(DataError::KeyDoesNotExist(name.to_owned())),
            Some(i) => {
                let mut entries: Vec<VariableEntry> = Vec::new();
                std::mem::swap(&mut entries, &mut self.entries);
                let _removed = entries.remove(i);
                proof {
                    let after = entries@;
                    assert(after =~= before.remove(i as int));
                    assert forall|k: int| 0 <= k < after.len() implies #[trigger] after[k] == (if k < i {
                        before[k]
                    } else {
                        before[k + 1]
                    }) by {}
                    assert(distinct_names(after)) by {
                        assert forall|a: int, b: int| 0 <= a < b < after.len() implies after[a].0@
                            != after[b].0@ by {
                            let a0 = if a < i { a } else { a + 1 };
                            let b0 = if b < i { b } else { b + 1 };
                            assert(after[a] == before[a0]);
                            assert(after[b] == before[b0]);
                        }
                    }
                    lemma_lookup(after, name@);
                    assert forall|k: int| 0 <= k < after.len() implies #[trigger] after[k].0@ != name@ by {
                        let k0 = if k < i { k } else { k + 1 };
                        assert(after[k] == before[k0]);
                        assert(before[k0].0@ != before[i as int].0@);
                    }
                    assert forall|n: Seq<char>| n != name@ implies #[trigger] lookup(after, n) == lookup(
                        before,
                        n,
                    ) by {
                        lemma_lookup(after, n);
                        lemma_lookup(before, n);
                        if exists|k: int| 0 <= k < before.len() && before[k].0@ == n {
                            let k = choose|k: int| 0 <= k < before.len() && before[k].0@ == n;
                            assert(k != i);
                            let k1 = if k < i { k } else { k - 1 };
                            assert(after[k1] == before[k]);
                        } else {
                            assert forall|k: int| 0 <= k < after.len() implies #[trigger] after[k].0@
                                != n by {
                                let k0 = if k < i { k } else { k + 1 };
                                assert(after[k] == before[k0]);
                            }
                        }
                    }
                }
                self.entries = entries;
                Ok(())
            },
        }
    }
}

}
