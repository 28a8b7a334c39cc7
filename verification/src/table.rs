//! Tables from names to values: the variables of a scope, the procedures
//! of a program. A name stands in a table once.
use vstd::prelude::*;

verus! {

/// A table from names to values, in the order in which the names came.
pub struct Table<V> {
    entries: Vec<(String, V)>,
}

/// Where `name` stands in the entries from `from` on, if it stands there.
pub open spec fn find_from<T>(s: Seq<(Seq<char>, T)>, name: Seq<char>, from: int) -> Option<int>
    decreases s.len() - from,
{
    if from < 0 || from >= s.len() {
        None
    } else if s[from].0 == name {
        Some(from)
    } else {
        find_from(s, name, from + 1)
    }
}

/// The value that the table holds for `name`, if it holds one.
pub open spec fn lookup<T>(s: Seq<(Seq<char>, T)>, name: Seq<char>) -> Option<T> {
    match find_from(s, name, 0) {
        Some(i) => Some(s[i].1),
        None => None,
    }
}

/// The table with `value` for `name`: in the place of the old value, or at
/// the end where the name is new.
pub open spec fn assign<T>(s: Seq<(Seq<char>, T)>, name: Seq<char>, value: T) -> Seq<
    (Seq<char>, T),
> {
    match find_from(s, name, 0) {
        Some(i) => s.update(i, (name, value)),
        None => s.push((name, value)),
    }
}

/// No name stands twice.
pub open spec fn distinct<T>(s: Seq<(Seq<char>, T)>) -> bool {
    forall|i: int, j: int| 0 <= i < j < s.len() ==> (#[trigger] s[i]).0 != (#[trigger] s[j]).0
}

proof fn lemma_find<T>(s: Seq<(Seq<char>, T)>, name: Seq<char>, from: int)
    requires
        0 <= from,
    ensures
        match find_from(s, name, from) {
            Some(i) => from <= i < s.len() && s[i].0 == name && forall|j: int|
                from <= j < i ==> (#[trigger] s[j]).0 != name,
            None => forall|j: int| from <= j < s.len() ==> (#[trigger] s[j]).0 != name,
        },
    decreases s.len() - from,
{
    if from < s.len() && s[from].0 != name {
        lemma_find(s, name, from + 1);
    }
}

/// After `assign`, the table holds the new value for the name.
pub proof fn lemma_assign_same<T>(s: Seq<(Seq<char>, T)>, name: Seq<char>, value: T)
    ensures
        lookup(assign(s, name, value), name) == Some(value),
{
    lemma_find(s, name, 0);
    let t = assign(s, name, value);
    lemma_find(t, name, 0);
    match find_from(s, name, 0) {
        Some(i) => {
            assert(t[i].0 == name);
            assert forall|j: int| 0 <= j < i implies (#[trigger] t[j]).0 != name by {
                assert(t[j] == s[j]);
            }
        },
        None => {
            assert(t[s.len() as int].0 == name);
            assert forall|j: int| 0 <= j < s.len() implies (#[trigger] t[j]).0 != name by {
                assert(t[j] == s[j]);
            }
        },
    }
}

/// After `assign`, the table holds for every other name what it held.
pub proof fn lemma_assign_other<T>(
    s: Seq<(Seq<char>, T)>,
    name: Seq<char>,
    value: T,
    other: Seq<char>,
)
    requires
        other != name,
    ensures
        lookup(assign(s, name, value), other) == lookup(s, other),
{
    lemma_find(s, name, 0);
    lemma_find(s, other, 0);
    let t = assign(s, name, value);
    lemma_find(t, other, 0);
    assert forall|j: int| 0 <= j < s.len() implies ((#[trigger] t[j]).0 == other <==> s[j].0
        == other) && (s[j].0 == other ==> t[j] == s[j]) by {}
    match find_from(s, other, 0) {
        Some(i) => {
            assert(t[i].0 == other);
            match find_from(t, other, 0) {
                Some(k) => {
                    if k < i {
                        assert(s[k].0 != other);
                    }
                    if i < k {
                        assert(t[i].0 != other);
                    }
                },
                None => {
                    assert(t[i].0 != other);
                },
            }
        },
        None => {
            match find_from(t, other, 0) {
                Some(k) => {
                    if k < s.len() {
                        assert(s[k].0 != other);
                    }
                },
                None => {},
            }
        },
    }
}

/// `assign` keeps the names distinct.
pub proof fn lemma_assign_distinct<T>(s: Seq<(Seq<char>, T)>, name: Seq<char>, value: T)
    requires
        distinct(s),
    ensures
        distinct(assign(s, name, value)),
{
    lemma_find(s, name, 0);
    let t = assign(s, name, value);
    assert forall|i: int, j: int| 0 <= i < j < t.len() implies (#[trigger] t[i]).0 != (
    #[trigger] t[j]).0 by {
        if j < s.len() {
            assert(s[i].0 != s[j].0);
        } else {
            assert(s[i].0 != name);
        }
    }
}

impl<V: View> View for Table<V> {
    type V = Seq<(Seq<char>, V::V)>;

    closed spec fn view(&self) -> Seq<(Seq<char>, V::V)> {
        Seq::new(self.entries@.len(), |i: int| (self.entries@[i].0@, self.entries@[i].1@))
    }
}

impl<V: View> Table<V> {
    /// The empty table.
    pub fn new() -> (t: Table<V>)
        ensures
            t@ == Seq::<(Seq<char>, V::V)>::empty(),
            distinct(t@),
    {
        let t = Table { entries: Vec::new() };
        assert(t@ =~= Seq::<(Seq<char>, V::V)>::empty());
        t
    }

    /// How many names the table holds.
    pub fn len(&self) -> (n: usize)
        ensures
            n == self@.len(),
    {
        self.entries.len()
    }

    /// Where `name` stands in the table.
    pub fn find(&self, name: &String) -> (r: Option<usize>)
        ensures
            match r {
                Some(k) => find_from(self@, name@, 0) == Some(k as int) && k < self@.len(),
                None => find_from(self@, name@, 0) is None,
            },
    {
        let mut i: usize = 0;
        while i < self.entries.len()
            invariant
                i <= self.entries.len(),
                find_from(self@, name@, 0) == find_from(self@, name@, i as int),
            decreases self.entries.len() - i,
        {
            if self.entries[i].0 == *name {
                return Some(i);
            }
            i = i + 1;
        }
        None
    }

    /// The name at a place in the table.
    pub fn name_at(&self, i: usize) -> (r: &String)
        requires
            i < self@.len(),
        ensures
            r@ == self@[i as int].0,
    {
        &self.entries[i].0
    }

    /// The value at a place in the table.
    pub fn value_at(&self, i: usize) -> (r: &V)
        requires
            i < self@.len(),
        ensures
            r@ == self@[i as int].1,
    {
        &self.entries[i].1
    }

    /// Gives `name` the value `value`.
    pub fn set(&mut self, name: String, value: V)
        ensures
            final(self)@ == assign(old(self)@, name@, value@),
            distinct(old(self)@) ==> distinct(final(self)@),
    {
        proof {
            if distinct(self@) {
                lemma_assign_distinct(self@, name@, value@);
            }
        }
        assert(self@.len() == self.entries@.len());
        match self.find(&name) {
            Some(i) => {
                self.entries.set(i, (name, value));
                assert(self@ =~= assign(old(self)@, name@, value@));
            },
            None => {
                self.entries.push((name, value));
                assert(self@ =~= assign(old(self)@, name@, value@));
            },
        }
    }
}

} // verus!
