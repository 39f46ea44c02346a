use crate::text::same_text;
use vstd::prelude::*;

verus! {

/// The index of the first entry of `entries` whose name is `name`, if any.
pub open spec fn position_of<T>(entries: Seq<(Seq<char>, T)>, name: Seq<char>) -> Option<int>
    decreases entries.len(),
{
    if entries.len() == 0 {
        None
    } else {
        match position_of(entries.drop_last(), name) {
            Some(i) => Some(i),
            None => if entries.last().0 == name {
                Some(entries.len() - 1)
            } else {
                None
            },
        }
    }
}

/// The value stored under `name`, if any.
pub open spec fn lookup<T>(entries: Seq<(Seq<char>, T)>, name: Seq<char>) -> Option<T> {
    match position_of(entries, name) {
        Some(i) => Some(entries[i].1),
        None => None,
    }
}

/// `entries` after storing `value` under `name`: an existing entry keeps its
/// place and takes the new value, a new name goes to the end.
pub open spec fn with_entry<T>(entries: Seq<(Seq<char>, T)>, name: Seq<char>, value: T) -> Seq<
    (Seq<char>, T),
> {
    match position_of(entries, name) {
        Some(i) => entries.update(i, (name, value)),
        None => entries.push((name, value)),
    }
}

/// No name occurs twice.
pub open spec fn distinct_names<T>(entries: Seq<(Seq<char>, T)>) -> bool {
    forall|i: int, j: int|
        0 <= i < j < entries.len() ==> (#[trigger] entries[i]).0 != (#[trigger] entries[j]).0
}

/// What [`position_of`] finds is the first entry with the name, and it finds
/// nothing only where no entry has the name.
pub proof fn lemma_position_of<T>(entries: Seq<(Seq<char>, T)>, name: Seq<char>)
    ensures
        match position_of(entries, name) {
            Some(i) => 0 <= i < entries.len() && entries[i].0 == name && forall|j: int|
                0 <= j < i ==> (#[trigger] entries[j]).0 != name,
            None => forall|j: int| 0 <= j < entries.len() ==> (#[trigger] entries[j]).0 != name,
        },
    decreases entries.len(),
{
    if entries.len() > 0 {
        let front = entries.drop_last();
        lemma_position_of(front, name);
        assert(forall|j: int| 0 <= j < front.len() ==> front[j] == entries[j]);
        match position_of(front, name) {
            Some(i) => {
                assert(front[i] == entries[i]);
            },
            None => {
                assert forall|j: int| 0 <= j < entries.len() - 1 implies (#[trigger] entries[j]).0
                    != name by {
                    assert(front[j] == entries[j]);
                }
            },
        }
    }
}

/// An entry with the name, before which no entry has it, is the one found.
pub proof fn lemma_position_is<T>(entries: Seq<(Seq<char>, T)>, name: Seq<char>, i: int)
    requires
        0 <= i < entries.len(),
        entries[i].0 == name,
        forall|j: int| 0 <= j < i ==> (#[trigger] entries[j]).0 != name,
    ensures
        position_of(entries, name) == Some(i),
{
    lemma_position_of(entries, name);
}

/// After an entry was stored, its value is the one found under its name, and
/// what is found under every other name is what was found before.
pub proof fn lemma_with_entry<T>(entries: Seq<(Seq<char>, T)>, name: Seq<char>, value: T)
    ensures
        lookup(with_entry(entries, name, value), name) == Some(value),
        forall|other: Seq<char>|
            other != name ==> lookup(#[trigger] with_entry(entries, name, value), other)
                == #[trigger] lookup(entries, other),
        distinct_names(entries) ==> distinct_names(with_entry(entries, name, value)),
{
    let after = with_entry(entries, name, value);
    lemma_position_of(entries, name);
    match position_of(entries, name) {
        Some(i) => {
            lemma_position_is(after, name, i);
        },
        None => {
            lemma_position_is(after, name, entries.len() as int);
        },
    }
    assert forall|other: Seq<char>| other != name implies lookup(after, other) == lookup(
        entries,
        other,
    ) by {
        lemma_position_of(entries, other);
        match position_of(entries, other) {
            Some(k) => {
                lemma_position_is(after, other, k);
            },
            None => {
                lemma_position_of(after, other);
            },
        }
    }
}

/// Two lists of entries with the same names in the same places find a name
/// at the same place.
pub proof fn lemma_same_names<T, U>(
    a: Seq<(Seq<char>, T)>,
    b: Seq<(Seq<char>, U)>,
    name: Seq<char>,
)
    requires
        a.len() == b.len(),
        forall|i: int| 0 <= i < a.len() ==> (#[trigger] a[i]).0 == b[i].0,
    ensures
        position_of(a, name) == position_of(b, name),
    decreases a.len(),
{
    if a.len() > 0 {
        assert(a.last().0 == b.last().0);
        assert forall|i: int| 0 <= i < a.drop_last().len() implies (#[trigger] a.drop_last()[i]).0
            == b.drop_last()[i].0 by {
            assert(a[i].0 == b[i].0);
        }
        lemma_same_names(a.drop_last(), b.drop_last(), name);
    }
}

/// A table from names to values that keeps its entries in the order in which
/// their names first came, each name once.
#[derive(Debug)]
pub struct NameTable<V: View> {
    entries: Vec<(String, V)>,
}

impl<V: View> View for NameTable<V> {
    type V = Seq<(Seq<char>, V::V)>;

    closed spec fn view(&self) -> Seq<(Seq<char>, V::V)> {
        Seq::new(self.entries.len() as nat, |i: int| (self.entries[i].0@, self.entries[i].1@))
    }
}

impl<V: View + Clone> Clone for NameTable<V> {
    /// A table with the same names in the same order, each with a clone of
    /// its value.
    fn clone(&self) -> (t: Self)
        ensures
            t@.len() == self@.len(),
            forall|i: int| 0 <= i < self@.len() ==> (#[trigger] t@[i]).0 == self@[i].0,
    {
        proof {
            use_type_invariant(self);
        }
        let mut entries: Vec<(String, V)> = Vec::new();
        let mut i: usize = 0;
        while i < self.entries.len()
            invariant
                i <= self.entries.len(),
                entries.len() == i,
                forall|k: int| 0 <= k < i ==> (#[trigger] entries[k]).0@ == self.entries[k].0@,
            decreases self.entries.len() - i,
        {
            entries.push((self.entries[i].0.clone(), self.entries[i].1.clone()));
            i += 1;
        }
        proof {
            let made = Seq::new(entries.len() as nat, |k: int| (entries[k].0@, entries[k].1@));
            assert forall|x: int, y: int| 0 <= x < y < made.len() implies (#[trigger] made[x]).0 != (
            #[trigger] made[y]).0 by {
                assert(self@[x].0 == made[x].0);
                assert(self@[y].0 == made[y].0);
            }
        }
        NameTable { entries }
    }
}

impl<V: View> NameTable<V> {
    #[verifier::type_invariant]
    spec fn inv(&self) -> bool {
        distinct_names(self@)
    }

    /// The empty table.
    pub fn new() -> (t: Self)
        ensures
            t@ == Seq::<(Seq<char>, V::V)>::empty(),
    {
        let t = NameTable { entries: Vec::new() };
        assert(t@ =~= Seq::<(Seq<char>, V::V)>::empty());
        t
    }

    /// The number of entries. No two of them have the same name.
    pub fn len(&self) -> (n: usize)
        ensures
            n == self@.len(),
            distinct_names(self@),
    {
        proof {
            use_type_invariant(self);
        }
        self.entries.len()
    }

    /// The place of the entry named `name`.
    pub fn position(&self, name: &str) -> (r: Option<usize>)
        ensures
            match r {
                Some(i) => i < self@.len() && position_of(self@, name@) == Some(i as int),
                None => position_of(self@, name@).is_none(),
            },
    {
        let mut i: usize = 0;
        while i < self.entries.len()
            invariant
                i <= self.entries.len(),
                forall|j: int| 0 <= j < i ==> (#[trigger] self@[j]).0 != name@,
            decreases self.entries.len() - i,
        {
            if same_text(self.entries[i].0.as_str(), name) {
                proof {
                    lemma_position_is(self@, name@, i as int);
                }
                return Some(i);
            }
            i += 1;
        }
        proof {
            lemma_position_of(self@, name@);
        }
        None
    }

    /// Whether an entry is named `name`.
    pub fn contains_key(&self, name: &str) -> (r: bool)
        ensures
            r == lookup(self@, name@).is_some(),
    {
        self.position(name).is_some()
    }

    /// The value stored under `name`.
    pub fn get(&self, name: &str) -> (r: Option<&V>)
        ensures
            match r {
                Some(v) => lookup(self@, name@) == Some(v@),
                None => lookup(self@, name@).is_none(),
            },
    {
        match self.position(name) {
            Some(i) => Some(&self.entries[i].1),
            None => None,
        }
    }

    /// The name of the entry at place `i`.
    pub fn key_at(&self, i: usize) -> (k: &String)
        requires
            i < self@.len(),
        ensures
            k@ == self@[i as int].0,
    {
        &self.entries[i].0
    }

    /// The value of the entry at place `i`.
    pub fn value_at(&self, i: usize) -> (v: &V)
        requires
            i < self@.len(),
        ensures
            v@ == self@[i as int].1,
    {
        &self.entries[i].1
    }

    /// Puts `value` in the entry at place `i` and hands back the value that
    /// was there.
    pub fn replace_at(&mut self, i: usize, value: V) -> (previous: V)
        requires
            i < old(self)@.len(),
        ensures
            previous@ == old(self)@[i as int].1,
            final(self)@ == old(self)@.update(i as int, (old(self)@[i as int].0, value@)),
    {
        proof {
            use_type_invariant(&*self);
        }
        let ghost before = self@;
        let mut held = value;
        let mut entries: Vec<(String, V)> = Vec::new();
        core::mem::swap(&mut entries, &mut self.entries);
        core::mem::swap(&mut entries[i].1, &mut held);
        let ghost after = Seq::new(entries.len() as nat, |k: int| (entries[k].0@, entries[k].1@));
        assert(after =~= before.update(i as int, (before[i as int].0, value@)));
        core::mem::swap(&mut entries, &mut self.entries);
        assert(self@ =~= after);
        held
    }

    /// Stores `value` under `name`: over the value of the entry that has the
    /// name, or else in a new last entry.
    pub fn insert(&mut self, name: String, value: V)
        ensures
            final(self)@ == with_entry(old(self)@, name@, value@),
    {
        proof {
            use_type_invariant(&*self);
            lemma_with_entry(self@, name@, value@);
        }
        let ghost before = self@;
        let found = self.position(name.as_str());
        let mut entries: Vec<(String, V)> = Vec::new();
        core::mem::swap(&mut entries, &mut self.entries);
        match found {
            Some(i) => {
                entries.push((name, value));
                let _ = entries.swap_remove(i);
            },
            None => {
                entries.push((name, value));
            },
        }
        let ghost after = Seq::new(entries.len() as nat, |k: int| (entries[k].0@, entries[k].1@));
        assert(after =~= with_entry(before, name@, value@));
        core::mem::swap(&mut entries, &mut self.entries);
        assert(self@ =~= after);
    }
}

} // verus!
