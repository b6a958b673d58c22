//! A map from names to values that keeps the order in which the names came.

use vstd::prelude::*;

use crate::text::same_text;

verus! {

/// The place of a name in a list of entries, or -1.
pub open spec fn place<V>(entries: Seq<(Seq<char>, V)>, name: Seq<char>) -> int
    decreases entries.len(),
{
    if entries.len() == 0 {
        -1
    } else if entries.last().0 == name {
        entries.len() - 1
    } else {
        place(entries.drop_last(), name)
    }
}

/// Whether a name has an entry.
pub open spec fn has_name<V>(entries: Seq<(Seq<char>, V)>, name: Seq<char>) -> bool {
    place(entries, name) >= 0
}

/// The value of a name.
pub open spec fn lookup<V>(entries: Seq<(Seq<char>, V)>, name: Seq<char>) -> Option<V> {
    if has_name(entries, name) {
        Some(entries[place(entries, name)].1)
    } else {
        None
    }
}

/// The entries after a name was given a value: a name that was there keeps its place, a new one
/// comes last.
pub open spec fn inserted<V>(
    entries: Seq<(Seq<char>, V)>,
    name: Seq<char>,
    value: V,
) -> Seq<(Seq<char>, V)> {
    if has_name(entries, name) {
        entries.update(place(entries, name), (name, value))
    } else {
        entries.push((name, value))
    }
}

/// The entries after the given pairs were inserted one after the other.
pub open spec fn collected<V>(pairs: Seq<(Seq<char>, V)>) -> Seq<(Seq<char>, V)>
    decreases pairs.len(),
{
    if pairs.len() == 0 {
        seq![]
    } else {
        inserted(collected(pairs.drop_last()), pairs.last().0, pairs.last().1)
    }
}

/// Whether no name has two entries.
pub open spec fn distinct_names<V>(entries: Seq<(Seq<char>, V)>) -> bool {
    forall|i: int, j: int|
        0 <= i < j < entries.len() ==> (#[trigger] entries[i]).0 != (#[trigger] entries[j]).0
}

/// What `place` finds: the last entry of the name, or that there is none.
pub proof fn lemma_place<V>(entries: Seq<(Seq<char>, V)>, name: Seq<char>)
    ensures
        -1 <= place(entries, name) < entries.len(),
        has_name(entries, name) ==> entries[place(entries, name)].0 == name,
        forall|i: int| place(entries, name) < i < entries.len() ==> (#[trigger] entries[i]).0 != name,
    decreases entries.len(),
{
    if entries.len() > 0 && entries.last().0 != name {
        lemma_place(entries.drop_last(), name);
        assert forall|i: int| place(entries, name) < i < entries.len() implies (
        #[trigger] entries[i]).0 != name by {
            if i < entries.len() - 1 {
                assert(entries.drop_last()[i] == entries[i]);
            }
        }
    }
}

/// The entry of the name is the only one, so its place is known once it is seen.
proof fn lemma_place_at<V>(entries: Seq<(Seq<char>, V)>, name: Seq<char>, at: int)
    requires
        0 <= at < entries.len(),
        entries[at].0 == name,
        forall|i: int| at < i < entries.len() ==> (#[trigger] entries[i]).0 != name,
    ensures
        place(entries, name) == at,
{
    lemma_place(entries, name);
}

/// Law: after an insertion the name has the new value and every other name what it had.
pub proof fn lookup_after_insert<V>(
    entries: Seq<(Seq<char>, V)>,
    name: Seq<char>,
    value: V,
    other: Seq<char>,
)
    ensures
        lookup(inserted(entries, name, value), other) == if other == name {
            Some(value)
        } else {
            lookup(entries, other)
        },
{
    let after = inserted(entries, name, value);
    lemma_place(entries, name);
    lemma_place(entries, other);
    lemma_place(after, other);
    let at = place(entries, name);
    if other == name {
        if at >= 0 {
            lemma_place_at(after, name, at);
        } else {
            lemma_place_at(after, name, entries.len() as int);
        }
    } else if has_name(entries, other) {
        let there = place(entries, other);
        assert(after[there] == entries[there]);
        lemma_place_at(after, other, there);
    } else if has_name(after, other) {
        let there = place(after, other);
        if at >= 0 {
            assert(there != at);
            assert(entries[there].0 == other);
        } else {
            assert(there < entries.len());
            assert(entries[there].0 == other);
        }
    }
}

/// Insertion keeps names distinct.
proof fn lemma_inserted_distinct<V>(entries: Seq<(Seq<char>, V)>, name: Seq<char>, value: V)
    requires
        distinct_names(entries),
    ensures
        distinct_names(inserted(entries, name, value)),
{
    lemma_place(entries, name);
}

/// Law: of several values given to one name the last one counts, as in any map.
pub proof fn lookup_in_collected<V>(pairs: Seq<(Seq<char>, V)>, name: Seq<char>)
    ensures
        lookup(collected(pairs), name) == lookup(pairs, name),
    decreases pairs.len(),
{
    if pairs.len() > 0 {
        let init = pairs.drop_last();
        lookup_in_collected(init, name);
        lookup_after_insert(collected(init), pairs.last().0, pairs.last().1, name);
        lemma_place(init, name);
    }
}

/// Law: collecting pairs leaves every name one entry.
pub proof fn collected_distinct<V>(pairs: Seq<(Seq<char>, V)>)
    ensures
        distinct_names(collected(pairs)),
    decreases pairs.len(),
{
    if pairs.len() > 0 {
        collected_distinct(pairs.drop_last());
        lemma_inserted_distinct(
            collected(pairs.drop_last()),
            pairs.last().0,
            pairs.last().1,
        );
    }
}

/// The model of a list of pairs.
pub open spec fn pairs_view<V>(pairs: Seq<(String, V)>) -> Seq<(Seq<char>, V)> {
    Seq::new(pairs.len(), |i: int| (pairs[i].0@, pairs[i].1))
}

/// A map from names to values. Every name has one entry.
#[derive(Debug)]
pub struct NameMap<V> {
    entries: Vec<(String, V)>,
}

impl<V> View for NameMap<V> {
    type V = Seq<(Seq<char>, V)>;

    closed spec fn view(&self) -> Seq<(Seq<char>, V)> {
        pairs_view(self.entries@)
    }
}

impl<V> NameMap<V> {
    #[verifier::type_invariant]
    spec fn inv(self) -> bool {
        distinct_names(pairs_view(self.entries@))
    }

    /// A map without entries.
    pub fn new() -> (map: Self)
        ensures
            map@ == Seq::<(Seq<char>, V)>::empty(),
    {
        let map = NameMap { entries: Vec::new() };
        proof {
            assert(map@ =~= Seq::<(Seq<char>, V)>::empty());
        }
        map
    }

    /// The number of names.
    pub fn len(&self) -> (n: usize)
        ensures
            n == self@.len(),
            distinct_names(self@),
    {
        proof {
            use_type_invariant(self);
        }
        self.entries.len()
    }

    /// Whether there is no name.
    pub fn is_empty(&self) -> (empty: bool)
        ensures
            empty == (self@.len() == 0),
            distinct_names(self@),
    {
        proof {
            use_type_invariant(self);
        }
        self.entries.len() == 0
    }

    /// The name of an entry.
    pub fn name(&self, i: usize) -> (name: &String)
        requires
            i < self@.len(),
        ensures
            name@ == self@[i as int].0,
            distinct_names(self@),
    {
        proof {
            use_type_invariant(self);
        }
        &self.entries[i].0
    }

    /// The value of an entry.
    pub fn value(&self, i: usize) -> (value: &V)
        requires
            i < self@.len(),
        ensures
            *value == self@[i as int].1,
            distinct_names(self@),
    {
        proof {
            use_type_invariant(self);
        }
        &self.entries[i].1
    }

    /// Finds the entry of a name.
    fn find(&self, name: &str) -> (at: Option<usize>)
        ensures
            match at {
                Some(at) => place(self@, name@) == at && at < self@.len(),
                None => place(self@, name@) == -1,
            },
    {
        let mut i: usize = self.entries.len();
        proof {
            assert(self@.take(i as int) =~= self@);
        }
        while i > 0
            invariant
                i <= self.entries@.len(),
                self@ == pairs_view(self.entries@),
                place(self@.take(i as int), name@) == place(self@, name@),
            decreases i,
        {
            proof {
                assert(self@.take(i as int).drop_last() =~= self@.take(i - 1));
                assert(self@.take(i as int).last() == self@[i - 1]);
            }
            i -= 1;
            if same_text(self.entries[i].0.as_str(), name) {
                return Some(i);
            }
        }
        None
    }

    /// Whether a name has an entry.
    pub fn contains_name(&self, name: &str) -> (found: bool)
        ensures
            found == has_name(self@, name@),
            distinct_names(self@),
    {
        proof {
            use_type_invariant(self);
        }
        self.find(name).is_some()
    }

    /// The value of a name.
    pub fn get(&self, name: &str) -> (value: Option<&V>)
        ensures
            match value {
                Some(value) => lookup(self@, name@) == Some(*value),
                None => lookup(self@, name@) is None,
            },
            distinct_names(self@),
    {
        proof {
            use_type_invariant(self);
        }
        match self.find(name) {
            Some(i) => Some(&self.entries[i].1),
            None => None,
        }
    }

    /// Gives a name a value, in place of the one it had.
    pub fn insert(&mut self, name: String, value: V)
        ensures
            final(self)@ == inserted(old(self)@, name@, value),
            distinct_names(final(self)@),
    {
        proof {
            use_type_invariant(&*self);
            lemma_inserted_distinct(self@, name@, value);
        }
        let ghost before = self@;
        let ghost key = name@;
        let at = self.find(name.as_str());
        let mut entries: Vec<(String, V)> = Vec::new();
        std::mem::swap(&mut entries, &mut self.entries);
        match at {
            Some(i) => {
                entries.set(i, (name, value));
            },
            None => {
                entries.push((name, value));
            },
        }
        proof {
            assert(pairs_view(entries@) =~= inserted(before, key, value));
        }
        self.entries = entries;
    }
}

} // verus!
