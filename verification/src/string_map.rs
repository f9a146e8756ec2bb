//! A map from names to values that keeps its entries in the order in which
//! their names were first written.

use vstd::prelude::*;

verus! {

/// The index of the last entry of `entries` under the name `key`, if there is one.
pub open spec fn position<V>(entries: Seq<(Seq<char>, V)>, key: Seq<char>) -> Option<int>
    decreases entries.len(),
{
    if entries.len() == 0 {
        None
    } else if entries.last().0 == key {
        Some(entries.len() - 1)
    } else {
        position(entries.drop_last(), key)
    }
}

/// The value that `entries` hold under the name `key`, if there is one.
pub open spec fn lookup<V>(entries: Seq<(Seq<char>, V)>, key: Seq<char>) -> Option<V> {
    match position(entries, key) {
        Some(i) => Some(entries[i].1),
        None => None,
    }
}

/// The entries after `value` is written under the name `key`: the value takes
/// the place of the one that was there, or a new entry comes last.
pub open spec fn put<V>(entries: Seq<(Seq<char>, V)>, key: Seq<char>, value: V) -> Seq<
    (Seq<char>, V),
> {
    match position(entries, key) {
        Some(i) => entries.update(i, (key, value)),
        None => entries.push((key, value)),
    }
}

/// The entries after each pair of `pairs` is written in turn.
pub open spec fn put_all<V>(entries: Seq<(Seq<char>, V)>, pairs: Seq<(Seq<char>, V)>) -> Seq<
    (Seq<char>, V),
>
    decreases pairs.len(),
{
    if pairs.len() == 0 {
        entries
    } else {
        put_all(put(entries, pairs[0].0, pairs[0].1), pairs.skip(1))
    }
}

/// No two entries have the same name.
pub open spec fn distinct_keys<V>(entries: Seq<(Seq<char>, V)>) -> bool {
    forall|i: int, j: int|
        0 <= i < j < entries.len() ==> (#[trigger] entries[i]).0 != (#[trigger] entries[j]).0
}

/// Where `position` finds an entry, it is one under that name and the last
/// such; where it finds none, there is none.
pub proof fn lemma_position<V>(entries: Seq<(Seq<char>, V)>, key: Seq<char>)
    ensures
        match position(entries, key) {
            Some(i) => 0 <= i < entries.len() && entries[i].0 == key && forall|j: int|
                i < j < entries.len() ==> (#[trigger] entries[j]).0 != key,
            None => forall|j: int| 0 <= j < entries.len() ==> (#[trigger] entries[j]).0 != key,
        },
    decreases entries.len(),
{
    if entries.len() > 0 && entries.last().0 != key {
        let front = entries.drop_last();
        lemma_position(front, key);
        assert forall|j: int| 0 <= j < front.len() implies front[j] == entries[j] by {}
        match position(front, key) {
            Some(i) => {
                assert forall|j: int| i < j < entries.len() implies (#[trigger] entries[j]).0
                    != key by {
                    if j < front.len() {
                        assert(front[j].0 != key);
                    }
                }
            },
            None => {
                assert forall|j: int| 0 <= j < entries.len() implies (#[trigger] entries[j]).0
                    != key by {
                    if j < front.len() {
                        assert(front[j].0 != key);
                    }
                }
            },
        }
    }
}

/// An entry under the name `key` at index `i`, with none after it, is the one
/// that `position` finds.
pub proof fn lemma_position_is<V>(entries: Seq<(Seq<char>, V)>, key: Seq<char>, i: int)
    requires
        0 <= i < entries.len(),
        entries[i].0 == key,
        forall|j: int| i < j < entries.len() ==> (#[trigger] entries[j]).0 != key,
    ensures
        position(entries, key) == Some(i),
    decreases entries.len(),
{
    if i < entries.len() - 1 {
        let front = entries.drop_last();
        assert(entries.last() == entries[entries.len() - 1]);
        assert(front[i] == entries[i]);
        assert forall|j: int| i < j < front.len() implies (#[trigger] front[j]).0 != key by {
            assert(front[j] == entries[j]);
        }
        lemma_position_is(front, key, i);
    }
}

/// Writing keeps the names distinct, and afterwards the name holds the value
/// written and every other name what it held.
pub proof fn lemma_put<V>(entries: Seq<(Seq<char>, V)>, key: Seq<char>, value: V)
    requires
        distinct_keys(entries),
    ensures
        distinct_keys(put(entries, key, value)),
        lookup(put(entries, key, value), key) == Some(value),
        forall|other: Seq<char>|
            other != key ==> #[trigger] lookup(put(entries, key, value), other) == lookup(
                entries,
                other,
            ),
{
    let after = put(entries, key, value);
    lemma_position(entries, key);
    let at: int = match position(entries, key) {
        Some(i) => i,
        None => entries.len() as int,
    };
    assert(after[at] == (key, value));
    assert forall|j: int| 0 <= j < after.len() && j != at implies after[j] == entries[j] by {}
    assert(distinct_keys(after)) by {
        assert forall|i: int, j: int| 0 <= i < j < after.len() implies (#[trigger] after[i]).0 != (
        #[trigger] after[j]).0 by {
            if i != at && j != at {
                assert(entries[i].0 != entries[j].0);
            } else if position(entries, key) is Some {
                assert(entries[i].0 != entries[j].0);
            } else if i == at {
            } else {
                assert(entries[i].0 != key);
            }
        }
    }
    assert forall|j: int| at < j < after.len() implies (#[trigger] after[j]).0 != key by {
        assert(after[j] == entries[j]);
    }
    lemma_position_is(after, key, at);
    assert forall|other: Seq<char>| other != key implies #[trigger] lookup(after, other) == lookup(
        entries,
        other,
    ) by {
        lemma_position(entries, other);
        match position(entries, other) {
            Some(i) => {
                assert(i != at);
                assert(after[i] == entries[i]);
                assert forall|j: int| i < j < after.len() implies (#[trigger] after[j]).0
                    != other by {
                    if j != at {
                        assert(after[j] == entries[j]);
                    }
                }
                lemma_position_is(after, other, i);
            },
            None => {
                lemma_position(after, other);
                if let Some(i) = position(after, other) {
                    assert(i != at);
                    assert(after[i] == entries[i]);
                    assert(entries[i].0 != other);
                }
            },
        }
    }
}

/// Whether two texts are the same.
pub fn same_text(a: &str, b: &str) -> (same: bool)
    ensures
        same == (a@ == b@),
{
    String::from_str(a) == String::from_str(b)
}

/// A map from names to values. Its entries stand in the order in which their
/// names were first written, and no name occurs twice. Two maps are equal
/// under `==` where they hold the same entries in the same order.
#[derive(Debug, PartialEq)]
pub struct StringMap<V: DeepView> {
    entries: Vec<(String, V)>,
}

impl<V: DeepView> DeepView for StringMap<V> {
    type V = Seq<(Seq<char>, V::V)>;

    closed spec fn deep_view(&self) -> Seq<(Seq<char>, V::V)> {
        self.entries.deep_view()
    }
}

impl<V: DeepView> View for StringMap<V> {
    type V = Seq<(Seq<char>, V::V)>;

    open spec fn view(&self) -> Seq<(Seq<char>, V::V)> {
        self.deep_view()
    }
}

impl<V: DeepView> StringMap<V> {
    #[verifier::type_invariant]
    spec fn well_formed(&self) -> bool {
        distinct_keys(self.entries.deep_view())
    }

    /// The empty map.
    pub fn new() -> (m: StringMap<V>)
        ensures
            m@ == Seq::<(Seq<char>, V::V)>::empty(),
    {
        let entries: Vec<(String, V)> = Vec::new();
        assert(entries.deep_view() =~= Seq::empty());
        StringMap { entries }
    }

    /// The number of entries.
    pub fn len(&self) -> (n: usize)
        ensures
            n == self@.len(),
            distinct_keys(self@),
    {
        proof {
            use_type_invariant(self);
        }
        self.entries.len()
    }

    /// The index of the entry under the name `key`, if there is one.
    fn find(&self, key: &str) -> (r: Option<usize>)
        ensures
            r is Some == position(self@, key@) is Some,
            r matches Some(i) ==> position(self@, key@) == Some(i as int) && i < self.entries.len(),
    {
        let ghost all = self.entries.deep_view();
        let mut i: usize = self.entries.len();
        assert(all.take(i as int) =~= all);
        while i > 0
            invariant
                i <= self.entries.len(),
                all == self.entries.deep_view(),
                position(all, key@) == position(all.take(i as int), key@),
            decreases i,
        {
            i -= 1;
            assert(all.take(i + 1).drop_last() =~= all.take(i as int));
            assert(all.take(i + 1).last() == all[i as int]);
            if same_text(self.entries[i].0.as_str(), key) {
                return Some(i);
            }
        }
        None
    }

    /// The value under the name `key`, if there is one.
    pub fn get(&self, key: &str) -> (r: Option<&V>)
        ensures
            r.deep_view() == lookup(self@, key@),
    {
        match self.find(key) {
            Some(i) => Some(&self.entries[i].1),
            None => None,
        }
    }

    /// The entry at index `i`, in the order in which the names were first written.
    pub fn entry(&self, i: usize) -> (r: (&String, &V))
        requires
            i < self@.len(),
        ensures
            r.0@ == self@[i as int].0,
            r.1.deep_view() == self@[i as int].1,
    {
        (&self.entries[i].0, &self.entries[i].1)
    }

    /// The map with `value` written under the name `key`. A value that was
    /// there is overwritten.
    pub fn insert(self, key: String, value: V) -> (m: StringMap<V>)
        ensures
            m@ == put(self@, key@, value.deep_view()),
    {
        proof {
            use_type_invariant(&self);
            lemma_put(self.entries.deep_view(), key@, value.deep_view());
        }
        let ghost before = self.entries.deep_view();
        let found = self.find(key.as_str());
        let mut entries = self.entries;
        match found {
            Some(i) => {
                entries.set(i, (key, value));
                assert(entries.deep_view() =~= before.update(i as int, (key@, value.deep_view())));
            },
            None => {
                entries.push((key, value));
                assert(entries.deep_view() =~= before.push((key@, value.deep_view())));
            },
        }
        StringMap { entries }
    }
}

/// The map that holds the pairs of `tuples`, written in turn: of two pairs
/// with the same name the later one's value stays.
pub fn tuple_vec_to_map<V: DeepView>(tuples: Vec<(String, V)>) -> (map: StringMap<V>)
    ensures
        map@ == put_all(Seq::empty(), tuples.deep_view()),
{
    let ghost pairs = tuples.deep_view();
    let mut map: StringMap<V> = StringMap::new();
    let mut rest = tuples;
    while rest.len() > 0
        invariant
            put_all(Seq::empty(), pairs) == put_all(map@, rest.deep_view()),
        decreases rest.len(),
    {
        let ghost pending = rest.deep_view();
        let (key, value) = rest.remove(0);
        assert(rest.deep_view() =~= pending.skip(1));
        assert(pending[0] == (key@, value.deep_view()));
        map = map.insert(key, value);
    }
    map
}

} // verus!
