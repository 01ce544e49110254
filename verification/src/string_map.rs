//! An insertion-ordered mapping from text to text, used for headers, path
//! parameters and query parameters.

use crate::text::same_text;
use vstd::prelude::*;
use vstd::string::*;

verus! {

/// One key with its value, as plain sequences of characters.
pub type Pair = (Seq<char>, Seq<char>);

/// Position of the first pair whose key is `key`, or `pairs.len()`.
pub open spec fn position<V>(pairs: Seq<(Seq<char>, V)>, key: Seq<char>) -> int
    decreases pairs.len(),
{
    if pairs.len() == 0 {
        0
    } else if pairs[0].0 == key {
        0
    } else {
        1 + position(pairs.drop_first(), key)
    }
}

/// No key occurs twice.
pub open spec fn distinct_keys<V>(pairs: Seq<(Seq<char>, V)>) -> bool {
    forall|i: int, j: int| 0 <= i < j < pairs.len() ==> pairs[i].0 != pairs[j].0
}

/// The value of the first pair whose key is `key`, if there is one.
pub open spec fn lookup<V>(pairs: Seq<(Seq<char>, V)>, key: Seq<char>) -> Option<V> {
    let i = position(pairs, key);
    if 0 <= i < pairs.len() {
        Some(pairs[i].1)
    } else {
        None
    }
}

/// The pairs after `key` is set to `value`: a present key keeps its place and
/// takes the new value, an absent key goes to the end.
pub open spec fn put<V>(pairs: Seq<(Seq<char>, V)>, key: Seq<char>, value: V) -> Seq<
    (Seq<char>, V),
> {
    let i = position(pairs, key);
    if 0 <= i < pairs.len() {
        pairs.update(i, (key, value))
    } else {
        pairs.push((key, value))
    }
}

/// The pairs after `key` is set to `value` unless it is already present.
pub open spec fn put_new<V>(pairs: Seq<(Seq<char>, V)>, key: Seq<char>, value: V) -> Seq<
    (Seq<char>, V),
> {
    if lookup(pairs, key) is Some {
        pairs
    } else {
        pairs.push((key, value))
    }
}

/// What a list of pairs gives when they are inserted in order, a later value
/// replacing an earlier one of the same key.
pub open spec fn collected(pairs: Seq<Pair>) -> Seq<Pair>
    decreases pairs.len(),
{
    if pairs.len() == 0 {
        Seq::empty()
    } else {
        put(collected(pairs.drop_last()), pairs.last().0, pairs.last().1)
    }
}

/// The mapping that a list of pairs stands for. Where a key occurs more than
/// once, the first occurrence counts.
pub open spec fn as_map<V>(pairs: Seq<(Seq<char>, V)>) -> Map<Seq<char>, V> {
    Map::new(|k: Seq<char>| lookup(pairs, k) is Some, |k: Seq<char>| lookup(pairs, k)->0)
}

/// `position` returns the first place where `key` stands.
pub proof fn lemma_position<V>(pairs: Seq<(Seq<char>, V)>, key: Seq<char>)
    ensures
        0 <= position(pairs, key) <= pairs.len(),
        forall|k: int| 0 <= k < position(pairs, key) ==> pairs[k].0 != key,
        position(pairs, key) < pairs.len() ==> pairs[position(pairs, key)].0 == key,
    decreases pairs.len(),
{
    if pairs.len() > 0 && pairs[0].0 != key {
        let rest = pairs.drop_first();
        lemma_position(rest, key);
        assert forall|k: int| 0 <= k < position(pairs, key) implies pairs[k].0 != key by {
            if k > 0 {
                assert(rest[k - 1] == pairs[k]);
            }
        }
    }
}

/// A place that holds `key` with none before it is what `position` finds.
pub proof fn lemma_position_is<V>(pairs: Seq<(Seq<char>, V)>, key: Seq<char>, i: int)
    requires
        0 <= i <= pairs.len(),
        forall|k: int| 0 <= k < i ==> pairs[k].0 != key,
        i < pairs.len() ==> pairs[i].0 == key,
    ensures
        position(pairs, key) == i,
{
    lemma_position(pairs, key);
}

/// Setting a key changes the lookup of that key and of no other, and keeps
/// the keys distinct.
pub proof fn lemma_put<V>(pairs: Seq<(Seq<char>, V)>, key: Seq<char>, value: V)
    requires
        distinct_keys(pairs),
    ensures
        distinct_keys(put(pairs, key, value)),
        lookup(put(pairs, key, value), key) == Some(value),
        forall|other: Seq<char>|
            other != key ==> lookup(put(pairs, key, value), other) == lookup(pairs, other),
        as_map(put(pairs, key, value)) == as_map(pairs).insert(key, value),
{
    let after = put(pairs, key, value);
    lemma_position(pairs, key);
    let i = position(pairs, key);
    lemma_position_is(after, key, i);
    assert forall|other: Seq<char>| other != key implies lookup(after, other) == lookup(
        pairs,
        other,
    ) by {
        lemma_position(pairs, other);
        let j = position(pairs, other);
        if j < pairs.len() {
            lemma_position_is(after, other, j);
        } else {
            lemma_position_is(after, other, after.len() as int);
        }
    }
}

/// Adding an absent key changes the lookup of that key and of no other;
/// adding a present key changes nothing. Either way the first value stays.
pub proof fn lemma_put_new<V>(pairs: Seq<(Seq<char>, V)>, key: Seq<char>, value: V)
    requires
        distinct_keys(pairs),
    ensures
        distinct_keys(put_new(pairs, key, value)),
        lookup(pairs, key) is Some ==> put_new(pairs, key, value) == pairs,
        lookup(pairs, key) is None ==> put_new(pairs, key, value) == put(pairs, key, value),
        lookup(put_new(pairs, key, value), key) == if lookup(pairs, key) is Some {
            lookup(pairs, key)
        } else {
            Some(value)
        },
        forall|other: Seq<char>|
            other != key ==> lookup(put_new(pairs, key, value), other) == lookup(pairs, other),
{
    lemma_position(pairs, key);
    lemma_put(pairs, key, value);
}

/// The value of the last pair whose key is `key`, if there is one.
pub open spec fn last_value(pairs: Seq<Pair>, key: Seq<char>) -> Option<Seq<char>>
    decreases pairs.len(),
{
    if pairs.len() == 0 {
        None
    } else if pairs.last().0 == key {
        Some(pairs.last().1)
    } else {
        last_value(pairs.drop_last(), key)
    }
}

/// Pairs inserted in order give a mapping without a key twice, in which each
/// key has the value that was inserted last.
pub proof fn lemma_last_value_wins(pairs: Seq<Pair>, key: Seq<char>)
    ensures
        distinct_keys(collected(pairs)),
        lookup(collected(pairs), key) == last_value(pairs, key),
    decreases pairs.len(),
{
    if pairs.len() > 0 {
        lemma_last_value_wins(pairs.drop_last(), key);
        lemma_put(collected(pairs.drop_last()), pairs.last().0, pairs.last().1);
    }
}

/// An insertion-ordered mapping from text keys to text values in which every
/// key occurs once.
pub struct StringMap {
    entries: Vec<(String, String)>,
}

impl View for StringMap {
    type V = Map<Seq<char>, Seq<char>>;

    /// The mapping, without the order.
    open spec fn view(&self) -> Map<Seq<char>, Seq<char>> {
        as_map(self.pairs())
    }
}

impl StringMap {
    /// The pairs in the order in which their keys were first inserted.
    pub closed spec fn pairs(&self) -> Seq<Pair> {
        self.entries.deep_view()
    }

    /// No key occurs twice.
    #[verifier::type_invariant]
    spec fn well_formed(&self) -> bool {
        distinct_keys(self.entries.deep_view())
    }

    /// The empty mapping.
    pub fn new() -> (out: Self)
        ensures
            out.pairs() == Seq::<Pair>::empty(),
            out@ == Map::<Seq<char>, Seq<char>>::empty(),
    {
        StringMap { entries: Vec::new() }
    }

    /// Number of keys.
    pub fn len(&self) -> (n: usize)
        ensures
            n == self.pairs().len(),
    {
        self.entries.len()
    }

    /// Whether there is no key at all.
    pub fn is_empty(&self) -> (empty: bool)
        ensures
            empty == (self.pairs().len() == 0),
    {
        self.entries.len() == 0
    }

    /// Place of `key` among the entries, or the number of entries.
    fn find(&self, key: &str) -> (i: usize)
        ensures
            i == position(self.pairs(), key@),
            i <= self.pairs().len(),
    {
        find_key(&self.entries, key)
    }

    /// The value stored under `key`.
    pub fn get(&self, key: &str) -> (found: Option<&String>)
        ensures
            found.deep_view() == lookup(self.pairs(), key@),
            found is Some <==> self@.contains_key(key@),
            found matches Some(v) ==> v@ == self@[key@],
    {
        let i = self.find(key);
        if i < self.entries.len() {
            Some(&self.entries[i].1)
        } else {
            None
        }
    }

    /// Whether `key` is present.
    pub fn contains_key(&self, key: &str) -> (present: bool)
        ensures
            present == self@.contains_key(key@),
            present == (lookup(self.pairs(), key@) is Some),
    {
        let i = self.find(key);
        i < self.entries.len()
    }

    /// Sets `key` to `value`; a later value replaces an earlier one.
    pub fn insert(&mut self, key: String, value: String)
        ensures
            final(self).pairs() == put(old(self).pairs(), key@, value@),
            final(self)@ == old(self)@.insert(key@, value@),
    {
        proof {
            use_type_invariant(&*self);
            lemma_put(self.pairs(), key@, value@);
        }
        let i = self.find(key.as_str());
        let ghost before = self.entries.deep_view();
        let mut entries: Vec<(String, String)> = Vec::new();
        core::mem::swap(&mut self.entries, &mut entries);
        if i < entries.len() {
            entries.set(i, (key, value));
            assert(entries.deep_view() =~= before.update(i as int, (key@, value@)));
        } else {
            entries.push((key, value));
            assert(entries.deep_view() =~= before.push((key@, value@)));
        }
        core::mem::swap(&mut self.entries, &mut entries);
    }

    /// Sets `key` to `value` unless `key` is present; the first value stays.
    pub fn insert_new(&mut self, key: String, value: String)
        ensures
            final(self).pairs() == put_new(old(self).pairs(), key@, value@),
    {
        proof {
            use_type_invariant(&*self);
            lemma_put_new(self.pairs(), key@, value@);
        }
        let i = self.find(key.as_str());
        let ghost before = self.entries.deep_view();
        if i >= self.entries.len() {
            let mut entries: Vec<(String, String)> = Vec::new();
            core::mem::swap(&mut self.entries, &mut entries);
            entries.push((key, value));
            assert(entries.deep_view() =~= before.push((key@, value@)));
            core::mem::swap(&mut self.entries, &mut entries);
        }
    }

    /// The mapping that a list of pairs gives when they are inserted in
    /// order: of several values of one key the last stays, at the place of
    /// the first.
    pub fn from_pairs(pairs: Vec<(String, String)>) -> (out: Self)
        ensures
            out.pairs() == collected(pairs.deep_view()),
    {
        let n = pairs.len();
        let mut out = StringMap::new();
        let mut i: usize = 0;
        while i < n
            invariant
                n == pairs.len(),
                0 <= i <= n,
                out.pairs() == collected(pairs.deep_view().take(i as int)),
            decreases n - i,
        {
            proof {
                let next = pairs.deep_view().take(i + 1);
                assert(next.drop_last() =~= pairs.deep_view().take(i as int));
            }
            out.insert(pairs[i].0.clone(), pairs[i].1.clone());
            i += 1;
        }
        assert(pairs.deep_view().take(n as int) =~= pairs.deep_view());
        out
    }

    /// The entries in insertion order.
    pub fn entries(&self) -> (out: &Vec<(String, String)>)
        ensures
            out.deep_view() == self.pairs(),
            distinct_keys(out.deep_view()),
    {
        proof {
            use_type_invariant(self);
        }
        &self.entries
    }
}

impl Clone for StringMap {
    /// A copy with the same pairs in the same order.
    fn clone(&self) -> (out: Self)
        ensures
            out.pairs() == self.pairs(),
    {
        proof {
            use_type_invariant(self);
        }
        let n = self.entries.len();
        let mut entries: Vec<(String, String)> = Vec::new();
        let mut i: usize = 0;
        while i < n
            invariant
                n == self.entries.len(),
                0 <= i <= n,
                entries.deep_view() =~= self.entries.deep_view().take(i as int),
            decreases n - i,
        {
            let ghost before = entries.deep_view();
            let key = self.entries[i].0.clone();
            let value = self.entries[i].1.clone();
            entries.push((key, value));
            assert(entries.deep_view() =~= before.push((key@, value@)));
            i += 1;
        }
        StringMap { entries }
    }
}

/// Place of the first entry whose key is `key`, or the number of entries.
pub fn find_key<V: DeepView>(entries: &Vec<(String, V)>, key: &str) -> (i: usize)
    ensures
        i == position(entries.deep_view(), key@),
        i <= entries.len(),
{
    let n = entries.len();
    let mut i: usize = 0;
    while i < n
        invariant
            n == entries.len(),
            0 <= i <= n,
            forall|k: int| 0 <= k < i ==> entries.deep_view()[k].0 != key@,
        decreases n - i,
    {
        if same_text(entries[i].0.as_str(), key) {
            proof {
                lemma_position_is(entries.deep_view(), key@, i as int);
            }
            return i;
        }
        i += 1;
    }
    proof {
        lemma_position_is(entries.deep_view(), key@, n as int);
    }
    n
}

} // verus!
