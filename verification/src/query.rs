//! Query strings and query conditions: `key=value` pairs joined by `&`.

use crate::string_map::{
    distinct_keys, find_key, lemma_position, lemma_position_is, lemma_put_new, lookup, position,
    put_new, Pair, StringMap,
};
use crate::text::{chars_of, find_char, lemma_find_char_is, same_text, split, split_text};
use vstd::prelude::*;
use vstd::string::*;

verus! {

/// A key with the value written behind `=`, or `None` where no `=` follows.
pub type Entry = (Seq<char>, Option<Seq<char>>);

/// One piece of a query string read as a key and an optional value: the key
/// is what stands before the first `=`.
pub open spec fn entry_of(piece: Seq<char>) -> Entry {
    let i = find_char(piece, '=');
    if 0 <= i < piece.len() {
        (piece.take(i), Some(piece.skip(i + 1)))
    } else {
        (piece, None)
    }
}

/// The entries of the pieces that are not empty, in order.
pub open spec fn entries_of(pieces: Seq<Seq<char>>) -> Seq<Entry>
    decreases pieces.len(),
{
    if pieces.len() == 0 {
        Seq::empty()
    } else if pieces.last().len() == 0 {
        entries_of(pieces.drop_last())
    } else {
        entries_of(pieces.drop_last()).push(entry_of(pieces.last()))
    }
}

/// Every entry of a query string, duplicates included. An absent query
/// string has none.
pub open spec fn query_entries(query: Option<Seq<char>>) -> Seq<Entry> {
    match query {
        Some(text) => entries_of(split(text, '&')),
        None => Seq::empty(),
    }
}

/// The first entry of each key, in order of first occurrence.
pub open spec fn first_of_each(entries: Seq<Entry>) -> Seq<Entry>
    decreases entries.len(),
{
    if entries.len() == 0 {
        Seq::empty()
    } else {
        put_new(first_of_each(entries.drop_last()), entries.last().0, entries.last().1)
    }
}

/// The query parameters of a request: of the entries that have a value, the
/// first of each key.
pub open spec fn valued(entries: Seq<Entry>) -> Seq<Pair>
    decreases entries.len(),
{
    if entries.len() == 0 {
        Seq::empty()
    } else {
        match entries.last().1 {
            Some(value) => put_new(valued(entries.drop_last()), entries.last().0, value),
            None => valued(entries.drop_last()),
        }
    }
}

/// The value that a query gives to `key`: that of the first entry with this
/// key, empty where that entry has no `=`; `None` where no entry has the key.
pub open spec fn query_value(entries: Seq<Entry>, key: Seq<char>) -> Option<Seq<char>> {
    match lookup(entries, key) {
        Some(Some(value)) => Some(value),
        Some(None) => Some(Seq::empty()),
        None => None,
    }
}

/// Whether a query meets one condition: the key is present and, where the
/// condition names a value, the query's value is that value.
pub open spec fn condition_holds(entries: Seq<Entry>, condition: Entry) -> bool {
    match query_value(entries, condition.0) {
        Some(found) => match condition.1 {
            Some(expected) => found == expected,
            None => true,
        },
        None => false,
    }
}

/// Whether a query meets every condition.
pub open spec fn conditions_hold(entries: Seq<Entry>, conditions: Seq<Entry>) -> bool {
    forall|i: int| 0 <= i < conditions.len() ==> condition_holds(entries, #[trigger] conditions[i])
}

/// Whether every entry of `a` is found in `b` with the same value.
pub open spec fn included(a: Seq<Entry>, b: Seq<Entry>) -> bool {
    forall|i: int| 0 <= i < a.len() ==> lookup(b, (#[trigger] a[i]).0) == Some(a[i].1)
}

/// Whether two lists of conditions ask the same: each holds what the other
/// holds, whatever the order.
pub open spec fn same_conditions(a: Seq<Entry>, b: Seq<Entry>) -> bool {
    included(a, b) && included(b, a)
}

/// `first_of_each` keeps one entry for each key, and the lookup of every key.
pub proof fn lemma_first_of_each(entries: Seq<Entry>)
    ensures
        distinct_keys(first_of_each(entries)),
        forall|key: Seq<char>| lookup(first_of_each(entries), key) == lookup(entries, key),
    decreases entries.len(),
{
    if entries.len() > 0 {
        let front = entries.drop_last();
        let last = entries.last();
        lemma_first_of_each(front);
        lemma_put_new(first_of_each(front), last.0, last.1);
        assert forall|key: Seq<char>| lookup(first_of_each(entries), key) == lookup(
            entries,
            key,
        ) by {
            lemma_lookup_push(front, last, key);
            assert(front.push(last) =~= entries);
        }
    }
}

/// Looking a key up after one more pair was appended.
pub proof fn lemma_lookup_push<V>(pairs: Seq<(Seq<char>, V)>, last: (Seq<char>, V), key: Seq<char>)
    ensures
        lookup(pairs.push(last), key) == if lookup(pairs, key) is Some {
            lookup(pairs, key)
        } else if last.0 == key {
            Some(last.1)
        } else {
            None
        },
{
    lemma_position(pairs, key);
    let i = position(pairs, key);
    let after = pairs.push(last);
    if i < pairs.len() {
        lemma_position_is(after, key, i);
    } else if last.0 == key {
        lemma_position_is(after, key, pairs.len() as int);
    } else {
        lemma_position_is(after, key, after.len() as int);
    }
}

/// The value of the first entry that has the key `key` and a value.
pub open spec fn first_value(entries: Seq<Entry>, key: Seq<char>) -> Option<Seq<char>>
    decreases entries.len(),
{
    if entries.len() == 0 {
        None
    } else if entries[0].0 == key && entries[0].1 is Some {
        entries[0].1
    } else {
        first_value(entries.drop_first(), key)
    }
}

/// The first value of a key after one more entry was appended.
pub proof fn lemma_first_value_push(entries: Seq<Entry>, last: Entry, key: Seq<char>)
    ensures
        first_value(entries.push(last), key) == if first_value(entries, key) is Some {
            first_value(entries, key)
        } else if last.0 == key {
            last.1
        } else {
            None
        },
    decreases entries.len(),
{
    let after = entries.push(last);
    if entries.len() == 0 {
        assert(after.drop_first() =~= Seq::<Entry>::empty());
    } else {
        assert(after[0] == entries[0]);
        assert(after.drop_first() =~= entries.drop_first().push(last));
        lemma_first_value_push(entries.drop_first(), last, key);
    }
}

/// The query parameters hold no key twice, and under each key the first
/// value that the query string gives to it.
pub proof fn lemma_first_value_wins(entries: Seq<Entry>, key: Seq<char>)
    ensures
        distinct_keys(valued(entries)),
        lookup(valued(entries), key) == first_value(entries, key),
    decreases entries.len(),
{
    if entries.len() > 0 {
        let front = entries.drop_last();
        let last = entries.last();
        lemma_first_value_wins(front, key);
        lemma_first_value_push(front, last, key);
        assert(front.push(last) =~= entries);
        match last.1 {
            Some(value) => {
                lemma_put_new(valued(front), last.0, value);
            },
            None => {},
        }
    }
}

/// Conditions that ask the same are met by the same queries.
pub proof fn lemma_same_conditions_hold(entries: Seq<Entry>, a: Seq<Entry>, b: Seq<Entry>)
    requires
        same_conditions(a, b),
    ensures
        conditions_hold(entries, a) == conditions_hold(entries, b),
{
    lemma_included_hold(entries, a, b);
    lemma_included_hold(entries, b, a);
}

/// Where every condition of `a` stands in `b`, a query that meets `b` meets
/// `a`.
pub proof fn lemma_included_hold(entries: Seq<Entry>, a: Seq<Entry>, b: Seq<Entry>)
    requires
        included(a, b),
    ensures
        conditions_hold(entries, b) ==> conditions_hold(entries, a),
{
    if conditions_hold(entries, b) {
        assert forall|i: int| 0 <= i < a.len() implies condition_holds(
            entries,
            #[trigger] a[i],
        ) by {
            lemma_position(b, a[i].0);
        }
    }
}

/// Splits one piece at its first `=`.
pub fn parse_entry(piece: &str) -> (entry: (String, Option<String>))
    ensures
        entry.deep_view() == entry_of(piece@),
{
    let chars = chars_of(piece);
    let n = chars.len();
    let mut i: usize = 0;
    while i < n
        invariant
            chars@ == piece@,
            n == chars.len(),
            0 <= i <= n,
            forall|k: int| 0 <= k < i ==> chars@[k] != '=',
        decreases n - i,
    {
        if chars[i] == '=' {
            proof {
                lemma_find_char_is(piece@, '=', i as int);
            }
            let key = String::from_str(piece.substring_char(0, i));
            let value = String::from_str(piece.substring_char(i + 1, n));
            return (key, Some(value));
        }
        i += 1;
    }
    proof {
        lemma_find_char_is(piece@, '=', n as int);
    }
    (String::from_str(piece), None)
}

/// Reads a query string into its entries, in order, duplicates included.
pub fn parse_entries(text: &str) -> (entries: Vec<(String, Option<String>)>)
    ensures
        entries.deep_view() == query_entries(Some(text@)),
{
    let pieces = split_text(text, '&');
    let n = pieces.len();
    let mut entries: Vec<(String, Option<String>)> = Vec::new();
    let mut i: usize = 0;
    while i < n
        invariant
            n == pieces.len(),
            0 <= i <= n,
            pieces.deep_view() == split(text@, '&'),
            entries.deep_view() == entries_of(pieces.deep_view().take(i as int)),
        decreases n - i,
    {
        proof {
            let next = pieces.deep_view().take(i + 1);
            assert(next.drop_last() =~= pieces.deep_view().take(i as int));
        }
        if pieces[i].as_str().unicode_len() > 0 {
            let entry = parse_entry(pieces[i].as_str());
            entries.push(entry);
        }
        i += 1;
    }
    assert(pieces.deep_view().take(n as int) =~= pieces.deep_view());
    entries
}

/// A copy of an optional text.
fn copy_value(value: &Option<String>) -> (out: Option<String>)
    ensures
        out.deep_view() == value.deep_view(),
{
    match value {
        Some(text) => Some(text.clone()),
        None => None,
    }
}

/// Keeps the first entry of each key.
pub fn unique_entries(entries: &Vec<(String, Option<String>)>) -> (out: Vec<
    (String, Option<String>),
>)
    ensures
        out.deep_view() == first_of_each(entries.deep_view()),
        distinct_keys(out.deep_view()),
{
    let n = entries.len();
    let mut out: Vec<(String, Option<String>)> = Vec::new();
    let mut i: usize = 0;
    while i < n
        invariant
            n == entries.len(),
            0 <= i <= n,
            out.deep_view() == first_of_each(entries.deep_view().take(i as int)),
        decreases n - i,
    {
        proof {
            let next = entries.deep_view().take(i + 1);
            assert(next.drop_last() =~= entries.deep_view().take(i as int));
        }
        let at = find_key(&out, entries[i].0.as_str());
        if at >= out.len() {
            let key = entries[i].0.clone();
            let value = copy_value(&entries[i].1);
            out.push((key, value));
        }
        i += 1;
    }
    proof {
        assert(entries.deep_view().take(n as int) =~= entries.deep_view());
        lemma_first_of_each(entries.deep_view());
    }
    out
}

/// The query parameters that the entries give: the first value of each key
/// that has one.
pub fn valued_entries(entries: &Vec<(String, Option<String>)>) -> (out: StringMap)
    ensures
        out.pairs() == valued(entries.deep_view()),
{
    let n = entries.len();
    let mut out = StringMap::new();
    let mut i: usize = 0;
    while i < n
        invariant
            n == entries.len(),
            0 <= i <= n,
            out.pairs() == valued(entries.deep_view().take(i as int)),
        decreases n - i,
    {
        proof {
            let next = entries.deep_view().take(i + 1);
            assert(next.drop_last() =~= entries.deep_view().take(i as int));
        }
        match &entries[i].1 {
            Some(value) => {
                out.insert_new(entries[i].0.clone(), value.clone());
            },
            None => {},
        }
        i += 1;
    }
    assert(entries.deep_view().take(n as int) =~= entries.deep_view());
    out
}

/// Whether the query entries meet one condition.
pub fn meets(entries: &Vec<(String, Option<String>)>, condition: &(String, Option<String>)) -> (ok:
    bool)
    ensures
        ok == condition_holds(entries.deep_view(), condition.deep_view()),
{
    let at = find_key(entries, condition.0.as_str());
    if at >= entries.len() {
        return false;
    }
    match &condition.1 {
        None => true,
        Some(expected) => match &entries[at].1 {
            Some(found) => same_text(found.as_str(), expected.as_str()),
            None => {
                assert(expected@.len() == 0 <==> expected@ =~= Seq::<char>::empty());
                expected.as_str().unicode_len() == 0
            },
        },
    }
}

/// Whether the query entries meet every condition.
pub fn meets_all(
    entries: &Vec<(String, Option<String>)>,
    conditions: &Vec<(String, Option<String>)>,
) -> (ok: bool)
    ensures
        ok == conditions_hold(entries.deep_view(), conditions.deep_view()),
{
    let n = conditions.len();
    let mut i: usize = 0;
    while i < n
        invariant
            n == conditions.len(),
            0 <= i <= n,
            forall|k: int|
                0 <= k < i ==> condition_holds(
                    entries.deep_view(),
                    #[trigger] conditions.deep_view()[k],
                ),
        decreases n - i,
    {
        if !meets(entries, &conditions[i]) {
            assert(!condition_holds(entries.deep_view(), conditions.deep_view()[i as int]));
            return false;
        }
        i += 1;
    }
    true
}

/// Whether every entry of `a` stands in `b` with the same value.
fn all_found(a: &Vec<(String, Option<String>)>, b: &Vec<(String, Option<String>)>) -> (ok: bool)
    ensures
        ok == included(a.deep_view(), b.deep_view()),
{
    let n = a.len();
    let mut i: usize = 0;
    while i < n
        invariant
            n == a.len(),
            0 <= i <= n,
            forall|k: int|
                0 <= k < i ==> lookup(b.deep_view(), (#[trigger] a.deep_view()[k]).0) == Some(
                    a.deep_view()[k].1,
                ),
        decreases n - i,
    {
        let at = find_key(b, a[i].0.as_str());
        if at >= b.len() {
            assert(lookup(b.deep_view(), a.deep_view()[i as int].0) is None);
            return false;
        }
        let same = match (&a[i].1, &b[at].1) {
            (Some(x), Some(y)) => same_text(x.as_str(), y.as_str()),
            (None, None) => true,
            _ => false,
        };
        if !same {
            return false;
        }
        i += 1;
    }
    true
}

/// Whether two lists of conditions ask the same.
pub fn conditions_equal(
    a: &Vec<(String, Option<String>)>,
    b: &Vec<(String, Option<String>)>,
) -> (same: bool)
    ensures
        same == same_conditions(a.deep_view(), b.deep_view()),
{
    all_found(a, b) && all_found(b, a)
}

} // verus!
