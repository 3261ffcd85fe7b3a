//! Pairs of texts, a key and a value each, where a key stands at most once:
//! what a map from text to text is when its order matters or has to be
//! walked.

use vstd::prelude::*;
use crate::text::str_eq;

verus! {

/// Pairs of key and value.
pub type Pairs = Seq<(Seq<char>, Seq<char>)>;

/// No two pairs share a key.
pub open spec fn unique_keys(pairs: Pairs) -> bool {
    forall|i: int, j: int| 0 <= i < j < pairs.len() ==> pairs[i].0 != pairs[j].0
}

/// A pair stands under `key`.
pub open spec fn has_key(pairs: Pairs, key: Seq<char>) -> bool {
    exists|i: int| 0 <= i < pairs.len() && pairs[i].0 == key
}

/// The position of the pair under `key`.
pub open spec fn key_index(pairs: Pairs, key: Seq<char>) -> int {
    choose|i: int| 0 <= i < pairs.len() && pairs[i].0 == key
}

/// The value under `key`.
pub open spec fn value_of(pairs: Pairs, key: Seq<char>) -> Seq<char> {
    pairs[key_index(pairs, key)].1
}

/// Among pairs of unique keys, the pair of a key stands where `key_index`
/// says.
pub proof fn lemma_key_index(pairs: Pairs, key: Seq<char>, i: int)
    requires
        unique_keys(pairs),
        0 <= i < pairs.len(),
        pairs[i].0 == key,
    ensures
        has_key(pairs, key),
        key_index(pairs, key) == i,
{
    let c = key_index(pairs, key);
    assert(0 <= c < pairs.len() && pairs[c].0 == key);
    if c < i {
        assert(pairs[c].0 != pairs[i].0);
    } else if i < c {
        assert(pairs[i].0 != pairs[c].0);
    }
}

/// The position of the pair under `key`.
pub fn find_key(pairs: &Vec<(String, String)>, key: &str) -> (r: Option<usize>)
    requires
        unique_keys(pairs.deep_view()),
    ensures
        r is Some == has_key(pairs.deep_view(), key@),
        r matches Some(i) ==> i < pairs.len() && i == key_index(pairs.deep_view(), key@)
            && pairs[i as int].0@ == key@,
{
    let mut i: usize = 0;
    while i < pairs.len()
        invariant
            i <= pairs.len(),
            unique_keys(pairs.deep_view()),
            forall|j: int| 0 <= j < i ==> pairs.deep_view()[j].0 != key@,
        decreases pairs.len() - i,
    {
        assert(pairs.deep_view()[i as int].0 == pairs[i as int].0@);
        if str_eq(pairs[i].0.as_str(), key) {
            proof {
                lemma_key_index(pairs.deep_view(), key@, i as int);
            }
            return Some(i);
        }
        i += 1;
    }
    None
}

/// The pairs after `value` was put under `key`: in place of the value that
/// stood under the key, or behind all others.
pub open spec fn put(pairs: Pairs, key: Seq<char>, value: Seq<char>) -> Pairs {
    if has_key(pairs, key) {
        pairs.update(key_index(pairs, key), (key, value))
    } else {
        pairs.push((key, value))
    }
}

/// The map that pairs stand for; of two pairs under one key the later
/// counts.
pub open spec fn as_map(pairs: Pairs) -> Map<Seq<char>, Seq<char>>
    decreases pairs.len(),
{
    if pairs.len() == 0 {
        Map::empty()
    } else {
        as_map(pairs.drop_last()).insert(pairs.last().0, pairs.last().1)
    }
}

/// Putting a value under a key keeps the keys unique, and the value is then
/// the one under the key.
pub proof fn lemma_put(pairs: Pairs, key: Seq<char>, value: Seq<char>)
    requires
        unique_keys(pairs),
    ensures
        unique_keys(put(pairs, key, value)),
        has_key(put(pairs, key, value), key),
        value_of(put(pairs, key, value), key) == value,
{
    let next = put(pairs, key, value);
    if has_key(pairs, key) {
        let i = key_index(pairs, key);
        assert forall|a: int, b: int| 0 <= a < b < next.len() implies next[a].0 != next[b].0 by {
            assert(next[a].0 == pairs[a].0 && next[b].0 == pairs[b].0);
        }
        assert(next[i] == (key, value));
        lemma_key_index(next, key, i);
    } else {
        assert forall|a: int, b: int| 0 <= a < b < next.len() implies next[a].0 != next[b].0 by {
            if b < pairs.len() {
            } else {
                assert(next[a] == pairs[a]);
            }
        }
        assert(next[next.len() - 1] == (key, value));
        lemma_key_index(next, key, next.len() - 1);
    }
}

/// Puts `value` under `key`.
pub fn put_pair(pairs: &mut Vec<(String, String)>, key: String, value: String)
    requires
        unique_keys(old(pairs).deep_view()),
    ensures
        unique_keys(final(pairs).deep_view()),
        final(pairs).deep_view() == put(old(pairs).deep_view(), key@, value@),
{
    let ghost before = pairs.deep_view();
    let ghost k = key@;
    let ghost v = value@;
    proof {
        lemma_put(before, k, v);
    }
    match find_key(pairs, key.as_str()) {
        Some(i) => {
            pairs.set(i, (key, value));
            assert(pairs.deep_view() =~= before.update(i as int, (k, v)));
        },
        None => {
            pairs.push((key, value));
            assert(pairs.deep_view() =~= before.push((k, v)));
        },
    }
}

} // verus!
