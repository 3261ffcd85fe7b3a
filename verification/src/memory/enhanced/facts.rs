//! Facts: a bounded store of values by key, which forgets the fact that was
//! used least recently.
//!
//! The facts stand in order of their last use, the one used least recently
//! first. Writing or reading a fact moves it to the end.

use vstd::prelude::*;
use crate::pairs::{has_key, key_index, lemma_key_index, unique_keys, value_of, Pairs};

verus! {

/// Facts as they are stored: pairs of key and value.
pub type Facts = Pairs;

/// The facts without the one stored under `key`.
pub open spec fn without_key(facts: Facts, key: Seq<char>) -> Facts {
    if has_key(facts, key) {
        facts.remove(key_index(facts, key))
    } else {
        facts
    }
}

/// The facts after `key` was used: its fact stands last.
pub open spec fn used(facts: Facts, key: Seq<char>) -> Facts {
    if has_key(facts, key) {
        facts.remove(key_index(facts, key)).push((key, value_of(facts, key)))
    } else {
        facts
    }
}

/// The facts after `value` was stored under `key`, with room for `cap`
/// facts: the new fact stands last, and where that makes one fact too many,
/// the first leaves.
pub open spec fn with_fact(facts: Facts, key: Seq<char>, value: Seq<char>, cap: nat) -> Facts {
    let longer = without_key(facts, key).push((key, value));
    if longer.len() > cap {
        longer.drop_first()
    } else {
        longer
    }
}

/// The facts after the pairs `pairs` were stored one after the other.
pub open spec fn with_facts(facts: Facts, pairs: Facts, cap: nat) -> Facts
    decreases pairs.len(),
{
    if pairs.len() == 0 {
        facts
    } else {
        with_fact(with_facts(facts, pairs.drop_last(), cap), pairs.last().0, pairs.last().1, cap)
    }
}

/// Taking a key out keeps the keys unique, and the key is gone.
pub proof fn lemma_without_key(facts: Facts, key: Seq<char>)
    requires
        unique_keys(facts),
    ensures
        unique_keys(without_key(facts, key)),
        !has_key(without_key(facts, key), key),
        without_key(facts, key).len() <= facts.len(),
        forall|k: int|
            0 <= k < without_key(facts, key).len() ==> facts.contains(
                #[trigger] without_key(facts, key)[k],
            ),
{
    let rest = without_key(facts, key);
    if has_key(facts, key) {
        let i = key_index(facts, key);
        assert forall|k: int| 0 <= k < rest.len() implies facts.contains(#[trigger] rest[k])
            && rest[k].0 != key by {
            let k0 = if k < i { k } else { k + 1 };
            assert(rest[k] == facts[k0]);
            if k0 < i {
                assert(facts[k0].0 != facts[i].0);
            } else {
                assert(facts[i].0 != facts[k0].0);
            }
        }
        assert forall|a: int, b: int| 0 <= a < b < rest.len() implies rest[a].0 != rest[b].0 by {
            let a0 = if a < i { a } else { a + 1 };
            let b0 = if b < i { b } else { b + 1 };
            assert(rest[a] == facts[a0] && rest[b] == facts[b0]);
        }
        if has_key(rest, key) {
            let k = key_index(rest, key);
            assert(rest[k].0 != key);
        }
    } else {
        assert forall|k: int| 0 <= k < rest.len() implies facts.contains(#[trigger] rest[k]) by {
            assert(facts[k] == rest[k]);
        }
    }
}

/// Storing a fact keeps the keys unique and the store within its bound.
pub proof fn lemma_with_fact_wf(facts: Facts, key: Seq<char>, value: Seq<char>, cap: nat)
    requires
        unique_keys(facts),
        facts.len() <= cap,
    ensures
        unique_keys(with_fact(facts, key, value, cap)),
        with_fact(facts, key, value, cap).len() <= cap,
{
    lemma_without_key(facts, key);
    let rest = without_key(facts, key);
    let longer = rest.push((key, value));
    assert(unique_keys(longer)) by {
        assert forall|a: int, b: int| 0 <= a < b < longer.len() implies longer[a].0
            != longer[b].0 by {
            if b < rest.len() {
                assert(longer[a] == rest[a] && longer[b] == rest[b]);
            } else {
                assert(longer[a] == rest[a]);
                if rest[a].0 == key {
                    assert(has_key(rest, key));
                }
            }
        }
    }
    if longer.len() > cap {
        let cut = longer.drop_first();
        assert forall|a: int, b: int| 0 <= a < b < cut.len() implies cut[a].0 != cut[b].0 by {
            assert(cut[a] == longer[a + 1] && cut[b] == longer[b + 1]);
        }
    }
}

/// Using a key keeps the keys unique and the number of facts.
pub proof fn lemma_used_wf(facts: Facts, key: Seq<char>)
    requires
        unique_keys(facts),
    ensures
        unique_keys(used(facts, key)),
        used(facts, key).len() == facts.len(),
{
    if has_key(facts, key) {
        lemma_without_key(facts, key);
        let rest = without_key(facts, key);
        let longer = rest.push((key, value_of(facts, key)));
        assert forall|a: int, b: int| 0 <= a < b < longer.len() implies longer[a].0
            != longer[b].0 by {
            if b < rest.len() {
                assert(longer[a] == rest[a] && longer[b] == rest[b]);
            } else {
                assert(longer[a] == rest[a]);
                if rest[a].0 == key {
                    assert(has_key(rest, key));
                }
            }
        }
    }
}

/// A fact that was stored is there to be read, with the value that was
/// stored, as long as the store has room for one fact at least.
pub proof fn lemma_set_then_get(facts: Facts, key: Seq<char>, value: Seq<char>, cap: nat)
    requires
        unique_keys(facts),
        facts.len() <= cap,
        cap > 0,
    ensures
        has_key(with_fact(facts, key, value, cap), key),
        value_of(with_fact(facts, key, value, cap), key) == value,
{
    lemma_with_fact_wf(facts, key, value, cap);
    lemma_without_key(facts, key);
    let next = with_fact(facts, key, value, cap);
    let last = next.len() - 1;
    assert(next[last] == (key, value));
    lemma_key_index(next, key, last);
}

/// A fact that was deleted is not there to be read.
pub proof fn lemma_delete_then_get(facts: Facts, key: Seq<char>)
    requires
        unique_keys(facts),
    ensures
        !has_key(without_key(facts, key), key),
{
    lemma_without_key(facts, key);
}

} // verus!
