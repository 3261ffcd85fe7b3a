//! The vector index: embeddings with their text and metadata, bounded in
//! number, ranked by similarity to a query or by how often a text occurs in
//! them.
//!
//! The index never interprets an embedding. Its components are kept as the
//! bit patterns of single-precision numbers; how similar an entry is to a
//! query is decided outside and handed in as one integer score per entry,
//! where a greater score means more similar.

use vstd::prelude::*;
use crate::pairs::as_map;
use crate::ranking::{key_at, rank, rank_top, ranking};
use crate::text::{
    chars_of,
    clone_pairs,
    count_chars,
    count_occurrences,
    lowercase,
    str_eq,
    to_lowercase,
};

verus! {

/// An entry of the index.
#[derive(Debug)]
pub struct MemoryVector {
    /// Identifier of the entry.
    pub id: String,
    /// The embedding, each component as the bit pattern of a
    /// single-precision number.
    pub vector: Vec<u32>,
    /// The text that the embedding stands for.
    pub content: String,
    /// Named notes on the entry, a name and a note each. They stand for a
    /// map: of two notes under one name the later counts.
    pub metadata: Vec<(String, String)>,
    /// When the entry was made, in seconds.
    pub timestamp: u64,
}

/// What a [`MemoryVector`] holds.
pub struct MemoryVectorView {
    pub id: Seq<char>,
    pub vector: Seq<u32>,
    pub content: Seq<char>,
    pub metadata: Map<Seq<char>, Seq<char>>,
    pub timestamp: u64,
}

impl View for MemoryVector {
    type V = MemoryVectorView;

    open spec fn view(&self) -> MemoryVectorView {
        MemoryVectorView {
            id: self.id@,
            vector: self.vector@,
            content: self.content@,
            metadata: as_map(self.metadata.deep_view()),
            timestamp: self.timestamp,
        }
    }
}

impl DeepView for MemoryVector {
    type V = MemoryVectorView;

    open spec fn deep_view(&self) -> MemoryVectorView {
        self@
    }
}

impl Clone for MemoryVector {
    fn clone(&self) -> (r: Self)
        ensures
            r@ == self@,
    {
        let mut vector: Vec<u32> = Vec::new();
        let mut i: usize = 0;
        while i < self.vector.len()
            invariant
                i <= self.vector.len(),
                vector@ == self.vector@.take(i as int),
            decreases self.vector.len() - i,
        {
            vector.push(self.vector[i]);
            i += 1;
        }
        assert(self.vector@.take(self.vector.len() as int) =~= self.vector@);
        MemoryVector {
            id: self.id.clone(),
            vector,
            content: self.content.clone(),
            metadata: clone_pairs(&self.metadata),
            timestamp: self.timestamp,
        }
    }
}

/// No two entries share an identifier.
pub open spec fn unique_ids(s: Seq<MemoryVectorView>) -> bool {
    forall|i: int, j: int| 0 <= i < j < s.len() ==> s[i].id != s[j].id
}

/// An entry with the identifier `id` is among `s`.
pub open spec fn holds(s: Seq<MemoryVectorView>, id: Seq<char>) -> bool {
    exists|i: int| 0 <= i < s.len() && s[i].id == id
}

/// The position of the entry with the identifier `id`.
pub open spec fn index_of(s: Seq<MemoryVectorView>, id: Seq<char>) -> int {
    choose|i: int| 0 <= i < s.len() && s[i].id == id
}

/// Position `i` holds the oldest entry: none is older, and none before it is
/// as old.
pub open spec fn is_oldest(s: Seq<MemoryVectorView>, i: int) -> bool {
    &&& 0 <= i < s.len()
    &&& forall|j: int| 0 <= j < s.len() ==> s[i].timestamp <= s[j].timestamp
    &&& forall|j: int| 0 <= j < i ==> s[j].timestamp > s[i].timestamp
}

/// The position of the oldest entry.
pub open spec fn oldest(s: Seq<MemoryVectorView>) -> int {
    choose|i: int| is_oldest(s, i)
}

/// The index after `v` was added under a capacity of `cap` entries. An entry
/// with the same identifier is replaced in place. Otherwise, where the index
/// is full, the oldest entry leaves before `v` is appended; an index without
/// capacity stays empty.
pub open spec fn added(s: Seq<MemoryVectorView>, v: MemoryVectorView, cap: nat) -> Seq<
    MemoryVectorView,
> {
    if holds(s, v.id) {
        s.update(index_of(s, v.id), v)
    } else if cap == 0 {
        s
    } else if s.len() >= cap {
        s.remove(oldest(s)).push(v)
    } else {
        s.push(v)
    }
}

/// The index after the entries `vs` were added one after the other.
pub open spec fn added_all(s: Seq<MemoryVectorView>, vs: Seq<MemoryVectorView>, cap: nat) -> Seq<
    MemoryVectorView,
>
    decreases vs.len(),
{
    if vs.len() == 0 {
        s
    } else {
        added(added_all(s, vs.drop_last(), cap), vs.last(), cap)
    }
}

/// The index without the entry of the identifier `id`.
pub open spec fn removed(s: Seq<MemoryVectorView>, id: Seq<char>) -> Seq<MemoryVectorView> {
    if holds(s, id) {
        s.remove(index_of(s, id))
    } else {
        s
    }
}

/// The entries at the positions `order`, in that order.
pub open spec fn picked(s: Seq<MemoryVectorView>, order: Seq<usize>) -> Seq<MemoryVectorView> {
    Seq::new(order.len(), |k: int| s[order[k] as int])
}

/// The first `limit` positions of the ranking of `n` entries by `scores`.
pub open spec fn top_ranked(scores: Seq<i64>, n: nat, limit: nat) -> Seq<usize> {
    ranking(scores, n).take(
        if limit < n {
            limit as int
        } else {
            n as int
        },
    )
}

/// A count as a ranking key, capped where the machine's integers end.
pub open spec fn count_key(count: nat) -> i64 {
    if count > usize::MAX || count > i64::MAX {
        if usize::MAX < i64::MAX {
            usize::MAX as i64
        } else {
            i64::MAX
        }
    } else {
        count as i64
    }
}

/// For each entry, how often the query occurs in its text, both lowercased.
pub open spec fn content_keys(s: Seq<MemoryVectorView>, query: Seq<char>) -> Seq<i64> {
    Seq::new(
        s.len(),
        |i: int| count_key(count_occurrences(lowercase(s[i].content), lowercase(query))),
    )
}

/// How many entries at the front of `order` have a positive key.
pub open spec fn leading_hits(order: Seq<usize>, keys: Seq<i64>) -> nat
    decreases order.len(),
{
    if order.len() > 0 && key_at(keys, order[0]) > 0 {
        1 + leading_hits(order.drop_first(), keys)
    } else {
        0
    }
}

/// The positions of the entries whose text holds the query, most occurrences
/// first, at most `limit` of them.
pub open spec fn top_by_content(s: Seq<MemoryVectorView>, query: Seq<char>, limit: nat) -> Seq<
    usize,
> {
    let keys = content_keys(s, query);
    let order = ranking(keys, s.len());
    let hits = leading_hits(order, keys);
    order.take(
        if limit < hits {
            limit as int
        } else {
            hits as int
        },
    )
}

/// In an index of unique identifiers, the entry of an identifier stands where
/// `index_of` says.
pub proof fn lemma_index_of(s: Seq<MemoryVectorView>, id: Seq<char>, i: int)
    requires
        unique_ids(s),
        0 <= i < s.len(),
        s[i].id == id,
    ensures
        holds(s, id),
        index_of(s, id) == i,
{
    let c = index_of(s, id);
    assert(0 <= c < s.len() && s[c].id == id);
    if c < i {
        assert(s[c].id != s[i].id);
    } else if i < c {
        assert(s[i].id != s[c].id);
    }
}

/// The oldest entry stands where `oldest` says.
pub proof fn lemma_oldest(s: Seq<MemoryVectorView>, i: int)
    requires
        is_oldest(s, i),
    ensures
        oldest(s) == i,
{
    let c = oldest(s);
    assert(is_oldest(s, c));
    if c < i {
        assert(s[c].timestamp > s[i].timestamp);
        assert(s[c].timestamp <= s[i].timestamp);
    } else if i < c {
        assert(s[i].timestamp > s[c].timestamp);
        assert(s[i].timestamp <= s[c].timestamp);
    }
}

/// Adding an entry keeps identifiers unique and the index within its
/// capacity.
pub proof fn lemma_added_wf(s: Seq<MemoryVectorView>, v: MemoryVectorView, cap: nat)
    requires
        unique_ids(s),
        s.len() <= cap,
    ensures
        unique_ids(added(s, v, cap)),
        added(s, v, cap).len() <= cap,
{
    let next = added(s, v, cap);
    if holds(s, v.id) {
        let i = index_of(s, v.id);
        assert forall|a: int, b: int| 0 <= a < b < next.len() implies next[a].id != next[b].id by {
            assert(next[a].id == s[a].id && next[b].id == s[b].id);
        }
    } else if cap == 0 {
    } else if s.len() >= cap {
        assert(s.len() > 0);
        lemma_oldest_exists(s);
        let o = oldest(s);
        let rest = s.remove(o);
        assert forall|a: int, b: int| 0 <= a < b < next.len() implies next[a].id != next[b].id by {
            let a0 = if a < o { a } else { a + 1 };
            if b < rest.len() {
                let b0 = if b < o { b } else { b + 1 };
                assert(next[a] == s[a0] && next[b] == s[b0]);
            } else {
                assert(next[a] == s[a0]);
                assert(next[b] == v);
            }
        }
    } else {
        assert forall|a: int, b: int| 0 <= a < b < next.len() implies next[a].id != next[b].id by {
            if b < s.len() {
            } else {
                assert(next[a] == s[a]);
            }
        }
    }
}

/// An index that is not empty has an oldest entry.
pub proof fn lemma_oldest_exists(s: Seq<MemoryVectorView>)
    requires
        s.len() > 0,
    ensures
        is_oldest(s, oldest(s)),
    decreases s.len(),
{
    if s.len() == 1 {
        assert(is_oldest(s, 0));
    } else {
        let front = s.drop_last();
        lemma_oldest_exists(front);
        let f = oldest(front);
        if s.last().timestamp < front[f].timestamp {
            assert(is_oldest(s, s.len() - 1)) by {
                assert forall|j: int| 0 <= j < s.len() - 1 implies s[j].timestamp
                    > s.last().timestamp by {
                    assert(front[j] == s[j]);
                }
            }
        } else {
            assert(is_oldest(s, f)) by {
                assert forall|j: int| 0 <= j < s.len() implies s[f].timestamp
                    <= s[j].timestamp by {
                    if j < front.len() {
                        assert(front[j] == s[j]);
                    }
                }
                assert forall|j: int| 0 <= j < f implies s[j].timestamp > s[f].timestamp by {
                    assert(front[j] == s[j]);
                }
            }
        }
    }
}

/// Adding the same entry a second time changes nothing.
pub proof fn lemma_added_idempotent(s: Seq<MemoryVectorView>, v: MemoryVectorView, cap: nat)
    requires
        unique_ids(s),
        s.len() <= cap,
    ensures
        added(added(s, v, cap), v, cap) == added(s, v, cap),
{
    let once = added(s, v, cap);
    lemma_added_wf(s, v, cap);
    if holds(s, v.id) {
        let i = index_of(s, v.id);
        assert(once[i].id == v.id);
        lemma_index_of(once, v.id, i);
        assert(once.update(i, v) =~= once);
    } else if cap == 0 {
    } else {
        let last = once.len() - 1;
        assert(once[last] == v);
        lemma_index_of(once, v.id, last);
        assert(once.update(last, v) =~= once);
    }
}

/// Entries with distinct identifiers that come in order of their time leave
/// an empty index holding the newest of them, as many as fit.
pub proof fn lemma_added_all_keeps_newest(vs: Seq<MemoryVectorView>, cap: nat)
    requires
        unique_ids(vs),
        forall|i: int, j: int| 0 <= i < j < vs.len() ==> vs[i].timestamp <= vs[j].timestamp,
    ensures
        added_all(Seq::empty(), vs, cap) == vs.skip(
            if vs.len() > cap {
                vs.len() - cap
            } else {
                0
            },
        ),
    decreases vs.len(),
{
    let start: int = if vs.len() > cap {
        vs.len() - cap
    } else {
        0
    };
    if vs.len() == 0 {
        assert(vs.skip(0) =~= Seq::<MemoryVectorView>::empty());
    } else {
        let front = vs.drop_last();
        let v = vs.last();
        lemma_added_all_keeps_newest(front, cap);
        let front_start: int = if front.len() > cap {
            front.len() - cap
        } else {
            0
        };
        let s = added_all(Seq::empty(), front, cap);
        assert(s == front.skip(front_start));
        assert(!holds(s, v.id)) by {
            if holds(s, v.id) {
                let i = index_of(s, v.id);
                assert(s[i] == vs[front_start + i]);
                assert(vs[front_start + i].id != vs[vs.len() - 1].id);
            }
        }
        if cap == 0 {
            assert(vs.skip(start) =~= s);
        } else if s.len() >= cap {
            assert(is_oldest(s, 0)) by {
                assert forall|j: int| 0 <= j < s.len() implies s[0].timestamp <= (
                #[trigger] s[j]).timestamp by {
                    assert(s[0] == vs[front_start] && s[j] == vs[front_start + j]);
                }
            }
            lemma_oldest(s, 0);
            assert(s.remove(0).push(v) =~= vs.skip(start));
        } else {
            assert(s.push(v) =~= vs.skip(start));
        }
    }
}

/// A ranking by score is cut at `limit`, names only entries of the index, and
/// never rises in score; over an empty index it is empty.
pub proof fn lemma_top_ranked(scores: Seq<i64>, n: nat, limit: nat)
    requires
        n <= usize::MAX,
    ensures
        top_ranked(scores, n, limit).len() <= limit,
        top_ranked(scores, n, limit).len() == if limit < n {
            limit
        } else {
            n
        },
        forall|k: int|
            0 <= k < top_ranked(scores, n, limit).len() ==> #[trigger] top_ranked(
                scores,
                n,
                limit,
            )[k] < n,
        forall|a: int, b: int|
            0 <= a <= b < top_ranked(scores, n, limit).len() ==> key_at(
                scores,
                top_ranked(scores, n, limit)[a],
            ) >= key_at(scores, top_ranked(scores, n, limit)[b]),
{
    crate::ranking::lemma_ranking(scores, n);
    let full = ranking(scores, n);
    let top = top_ranked(scores, n, limit);
    assert forall|a: int, b: int| 0 <= a <= b < top.len() implies key_at(scores, top[a]) >= key_at(
        scores,
        top[b],
    ) by {
        crate::ranking::lemma_ranking_descends(scores, n, a, b);
    }
}

/// The first `hits` entries of a ranking all have a positive key, where
/// `hits` is at most the number that `leading_hits` counts.
pub proof fn lemma_leading_hits(order: Seq<usize>, keys: Seq<i64>, k: int)
    requires
        0 <= k < leading_hits(order, keys),
    ensures
        k < order.len(),
        key_at(keys, order[k]) > 0,
    decreases order.len(),
{
    if k > 0 {
        lemma_leading_hits(order.drop_first(), keys, k - 1);
    }
}

/// No more entries lead with a positive key than there are entries.
pub proof fn lemma_leading_hits_bound(order: Seq<usize>, keys: Seq<i64>)
    ensures
        leading_hits(order, keys) <= order.len(),
    decreases order.len(),
{
    if order.len() > 0 {
        lemma_leading_hits_bound(order.drop_first(), keys);
    }
}

/// A search by content is cut at `limit`, names only entries of the index
/// whose text, lowercased, holds the lowercased query, and never rises in the
/// number of occurrences.
pub proof fn lemma_top_by_content(s: Seq<MemoryVectorView>, query: Seq<char>, limit: nat)
    requires
        s.len() <= usize::MAX,
    ensures
        top_by_content(s, query, limit).len() <= limit,
        forall|k: int|
            0 <= k < top_by_content(s, query, limit).len() ==> {
                let at = #[trigger] top_by_content(s, query, limit)[k];
                at < s.len() && crate::text::contains_seq(
                    lowercase(s[at as int].content),
                    lowercase(query),
                )
            },
        forall|a: int, b: int|
            0 <= a <= b < top_by_content(s, query, limit).len() ==> key_at(
                content_keys(s, query),
                top_by_content(s, query, limit)[a],
            ) >= key_at(content_keys(s, query), top_by_content(s, query, limit)[b]),
{
    let keys = content_keys(s, query);
    let order = ranking(keys, s.len());
    let top = top_by_content(s, query, limit);
    crate::ranking::lemma_ranking(keys, s.len());
    lemma_leading_hits_bound(order, keys);
    assert forall|k: int| 0 <= k < top.len() implies {
        let at = #[trigger] top[k];
        at < s.len() && crate::text::contains_seq(lowercase(s[at as int].content), lowercase(query))
    } by {
        lemma_leading_hits(order, keys, k);
        let at = top[k];
        assert(at == order[k]);
        assert(at < s.len());
        assert(keys[at as int] > 0);
        crate::text::lemma_count_positive(lowercase(s[at as int].content), lowercase(query));
    }
    assert forall|a: int, b: int| 0 <= a <= b < top.len() implies key_at(keys, top[a]) >= key_at(
        keys,
        top[b],
    ) by {
        lemma_leading_hits(order, keys, b);
        crate::ranking::lemma_ranking_descends(keys, s.len(), a, b);
    }
}

/// The bounded index of memory vectors.
pub struct VectorStore {
    vectors: Vec<MemoryVector>,
    max_vectors: usize,
}

impl View for VectorStore {
    type V = Seq<MemoryVectorView>;

    /// The entries of the index, in the order in which they are stored.
    closed spec fn view(&self) -> Seq<MemoryVectorView> {
        self.vectors.deep_view()
    }
}

fn key_of_count(count: usize) -> (k: i64)
    ensures
        k == if count > i64::MAX {
            i64::MAX
        } else {
            count as i64
        },
{
    if (count as u128) > 0x7fff_ffff_ffff_ffff_u128 {
        0x7fff_ffff_ffff_ffff
    } else {
        count as i64
    }
}

impl VectorStore {
    /// The greatest number of entries that the index keeps.
    pub closed spec fn capacity(&self) -> nat {
        self.max_vectors as nat
    }

    /// Identifiers are unique and the index is within its capacity.
    pub open spec fn wf(&self) -> bool {
        unique_ids(self@) && self@.len() <= self.capacity()
    }

    /// An empty index that keeps at most `max_vectors` entries.
    pub fn new(max_vectors: usize) -> (r: Self)
        ensures
            r.wf(),
            r@ == Seq::<MemoryVectorView>::empty(),
            r.capacity() == max_vectors,
    {
        let r = VectorStore { vectors: Vec::new(), max_vectors };
        assert(r@ =~= Seq::<MemoryVectorView>::empty());
        r
    }

    /// An index that keeps at most `max_vectors` entries, filled with
    /// `vectors` one after the other.
    pub fn with_vectors(vectors: Vec<MemoryVector>, max_vectors: usize) -> (r: Self)
        ensures
            r.wf(),
            r@ == added_all(Seq::empty(), vectors.deep_view(), max_vectors as nat),
            r.capacity() == max_vectors,
    {
        let mut store = VectorStore::new(max_vectors);
        let mut i: usize = 0;
        assert(vectors.deep_view().take(0) =~= Seq::<MemoryVectorView>::empty());
        while i < vectors.len()
            invariant
                i <= vectors.len(),
                store.wf(),
                store.capacity() == max_vectors,
                store@ == added_all(
                    Seq::empty(),
                    vectors.deep_view().take(i as int),
                    max_vectors as nat,
                ),
            decreases vectors.len() - i,
        {
            proof {
                let next = vectors.deep_view().take(i + 1);
                assert(next.drop_last() =~= vectors.deep_view().take(i as int));
                assert(next.last() == vectors[i as int]@);
            }
            store.add_vector(vectors[i].clone());
            i += 1;
        }
        assert(vectors.deep_view().take(vectors.len() as int) =~= vectors.deep_view());
        store
    }

    /// The number of entries.
    pub fn len(&self) -> (n: usize)
        ensures
            n == self@.len(),
    {
        self.vectors.len()
    }

    fn find_index(&self, id: &str) -> (r: Option<usize>)
        requires
            unique_ids(self@),
        ensures
            r is Some == holds(self@, id@),
            r matches Some(i) ==> i < self@.len() && i == index_of(self@, id@) && self@[i as int].id
                == id@,
    {
        let mut i: usize = 0;
        while i < self.vectors.len()
            invariant
                i <= self.vectors.len(),
                unique_ids(self@),
                forall|j: int| 0 <= j < i ==> self@[j].id != id@,
            decreases self.vectors.len() - i,
        {
            if str_eq(self.vectors[i].id.as_str(), id) {
                proof {
                    lemma_index_of(self@, id@, i as int);
                }
                return Some(i);
            }
            i += 1;
        }
        None
    }

    fn find_oldest(&self) -> (o: usize)
        requires
            self@.len() > 0,
        ensures
            o == oldest(self@),
            o < self@.len(),
    {
        let mut best: usize = 0;
        let mut i: usize = 1;
        while i < self.vectors.len()
            invariant
                1 <= i <= self.vectors.len(),
                best < i,
                is_oldest(self@.take(i as int), best as int),
            decreases self.vectors.len() - i,
        {
            proof {
                let now = self@.take(i as int);
                let next = self@.take(i + 1);
                assert forall|j: int| 0 <= j < i implies next[j] == now[j] by {}
                if self@[i as int].timestamp < self@[best as int].timestamp {
                    assert(is_oldest(next, i as int)) by {
                        assert forall|j: int| 0 <= j < i implies next[j].timestamp
                            > next[i as int].timestamp by {
                            assert(now[best as int].timestamp <= now[j].timestamp);
                        }
                    }
                } else {
                    assert(is_oldest(next, best as int)) by {
                        assert forall|j: int| 0 <= j < next.len() implies next[best as int].timestamp
                            <= next[j].timestamp by {
                            if j < i {
                                assert(now[best as int].timestamp <= now[j].timestamp);
                            }
                        }
                        assert forall|j: int| 0 <= j < best implies next[j].timestamp
                            > next[best as int].timestamp by {
                            assert(now[j].timestamp > now[best as int].timestamp);
                        }
                    }
                }
            }
            if self.vectors[i].timestamp < self.vectors[best].timestamp {
                best = i;
            }
            i += 1;
        }
        proof {
            assert(self@.take(self.vectors.len() as int) =~= self@);
            lemma_oldest(self@, best as int);
        }
        best
    }

    /// Adds an entry, or replaces the entry of the same identifier in place.
    /// Where the entry is new and the index is full, the oldest entry leaves
    /// first.
    pub fn add_vector(&mut self, vector: MemoryVector)
        requires
            old(self).wf(),
        ensures
            final(self).wf(),
            final(self)@ == added(old(self)@, vector@, old(self).capacity()),
            final(self).capacity() == old(self).capacity(),
    {
        let ghost before = self@;
        let ghost v = vector@;
        proof {
            lemma_added_wf(before, v, self.capacity());
        }
        match self.find_index(vector.id.as_str()) {
            Some(i) => {
                self.vectors.set(i, vector);
                assert(self@ =~= before.update(i as int, v));
            },
            None => {
                if self.max_vectors == 0 {
                    return ;
                }
                if self.vectors.len() >= self.max_vectors {
                    let o = self.find_oldest();
                    self.vectors.remove(o);
                    assert(self@ =~= before.remove(o as int));
                }
                let ghost rest = self@;
                self.vectors.push(vector);
                assert(self@ =~= rest.push(v));
            },
        }
    }

    /// The entry of the identifier `id`, if there is one.
    pub fn get_vector(&self, id: &str) -> (r: Option<&MemoryVector>)
        requires
            self.wf(),
        ensures
            r is Some == holds(self@, id@),
            r matches Some(v) ==> v@ == self@[index_of(self@, id@)],
    {
        match self.find_index(id) {
            Some(i) => Some(&self.vectors[i]),
            None => None,
        }
    }

    /// Removes the entry of the identifier `id`. Says whether there was one.
    pub fn remove_vector(&mut self, id: &str) -> (was_there: bool)
        requires
            old(self).wf(),
        ensures
            final(self).wf(),
            was_there == holds(old(self)@, id@),
            final(self)@ == removed(old(self)@, id@),
            final(self).capacity() == old(self).capacity(),
    {
        let ghost before = self@;
        match self.find_index(id) {
            Some(i) => {
                self.vectors.remove(i);
                proof {
                    assert(self@ =~= before.remove(i as int));
                    assert forall|a: int, b: int| 0 <= a < b < self@.len() implies self@[a].id
                        != self@[b].id by {
                        let a0 = if a < i { a } else { a + 1 };
                        let b0 = if b < i { b } else { b + 1 };
                        assert(self@[a] == before[a0] && self@[b] == before[b0]);
                    }
                }
                true
            },
            None => false,
        }
    }

    fn pick(&self, order: &Vec<usize>) -> (r: Vec<&MemoryVector>)
        requires
            forall|k: int| 0 <= k < order.len() ==> order[k] < self@.len(),
        ensures
            r.deep_view() == picked(self@, order@),
    {
        let mut out: Vec<&MemoryVector> = Vec::new();
        let mut k: usize = 0;
        while k < order.len()
            invariant
                k <= order.len(),
                out.len() == k,
                forall|j: int| 0 <= j < order.len() ==> order[j] < self@.len(),
                forall|j: int| 0 <= j < k ==> out[j]@ == self@[order[j] as int],
            decreases order.len() - k,
        {
            out.push(&self.vectors[order[k]]);
            k += 1;
        }
        assert(out.deep_view() =~= picked(self@, order@));
        out
    }

    /// The entries most similar to a query, most similar first, at most
    /// `limit` of them. `scores` holds one score per entry, in the order of
    /// the index; an entry without a score counts as zero. Entries of equal
    /// score come in the order of the index.
    pub fn find_similar(&self, scores: &Vec<i64>, limit: usize) -> (r: Vec<&MemoryVector>)
        ensures
            r.deep_view() == picked(self@, top_ranked(scores@, self@.len(), limit as nat)),
    {
        let order = rank_top(scores, self.vectors.len(), limit);
        proof {
            crate::ranking::lemma_ranking(scores@, self@.len());
        }
        self.pick(&order)
    }

    /// The entries whose text holds `query`, letter case aside, those with
    /// the most occurrences first, at most `limit` of them. Entries with the
    /// same number of occurrences come in the order of the index.
    pub fn search_by_content(&self, query: &str, limit: usize) -> (r: Vec<&MemoryVector>)
        ensures
            r.deep_view() == picked(self@, top_by_content(self@, query@, limit as nat)),
    {
        let query_lower = to_lowercase(query);
        let needle = chars_of(query_lower.as_str());
        let n = self.vectors.len();
        let mut keys: Vec<i64> = Vec::new();
        let mut i: usize = 0;
        while i < n
            invariant
                i <= n,
                n == self.vectors.len(),
                needle@ == lowercase(query@),
                keys@ == content_keys(self@, query@).take(i as int),
            decreases n - i,
        {
            let content_lower = to_lowercase(self.vectors[i].content.as_str());
            let hay = chars_of(content_lower.as_str());
            let count = count_chars(&hay, &needle);
            keys.push(key_of_count(count));
            assert(keys@ =~= content_keys(self@, query@).take(i + 1));
            i += 1;
        }
        assert(content_keys(self@, query@).take(n as int) =~= content_keys(self@, query@));
        let mut order = rank(&keys, n);
        proof {
            crate::ranking::lemma_ranking(keys@, n as nat);
        }
        let ghost full = order@;
        let mut hits: usize = 0;
        assert(full.skip(0) =~= full);
        while hits < order.len() && hits < limit && keys[order[hits]] > 0
            invariant
                hits <= order.len(),
                order@ == full,
                full.len() == n,
                keys.len() == n,
                forall|k: int| 0 <= k < n ==> #[trigger] full[k] < n,
                hits <= limit,
                leading_hits(full, keys@) == hits + leading_hits(full.skip(hits as int), keys@),
            decreases order.len() - hits,
        {
            assert(full.skip(hits as int).drop_first() =~= full.skip(hits + 1));
            assert(full.skip(hits as int)[0] == full[hits as int]);
            hits += 1;
        }
        proof {
            let total = leading_hits(full, keys@);
            if hits < order.len() && hits < limit {
                assert(full.skip(hits as int)[0] == full[hits as int]);
                assert(total == hits);
            } else if hits == order.len() {
                assert(full.skip(hits as int).len() == 0);
                assert(total == hits);
            } else {
                assert(hits == limit);
                assert(total >= limit);
            }
        }
        order.truncate(hits);
        self.pick(&order)
    }

    /// All entries, in the order in which they are stored.
    pub fn get_all_vectors(&self) -> (r: &Vec<MemoryVector>)
        ensures
            r.deep_view() == self@,
    {
        &self.vectors
    }

    /// Removes every entry.
    pub fn clear(&mut self)
        ensures
            final(self).wf(),
            final(self)@ == Seq::<MemoryVectorView>::empty(),
            final(self).capacity() == old(self).capacity(),
    {
        self.vectors.clear();
        assert(self@ =~= Seq::<MemoryVectorView>::empty());
    }
}

} // verus!
