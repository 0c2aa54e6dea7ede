//! The cluster cache: for every segment and cluster, the documents of the
//! segment whose vectors belong to the cluster.

use vstd::prelude::*;
use crate::vector::{ClusterId, DocId, SegmentOrdinal};

verus! {

/// The documents of one cluster within one segment.
#[derive(Debug)]
pub struct CacheEntry {
    segment: SegmentOrdinal,
    cluster: ClusterId,
    docs: Vec<DocId>,
}

/// Cluster assignments per segment, built for one generation of the reader.
#[derive(Debug)]
pub struct ClusterCache {
    generation: u64,
    entries: Vec<CacheEntry>,
}

/// The mathematical content of a [`ClusterCache`]: its generation and, in
/// the order in which they were first seen, the segment, the cluster and the
/// documents of each entry.
pub struct ClusterCacheView {
    pub generation: u64,
    pub entries: Seq<(u32, u32, Seq<DocId>)>,
}

/// The position of the first entry for the segment and cluster, from
/// position `from` on.
pub open spec fn entry_from(e: Seq<(u32, u32, Seq<DocId>)>, segment: u32, cluster: u32, from: int)
    -> Option<int>
    decreases e.len() - from,
{
    if from < 0 || from >= e.len() {
        None
    } else if e[from].0 == segment && e[from].1 == cluster {
        Some(from)
    } else {
        entry_from(e, segment, cluster, from + 1)
    }
}

/// The documents cached for a cluster of a segment, where there are any.
pub open spec fn docs_of(c: ClusterCacheView, segment: u32, cluster: u32) -> Option<Seq<DocId>> {
    match entry_from(c.entries, segment, cluster, 0) {
        Some(i) => Some(c.entries[i].2),
        None => None,
    }
}

/// Some entry of the cache is for the cluster.
pub open spec fn has_cluster(c: ClusterCacheView, cluster: u32) -> bool {
    exists|i: int| 0 <= i < c.entries.len() && (#[trigger] c.entries[i]).1 == cluster
}

/// The number of documents in all entries together.
pub open spec fn total_docs(e: Seq<(u32, u32, Seq<DocId>)>) -> nat
    decreases e.len(),
{
    if e.len() == 0 {
        0
    } else {
        total_docs(e.drop_last()) + e.last().2.len()
    }
}

/// The list is in ascending order.
pub open spec fn ascending(s: Seq<DocId>) -> bool {
    forall|i: int, j: int| 0 <= i <= j < s.len() ==> s[i] <= s[j]
}

/// The cluster numbers are in strictly ascending order.
pub open spec fn strictly_ascending(s: Seq<ClusterId>) -> bool {
    forall|i: int, j: int| 0 <= i < j < s.len() ==> s[i].spec_get() < s[j].spec_get()
}

/// The list holds the cluster with the given number.
pub open spec fn lists_cluster(s: Seq<ClusterId>, cluster: u32) -> bool {
    exists|i: int| 0 <= i < s.len() && (#[trigger] s[i]).spec_get() == cluster
}

proof fn lemma_entry_bounds(e: Seq<(u32, u32, Seq<DocId>)>, segment: u32, cluster: u32, from: int)
    requires
        0 <= from,
    ensures
        entry_from(e, segment, cluster, from) matches Some(i) ==> from <= i < e.len() && e[i].0
            == segment && e[i].1 == cluster,
        entry_from(e, segment, cluster, from) is None ==> forall|j: int|
            from <= j < e.len() ==> !(e[j].0 == segment && e[j].1 == cluster),
    decreases e.len() - from,
{
    if from < e.len() {
        lemma_entry_bounds(e, segment, cluster, from + 1);
    }
}

/// Entries with the same keys at the same positions are found at the same
/// positions.
proof fn lemma_same_keys(
    a: Seq<(u32, u32, Seq<DocId>)>,
    b: Seq<(u32, u32, Seq<DocId>)>,
    segment: u32,
    cluster: u32,
    from: int,
)
    requires
        a.len() == b.len(),
        0 <= from,
        forall|j: int| 0 <= j < a.len() ==> a[j].0 == b[j].0 && a[j].1 == b[j].1,
    ensures
        entry_from(a, segment, cluster, from) == entry_from(b, segment, cluster, from),
    decreases a.len() - from,
{
    if from < a.len() {
        lemma_same_keys(a, b, segment, cluster, from + 1);
    }
}

proof fn lemma_entry_push(
    a: Seq<(u32, u32, Seq<DocId>)>,
    x: (u32, u32, Seq<DocId>),
    segment: u32,
    cluster: u32,
    from: int,
)
    requires
        0 <= from <= a.len(),
    ensures
        entry_from(a.push(x), segment, cluster, from) == (if entry_from(a, segment, cluster, from)
            is Some {
            entry_from(a, segment, cluster, from)
        } else if x.0 == segment && x.1 == cluster {
            Some(a.len() as int)
        } else {
            None
        }),
    decreases a.len() - from,
{
    let b = a.push(x);
    if from == a.len() {
        assert(b[from] == x);
        assert(entry_from(b, segment, cluster, from + 1) is None);
    } else {
        assert(b[from] == a[from]);
        lemma_entry_push(a, x, segment, cluster, from + 1);
    }
}

proof fn lemma_total_push(a: Seq<(u32, u32, Seq<DocId>)>, x: (u32, u32, Seq<DocId>))
    ensures
        total_docs(a.push(x)) == total_docs(a) + x.2.len(),
{
    assert(a.push(x).drop_last() =~= a);
}

/// Sorts a list of document numbers in place with `sort_unstable` of std,
/// which leaves the same numbers in ascending order.
#[verifier::external_body]
fn sort_doc_ids(v: &mut Vec<DocId>)
    ensures
        ascending(final(v)@),
        final(v)@.to_multiset() == old(v)@.to_multiset(),
{
    v.sort_unstable()
}

impl View for CacheEntry {
    type V = (u32, u32, Seq<DocId>);

    closed spec fn view(&self) -> (u32, u32, Seq<DocId>) {
        (self.segment.spec_get(), self.cluster.spec_get(), self.docs@)
    }
}

impl View for ClusterCache {
    type V = ClusterCacheView;

    closed spec fn view(&self) -> ClusterCacheView {
        ClusterCacheView {
            generation: self.generation,
            entries: Seq::new(self.entries@.len(), |i: int| self.entries@[i]@),
        }
    }
}

impl ClusterCache {
    /// An empty cache for the given generation.
    pub fn new(generation: u64) -> (r: Self)
        ensures
            r@.generation == generation,
            r@.entries == Seq::<(u32, u32, Seq<DocId>)>::empty(),
    {
        let r = ClusterCache { generation, entries: Vec::new() };
        proof {
            assert(r@.entries =~= Seq::<(u32, u32, Seq<DocId>)>::empty());
        }
        r
    }

    /// The generation that the cache was built for.
    pub fn generation(&self) -> (r: u64)
        ensures
            r == self@.generation,
    {
        self.generation
    }

    /// Whether the cache was built for the given generation.
    pub fn is_valid_for_generation(&self, generation: u64) -> (r: bool)
        ensures
            r == (self@.generation == generation),
    {
        self.generation == generation
    }

    fn find(&self, segment: u32, cluster: u32) -> (r: Option<usize>)
        ensures
            r is Some == entry_from(self@.entries, segment, cluster, 0) is Some,
            r is Some ==> r->0 as int == entry_from(self@.entries, segment, cluster, 0)->0 && r->0
                < self.entries@.len(),
    {
        let mut i: usize = 0;
        while i < self.entries.len()
            invariant
                i <= self.entries.len(),
                entry_from(self@.entries, segment, cluster, 0) == entry_from(
                    self@.entries,
                    segment,
                    cluster,
                    i as int,
                ),
            decreases self.entries.len() - i,
        {
            if self.entries[i].segment.get() == segment && self.entries[i].cluster.get()
                == cluster {
                return Some(i);
            }
            i = i + 1;
        }
        None
    }

    /// Adds a document to the list of its segment and cluster, at the end.
    /// Every other list stays as it is.
    pub fn add_document(&mut self, segment_ord: SegmentOrdinal, cluster_id: ClusterId, doc_id: DocId)
        ensures
            final(self)@.generation == old(self)@.generation,
            docs_of(final(self)@, segment_ord.spec_get(), cluster_id.spec_get()) == Some(
                match docs_of(old(self)@, segment_ord.spec_get(), cluster_id.spec_get()) {
                    Some(d) => d.push(doc_id),
                    None => seq![doc_id],
                },
            ),
            forall|s: u32, c: u32|
                !(s == segment_ord.spec_get() && c == cluster_id.spec_get()) ==> docs_of(
                    final(self)@,
                    s,
                    c,
                ) == docs_of(old(self)@, s, c),
            forall|c: u32|
                has_cluster(final(self)@, c) == (has_cluster(old(self)@, c) || c
                    == cluster_id.spec_get()),
            total_docs(final(self)@.entries) == total_docs(old(self)@.entries) + 1,
    {
        let seg = segment_ord.get();
        let cl = cluster_id.get();
        let ghost before = self@;
        match self.find(seg, cl) {
            Some(i) => {
                let mut docs: Vec<DocId> = Vec::new();
                let mut k: usize = 0;
                while k < self.entries[i].docs.len()
                    invariant
                        i < self.entries@.len(),
                        k <= self.entries@[i as int].docs@.len(),
                        docs@ == self.entries@[i as int].docs@.take(k as int),
                    decreases self.entries@[i as int].docs@.len() - k,
                {
                    docs.push(self.entries[i].docs[k]);
                    proof {
                        let src = self.entries@[i as int].docs@;
                        assert(src.take(k + 1) =~= src.take(k as int).push(src[k as int]));
                    }
                    k = k + 1;
                }
                proof {
                    let src = self.entries@[i as int].docs@;
                    assert(src.take(src.len() as int) =~= src);
                }
                docs.push(doc_id);
                self.entries.set(i, CacheEntry { segment: segment_ord, cluster: cluster_id, docs });
                proof {
                    let after = self@;
                    lemma_entry_bounds(before.entries, seg, cl, 0);
                    assert(after.entries =~= before.entries.update(
                        i as int,
                        (seg, cl, before.entries[i as int].2.push(doc_id)),
                    ));
                    assert forall|s: u32, c: u32| true implies entry_from(after.entries, s, c, 0)
                        == entry_from(before.entries, s, c, 0) by {
                        lemma_same_keys(before.entries, after.entries, s, c, 0);
                    }
                    assert forall|s: u32, c: u32| !(s == seg && c == cl) implies docs_of(
                        after,
                        s,
                        c,
                    ) == docs_of(before, s, c) by {
                        lemma_entry_bounds(before.entries, s, c, 0);
                    }
                    assert forall|c: u32| has_cluster(after, c) == (has_cluster(before, c) || c
                        == cl) by {
                        if has_cluster(after, c) {
                            let j = choose|j: int|
                                0 <= j < after.entries.len() && (#[trigger] after.entries[j]).1
                                    == c;
                            assert(before.entries[j].1 == c);
                        }
                        if has_cluster(before, c) {
                            let j = choose|j: int|
                                0 <= j < before.entries.len() && (#[trigger] before.entries[j]).1
                                    == c;
                            assert(after.entries[j].1 == c);
                        }
                        if c == cl {
                            assert(after.entries[i as int].1 == c);
                        }
                    }
                    lemma_total_update(before.entries, i as int, doc_id);
                }
            },
            None => {
                let mut docs: Vec<DocId> = Vec::new();
                docs.push(doc_id);
                self.entries.push(CacheEntry { segment: segment_ord, cluster: cluster_id, docs });
                proof {
                    let after = self@;
                    assert(docs@ =~= seq![doc_id]);
                    assert(after.entries =~= before.entries.push((seg, cl, seq![doc_id])));
                    assert forall|s: u32, c: u32| true implies entry_from(after.entries, s, c, 0)
                        == (if entry_from(before.entries, s, c, 0) is Some {
                        entry_from(before.entries, s, c, 0)
                    } else if s == seg && c == cl {
                        Some(before.entries.len() as int)
                    } else {
                        None
                    }) by {
                        lemma_entry_push(before.entries, (seg, cl, seq![doc_id]), s, c, 0);
                    }
                    assert forall|s: u32, c: u32| !(s == seg && c == cl) implies docs_of(
                        after,
                        s,
                        c,
                    ) == docs_of(before, s, c) by {
                        lemma_entry_bounds(before.entries, s, c, 0);
                    }
                    assert forall|c: u32| has_cluster(after, c) == (has_cluster(before, c) || c
                        == cl) by {
                        if has_cluster(after, c) {
                            let j = choose|j: int|
                                0 <= j < after.entries.len() && (#[trigger] after.entries[j]).1
                                    == c;
                            if j < before.entries.len() {
                                assert(before.entries[j].1 == c);
                            }
                        }
                        if has_cluster(before, c) {
                            let j = choose|j: int|
                                0 <= j < before.entries.len() && (#[trigger] before.entries[j]).1
                                    == c;
                            assert(after.entries[j].1 == c);
                        }
                        if c == cl {
                            assert(after.entries[before.entries.len() as int].1 == c);
                        }
                    }
                    lemma_total_push(before.entries, (seg, cl, seq![doc_id]));
                }
            },
        }
    }

    /// The documents cached for a cluster of a segment, where there are any.
    pub fn get_documents(&self, segment_ord: SegmentOrdinal, cluster_id: ClusterId) -> (r: Option<
        &[DocId],
    >)
        ensures
            r is Some == docs_of(self@, segment_ord.spec_get(), cluster_id.spec_get()) is Some,
            r is Some ==> r->0@ == docs_of(
                self@,
                segment_ord.spec_get(),
                cluster_id.spec_get(),
            )->0,
    {
        match self.find(segment_ord.get(), cluster_id.get()) {
            Some(i) => Some(self.entries[i].docs.as_slice()),
            None => None,
        }
    }

    /// Sorts every list. Each list keeps its documents and its place.
    pub fn sort_all(&mut self)
        ensures
            final(self)@.generation == old(self)@.generation,
            final(self)@.entries.len() == old(self)@.entries.len(),
            forall|i: int|
                0 <= i < final(self)@.entries.len() ==> {
                    &&& (#[trigger] final(self)@.entries[i]).0 == old(self)@.entries[i].0
                    &&& final(self)@.entries[i].1 == old(self)@.entries[i].1
                    &&& ascending(final(self)@.entries[i].2)
                    &&& final(self)@.entries[i].2.to_multiset() == old(
                        self,
                    )@.entries[i].2.to_multiset()
                },
            forall|s: u32, c: u32|
                docs_of(final(self)@, s, c) is Some == docs_of(old(self)@, s, c) is Some,
            forall|s: u32, c: u32|
                docs_of(final(self)@, s, c) is Some ==> ascending(
                    #[trigger] docs_of(final(self)@, s, c)->0,
                ) && docs_of(final(self)@, s, c)->0.to_multiset() == docs_of(
                    old(self)@,
                    s,
                    c,
                )->0.to_multiset(),
            forall|c: u32| has_cluster(final(self)@, c) == has_cluster(old(self)@, c),
    {
        let ghost before = self@;
        let mut sorted: Vec<CacheEntry> = Vec::new();
        let mut i: usize = 0;
        while i < self.entries.len()
            invariant
                i <= self.entries.len(),
                *self == *old(self),
                sorted@.len() == i,
                forall|j: int|
                    0 <= j < i ==> {
                        &&& (#[trigger] sorted@[j]@).0 == self@.entries[j].0
                        &&& sorted@[j]@.1 == self@.entries[j].1
                        &&& ascending(sorted@[j]@.2)
                        &&& sorted@[j]@.2.to_multiset() == self@.entries[j].2.to_multiset()
                    },
            decreases self.entries.len() - i,
        {
            let mut docs: Vec<DocId> = Vec::new();
            let mut k: usize = 0;
            while k < self.entries[i].docs.len()
                invariant
                    i < self.entries@.len(),
                    k <= self.entries@[i as int].docs@.len(),
                    docs@ == self.entries@[i as int].docs@.take(k as int),
                decreases self.entries@[i as int].docs@.len() - k,
            {
                docs.push(self.entries[i].docs[k]);
                proof {
                    let src = self.entries@[i as int].docs@;
                    assert(src.take(k + 1) =~= src.take(k as int).push(src[k as int]));
                }
                k = k + 1;
            }
            proof {
                let src = self.entries@[i as int].docs@;
                assert(src.take(src.len() as int) =~= src);
            }
            sort_doc_ids(&mut docs);
            sorted.push(
                CacheEntry {
                    segment: self.entries[i].segment,
                    cluster: self.entries[i].cluster,
                    docs,
                },
            );
            i = i + 1;
        }
        self.entries = sorted;
        proof {
            let after = self@;
            assert forall|s: u32, c: u32| true implies entry_from(after.entries, s, c, 0)
                == entry_from(before.entries, s, c, 0) by {
                lemma_same_keys(before.entries, after.entries, s, c, 0);
                lemma_entry_bounds(before.entries, s, c, 0);
            }
            assert forall|s: u32, c: u32| docs_of(after, s, c) is Some implies ascending(
                #[trigger] docs_of(after, s, c)->0,
            ) && docs_of(after, s, c)->0.to_multiset() == docs_of(before, s, c)->0.to_multiset() by {
                lemma_entry_bounds(before.entries, s, c, 0);
                let k = entry_from(after.entries, s, c, 0)->0;
                assert(ascending(after.entries[k].2));
            }
            assert forall|c: u32| has_cluster(after, c) == has_cluster(before, c) by {
                if has_cluster(after, c) {
                    let j = choose|j: int|
                        0 <= j < after.entries.len() && (#[trigger] after.entries[j]).1 == c;
                    assert(before.entries[j].1 == c);
                }
                if has_cluster(before, c) {
                    let j = choose|j: int|
                        0 <= j < before.entries.len() && (#[trigger] before.entries[j]).1 == c;
                    assert(after.entries[j].1 == c);
                }
            }
        }
    }

    /// The number of documents in all lists together, or the largest number
    /// that fits where there are more.
    pub fn total_documents(&self) -> (r: usize)
        ensures
            total_docs(self@.entries) <= usize::MAX ==> r == total_docs(self@.entries),
            total_docs(self@.entries) > usize::MAX ==> r == usize::MAX,
    {
        let mut total: usize = 0;
        let mut i: usize = 0;
        while i < self.entries.len()
            invariant
                i <= self.entries.len(),
                total_docs(self@.entries.take(i as int)) <= usize::MAX ==> total == total_docs(
                    self@.entries.take(i as int),
                ),
                total_docs(self@.entries.take(i as int)) > usize::MAX ==> total == usize::MAX,
            decreases self.entries.len() - i,
        {
            let n = self.entries[i].docs.len();
            proof {
                let e = self@.entries;
                assert(e.take(i + 1).drop_last() =~= e.take(i as int));
                assert(e.take(i + 1).last() == e[i as int]);
            }
            total = if n > usize::MAX - total {
                usize::MAX
            } else {
                total + n
            };
            i = i + 1;
        }
        proof {
            assert(self@.entries.take(self.entries@.len() as int) =~= self@.entries);
        }
        total
    }

    /// Every cluster that has a list in some segment, each once, in
    /// ascending order of its number.
    pub fn all_cluster_ids(&self) -> (r: Vec<ClusterId>)
        ensures
            strictly_ascending(r@),
            forall|c: u32| lists_cluster(r@, c) == has_cluster(self@, c),
    {
        let mut out: Vec<ClusterId> = Vec::new();
        let mut i: usize = 0;
        while i < self.entries.len()
            invariant
                i <= self.entries.len(),
                strictly_ascending(out@),
                forall|c: u32|
                    lists_cluster(out@, c) == (exists|j: int|
                        0 <= j < i && (#[trigger] self@.entries[j]).1 == c),
            decreases self.entries.len() - i,
        {
            let cluster = self.entries[i].cluster;
            let ghost prev = out@;
            insert_cluster(&mut out, cluster);
            proof {
                assert forall|c: u32| lists_cluster(out@, c) == (exists|j: int|
                    0 <= j < i + 1 && (#[trigger] self@.entries[j]).1 == c) by {
                    if lists_cluster(prev, c) {
                        let j = choose|j: int| 0 <= j < i && (#[trigger] self@.entries[j]).1 == c;
                        assert(0 <= j < i + 1 && self@.entries[j].1 == c);
                    }
                    if c == cluster.spec_get() {
                        assert(self@.entries[i as int].1 == c);
                    }
                    if exists|j: int| 0 <= j < i + 1 && (#[trigger] self@.entries[j]).1 == c {
                        let j = choose|j: int|
                            0 <= j < i + 1 && (#[trigger] self@.entries[j]).1 == c;
                        if j < i {
                            assert(lists_cluster(prev, c));
                        }
                    }
                }
            }
            i = i + 1;
        }
        proof {
            assert forall|c: u32| lists_cluster(out@, c) == has_cluster(self@, c) by {
                if has_cluster(self@, c) {
                    let j = choose|j: int|
                        0 <= j < self@.entries.len() && (#[trigger] self@.entries[j]).1 == c;
                    assert(0 <= j < i && self@.entries[j].1 == c);
                }
            }
        }
        out
    }
}

proof fn lemma_total_update(e: Seq<(u32, u32, Seq<DocId>)>, i: int, doc: DocId)
    requires
        0 <= i < e.len(),
    ensures
        total_docs(e.update(i, (e[i].0, e[i].1, e[i].2.push(doc)))) == total_docs(e) + 1,
    decreases e.len(),
{
    let u = e.update(i, (e[i].0, e[i].1, e[i].2.push(doc)));
    if i == e.len() - 1 {
        assert(u.drop_last() =~= e.drop_last());
    } else {
        assert(u.drop_last() =~= e.drop_last().update(
            i,
            (e[i].0, e[i].1, e[i].2.push(doc)),
        ));
        lemma_total_update(e.drop_last(), i, doc);
    }
}

/// Puts a cluster into a list that is in strictly ascending order, at its
/// place, unless the list holds it already.
fn insert_cluster(list: &mut Vec<ClusterId>, cluster: ClusterId)
    requires
        strictly_ascending(old(list)@),
    ensures
        strictly_ascending(final(list)@),
        forall|c: u32|
            lists_cluster(final(list)@, c) == (lists_cluster(old(list)@, c) || c
                == cluster.spec_get()),
{
    let n = cluster.get();
    let mut pos: usize = 0;
    while pos < list.len() && list[pos].get() < n
        invariant
            pos <= list.len(),
            *list == *old(list),
            forall|j: int| 0 <= j < pos ==> list@[j].spec_get() < n,
        decreases list.len() - pos,
    {
        pos = pos + 1;
    }
    if pos < list.len() && list[pos].get() == n {
        proof {
            assert(lists_cluster(list@, n));
        }
        return ;
    }
    let ghost before = list@;
    list.insert(pos, cluster);
    proof {
        let after = list@;
        assert(after =~= before.insert(pos as int, cluster));
        assert forall|a: int, b: int| 0 <= a < b < after.len() implies after[a].spec_get()
            < after[b].spec_get() by {
            if b < pos {
            } else if b == pos {
            } else if a < pos {
                assert(after[b] == before[b - 1]);
                if pos < before.len() {
                    assert(before[pos as int].spec_get() > n);
                    if b - 1 > pos {
                        assert(before[pos as int].spec_get() < before[b - 1].spec_get());
                    }
                }
            } else if a == pos {
                assert(after[b] == before[b - 1]);
                assert(before[pos as int].spec_get() > n);
                if b - 1 > pos {
                    assert(before[pos as int].spec_get() < before[b - 1].spec_get());
                }
            } else {
                assert(after[a] == before[a - 1]);
                assert(after[b] == before[b - 1]);
            }
        }
        assert forall|c: u32| lists_cluster(after, c) == (lists_cluster(before, c) || c == n) by {
            if lists_cluster(after, c) {
                let j = choose|j: int| 0 <= j < after.len() && (#[trigger] after[j]).spec_get() == c;
                if j < pos {
                    assert(before[j].spec_get() == c);
                } else if j > pos {
                    assert(before[j - 1].spec_get() == c);
                }
            }
            if lists_cluster(before, c) {
                let j = choose|j: int|
                    0 <= j < before.len() && (#[trigger] before[j]).spec_get() == c;
                if j < pos {
                    assert(after[j].spec_get() == c);
                } else {
                    assert(after[j + 1].spec_get() == c);
                }
            }
            if c == n {
                assert(after[pos as int].spec_get() == c);
            }
        }
    }
}

} // verus!
