//! Identifiers of the vector subsystem and the cluster assignments that the
//! vector engine hands to the document index.

use vstd::prelude::*;

verus! {

/// Identifier of a stored vector; it equals the number of the symbol that
/// the vector was made for. Never zero.
#[derive(Debug, Clone, Copy, PartialEq, Eq, Hash, Structural)]
pub struct VectorId(u32);

/// Identifier of a cluster of vectors. Never zero: zero stands for "not yet
/// assigned" wherever a cluster is stored as a plain number.
#[derive(Debug, Clone, Copy, PartialEq, Eq, Hash, Structural)]
pub struct ClusterId(u32);

/// The position of a segment among the segments of the store.
#[derive(Debug, Clone, Copy, PartialEq, Eq, Hash, Structural)]
pub struct SegmentOrdinal(u32);

/// The position of a document within its segment.
pub type DocId = u64;

impl VectorId {
    #[verifier::type_invariant]
    spec fn nonzero(self) -> bool {
        self.0 != 0
    }

    pub closed spec fn spec_get(self) -> u32 {
        self.0
    }

    /// Wraps `value`, refusing zero.
    pub fn new(value: u32) -> (r: Option<Self>)
        ensures
            r is Some == (value != 0),
            r is Some ==> r->0.spec_get() == value,
    {
        if value == 0 {
            None
        } else {
            Some(VectorId(value))
        }
    }

    /// The underlying number, which is never zero.
    pub fn get(&self) -> (r: u32)
        ensures
            r == self.spec_get(),
            r != 0,
    {
        proof {
            use_type_invariant(self);
        }
        self.0
    }
}

impl ClusterId {
    #[verifier::type_invariant]
    spec fn nonzero(self) -> bool {
        self.0 != 0
    }

    pub closed spec fn spec_get(self) -> u32 {
        self.0
    }

    /// Wraps `value`, refusing zero.
    pub fn new(value: u32) -> (r: Option<Self>)
        ensures
            r is Some == (value != 0),
            r is Some ==> r->0.spec_get() == value,
    {
        if value == 0 {
            None
        } else {
            Some(ClusterId(value))
        }
    }

    /// The underlying number, which is never zero.
    pub fn get(&self) -> (r: u32)
        ensures
            r == self.spec_get(),
            r != 0,
    {
        proof {
            use_type_invariant(self);
        }
        self.0
    }
}

impl SegmentOrdinal {
    pub closed spec fn spec_get(self) -> u32 {
        self.0
    }

    pub fn new(value: u32) -> (r: Self)
        ensures
            r.spec_get() == value,
    {
        SegmentOrdinal(value)
    }

    pub fn get(&self) -> (r: u32)
        ensures
            r == self.spec_get(),
    {
        self.0
    }
}

/// What the document index reads of the vector engine: which vectors it
/// holds and the cluster that each was assigned to. The vectors themselves,
/// their storage and the clustering stay with the engine.
#[derive(Debug)]
pub struct VectorSearchEngine {
    dimension: usize,
    assignments: Vec<(VectorId, ClusterId)>,
}

/// The cluster that the first assignment of vector `v` names, from position
/// `from` on.
pub open spec fn assigned_from(a: Seq<(u32, u32)>, v: u32, from: int) -> Option<u32>
    decreases a.len() - from,
{
    if from < 0 || from >= a.len() {
        None
    } else if a[from].0 == v {
        Some(a[from].1)
    } else {
        assigned_from(a, v, from + 1)
    }
}

/// The cluster that vector `v` is assigned to, where the engine holds it.
pub open spec fn assigned(a: Seq<(u32, u32)>, v: u32) -> Option<u32> {
    assigned_from(a, v, 0)
}

proof fn lemma_assigned_from_update(a: Seq<(u32, u32)>, i: int, c: u32, w: u32, from: int)
    requires
        0 <= i < a.len(),
        0 <= from,
        forall|j: int| from <= j < i ==> a[j].0 != a[i].0,
    ensures
        w != a[i].0 ==> assigned_from(a.update(i, (a[i].0, c)), w, from) == assigned_from(
            a,
            w,
            from,
        ),
        w == a[i].0 && from <= i ==> assigned_from(a.update(i, (a[i].0, c)), w, from) == Some(c),
    decreases a.len() - from,
{
    let b = a.update(i, (a[i].0, c));
    if from < a.len() {
        lemma_assigned_from_update(a, i, c, w, from + 1);
        if from == i {
            assert(b[from] == (a[i].0, c));
        } else {
            assert(b[from] == a[from]);
        }
    }
}

proof fn lemma_assigned_from_push(a: Seq<(u32, u32)>, v: u32, c: u32, w: u32, from: int)
    requires
        0 <= from <= a.len(),
    ensures
        assigned_from(a.push((v, c)), w, from) == (if assigned_from(a, w, from) is Some {
            assigned_from(a, w, from)
        } else if w == v {
            Some(c)
        } else {
            None
        }),
    decreases a.len() - from,
{
    let b = a.push((v, c));
    if from == a.len() {
        assert(b[from] == (v, c));
        assert(assigned_from(b, w, from + 1) is None);
    } else {
        assert(b[from] == a[from]);
        lemma_assigned_from_push(a, v, c, w, from + 1);
    }
}

impl View for VectorSearchEngine {
    type V = Seq<(u32, u32)>;

    closed spec fn view(&self) -> Seq<(u32, u32)> {
        Seq::new(
            self.assignments@.len(),
            |i: int| (self.assignments@[i].0.spec_get(), self.assignments@[i].1.spec_get()),
        )
    }
}

impl VectorSearchEngine {
    pub closed spec fn spec_dimension(&self) -> usize {
        self.dimension
    }

    /// An engine for vectors of the given dimension that holds no vector.
    pub fn new(dimension: usize) -> (r: Self)
        ensures
            r@ == Seq::<(u32, u32)>::empty(),
            r.spec_dimension() == dimension,
    {
        let r = VectorSearchEngine { dimension, assignments: Vec::new() };
        proof {
            assert(r@ =~= Seq::<(u32, u32)>::empty());
        }
        r
    }

    pub fn dimension(&self) -> (r: usize)
        ensures
            r == self.spec_dimension(),
    {
        self.dimension
    }

    /// Records that the engine holds vector `vector_id` and has assigned it
    /// to cluster `cluster_id`. An earlier assignment of the same vector is
    /// replaced; every other vector keeps its cluster.
    pub fn assign(&mut self, vector_id: VectorId, cluster_id: ClusterId)
        ensures
            assigned(final(self)@, vector_id.spec_get()) == Some(cluster_id.spec_get()),
            forall|w: u32|
                w != vector_id.spec_get() ==> assigned(final(self)@, w) == assigned(old(self)@, w),
            final(self).spec_dimension() == old(self).spec_dimension(),
    {
        let mut i: usize = 0;
        while i < self.assignments.len()
            invariant
                i <= self.assignments.len(),
                *self == *old(self),
                forall|j: int| 0 <= j < i ==> self@[j].0 != vector_id.spec_get(),
            decreases self.assignments.len() - i,
        {
            if self.assignments[i].0.get() == vector_id.get() {
                let ghost before = self@;
                self.assignments.set(i, (vector_id, cluster_id));
                proof {
                    assert(self@ =~= before.update(i as int, (before[i as int].0, cluster_id.spec_get())));
                    assert forall|w: u32| true implies assigned(self@, w) == (if w
                        == vector_id.spec_get() {
                        Some(cluster_id.spec_get())
                    } else {
                        assigned(before, w)
                    }) by {
                        lemma_assigned_from_update(before, i as int, cluster_id.spec_get(), w, 0);
                    }
                }
                return ;
            }
            i = i + 1;
        }
        let ghost before = self@;
        self.assignments.push((vector_id, cluster_id));
        proof {
            assert(self@ =~= before.push((vector_id.spec_get(), cluster_id.spec_get())));
            lemma_none_assigned(before, vector_id.spec_get(), 0);
            assert forall|w: u32| true implies assigned(self@, w) == (if w == vector_id.spec_get() {
                Some(cluster_id.spec_get())
            } else {
                assigned(before, w)
            }) by {
                lemma_assigned_from_push(before, vector_id.spec_get(), cluster_id.spec_get(), w, 0);
            }
        }
    }

    /// The cluster that a vector is assigned to, where the engine holds it.
    pub fn cluster_of(&self, vector_id: VectorId) -> (r: Option<ClusterId>)
        ensures
            r is Some == assigned(self@, vector_id.spec_get()) is Some,
            r is Some ==> r->0.spec_get() == assigned(self@, vector_id.spec_get())->0,
    {
        self.cluster_of_number(vector_id.get())
    }

    /// As [`Self::cluster_of`], for a vector given by its number.
    pub fn cluster_of_number(&self, vector: u32) -> (r: Option<ClusterId>)
        ensures
            r is Some == assigned(self@, vector) is Some,
            r is Some ==> r->0.spec_get() == assigned(self@, vector)->0,
            r is Some ==> r->0.spec_get() != 0,
    {
        let mut i: usize = 0;
        while i < self.assignments.len()
            invariant
                i <= self.assignments.len(),
                assigned(self@, vector) == assigned_from(self@, vector, i as int),
            decreases self.assignments.len() - i,
        {
            if self.assignments[i].0.get() == vector {
                let c = self.assignments[i].1;
                let n = c.get();
                return Some(c);
            }
            i = i + 1;
        }
        None
    }

    /// Whether the engine holds the vector.
    pub fn contains(&self, vector_id: VectorId) -> (r: bool)
        ensures
            r == assigned(self@, vector_id.spec_get()) is Some,
    {
        self.cluster_of(vector_id).is_some()
    }

    /// How many assignments the engine holds.
    pub fn vector_count(&self) -> (r: usize)
        ensures
            r == self@.len(),
    {
        self.assignments.len()
    }

    /// Every vector with the cluster it is assigned to.
    pub fn get_all_cluster_assignments(&self) -> (r: Vec<(VectorId, ClusterId)>)
        ensures
            r@.len() == self@.len(),
            forall|i: int|
                0 <= i < r@.len() ==> (#[trigger] r@[i]).0.spec_get() == self@[i].0
                    && r@[i].1.spec_get() == self@[i].1 && r@[i].0.spec_get() != 0
                    && r@[i].1.spec_get() != 0,
    {
        let mut out: Vec<(VectorId, ClusterId)> = Vec::new();
        let mut i: usize = 0;
        while i < self.assignments.len()
            invariant
                i <= self.assignments.len(),
                out@.len() == i,
                forall|j: int|
                    0 <= j < i ==> (#[trigger] out@[j]).0.spec_get() == self@[j].0
                        && out@[j].1.spec_get() == self@[j].1 && out@[j].0.spec_get() != 0
                        && out@[j].1.spec_get() != 0,
            decreases self.assignments.len() - i,
        {
            let pair = self.assignments[i];
            let v = pair.0.get();
            let c = pair.1.get();
            out.push(pair);
            i = i + 1;
        }
        out
    }
}

proof fn lemma_none_assigned(a: Seq<(u32, u32)>, v: u32, from: int)
    requires
        0 <= from,
        forall|j: int| 0 <= j < a.len() ==> a[j].0 != v,
    ensures
        assigned_from(a, v, from) is None,
    decreases a.len() - from,
{
    if from < a.len() {
        lemma_none_assigned(a, v, from + 1);
    }
}

/// What a document knows of its vector.
#[derive(Debug, Clone, Copy, PartialEq, Eq, Structural)]
pub struct VectorMetadata {
    /// The vector of the document, where it has one.
    pub vector_id: Option<VectorId>,
    /// The cluster of the vector.
    pub cluster_id: Option<ClusterId>,
    /// The version of the embedding model that made the vector.
    pub embedding_version: u32,
}

impl VectorMetadata {
    /// Metadata of a document without a vector.
    pub fn new(embedding_version: u32) -> (r: Self)
        ensures
            r == (VectorMetadata { vector_id: None, cluster_id: None, embedding_version }),
    {
        VectorMetadata { vector_id: None, cluster_id: None, embedding_version }
    }

    /// Metadata of a document with a vector in a cluster.
    pub fn with_vector(vector_id: VectorId, cluster_id: ClusterId, embedding_version: u32) -> (r:
        Self)
        ensures
            r == (VectorMetadata {
                vector_id: Some(vector_id),
                cluster_id: Some(cluster_id),
                embedding_version,
            }),
    {
        VectorMetadata {
            vector_id: Some(vector_id),
            cluster_id: Some(cluster_id),
            embedding_version,
        }
    }

    /// Whether the document has a vector.
    pub fn has_vector(&self) -> (r: bool)
        ensures
            r == self.vector_id is Some,
    {
        self.vector_id.is_some()
    }
}

} // verus!
