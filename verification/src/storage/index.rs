//! The document index: one store for symbols, relationships, files, imports
//! and metadata, written in batches and read through term queries.

use vstd::prelude::*;
use crate::config::Settings;
use crate::error::{StorageError, StorageResult};
use crate::indexing::retry::{
    backoff_base,
    backoff_spread,
    backoff_with_jitter_ms,
    commit_retries,
    effective_attempts,
    is_writer_killed,
    normalized_heap_bytes,
    spec_commit_retries,
    spec_effective_attempts,
    spec_normalized_heap_bytes,
    spec_retry_class,
    spec_writer_killed,
    windows_error_retry_class,
    WriterError,
};
use crate::parsing::{Import, ImportView};
use crate::relationship::{Relationship, RelationshipView};
use crate::storage::batch::{
    adds_in,
    apply,
    apply_op,
    apply_ops,
    is_among,
    lemma_survivors,
    op_views,
    survivors,
    WriteOp,
    WriteOpView,
};
use crate::storage::cluster_cache::{
    ascending,
    docs_of,
    has_cluster,
    ClusterCache,
    ClusterCacheView,
};
use crate::storage::document::{
    is_relationship_doc,
    is_symbol_doc,
    lemma_doc_types_differ,
    num_at,
    text_at,
    DocView,
    Document,
    MetadataKey,
};
use crate::storage::numbering::{
    lemma_cached_list_strict,
    lemma_commit_numbers_apart,
    lemma_reopened_numbers_apart,
    numbered_apart,
    segments_below,
    strictly_ascending_ids,
};
use crate::storage::query::{
    all_hits,
    find_hits,
    first_n,
    stored_views,
    term_views,
    StoredDoc,
    StoredDocView,
    Term,
    TermView,
};
use crate::storage::schema::{
    F_CLUSTER_ID,
    F_DOC_TYPE,
    F_FILE_ID,
    F_FROM_SYMBOL_ID,
    F_HAS_VECTOR,
    F_KIND,
    F_META_KEY,
    F_META_VALUE,
    F_NAME,
    F_SYMBOL_ID,
    F_TO_SYMBOL_ID,
    F_VECTOR_ID,
    IndexSchema,
    NUM_FIELDS,
};
use crate::storage::shapes::{
    file_info_doc,
    file_info_document,
    import_doc,
    import_document,
    metadata_doc,
    metadata_document,
    num_or,
    opt_str_view,
    relationship_doc,
    relationship_document,
    symbol_doc,
    symbol_document,
    SymbolEntry,
};
use crate::symbol::{opt_scope_view, ScopeContext, Symbol, Visibility};
use crate::text::{concat, decimal_digits, decimal_text, opt_to_owned, opt_view};
use crate::types::{FileId, Range, SymbolId, SymbolKind};
use crate::storage::cluster_cache::{lists_cluster, strictly_ascending};
use crate::storage::document::set_num;
use crate::storage::reads::{by_id_terms, found, lemma_found};
use crate::vector::{assigned, ClusterId, DocId, SegmentOrdinal, VectorId, VectorSearchEngine};

verus! {

/// The document index.
#[derive(Debug)]
pub struct DocumentIndex {
    index_path: String,
    heap_size: usize,
    max_retry_attempts: u32,
    /// The documents that readers see.
    committed: Vec<StoredDoc>,
    /// The number of commits so far: the generation of the reader, and the
    /// segment that the next commit writes.
    next_segment: u32,
    /// The writer's slot: the operations of the open batch, if one is open.
    batch: Option<Vec<WriteOp>>,
    /// The next symbol number that the open batch hands out.
    pending_symbol_counter: Option<u64>,
    /// The next file number that the open batch hands out.
    pending_file_counter: Option<u64>,
    vector_storage_path: Option<String>,
    vector_engine: Option<VectorSearchEngine>,
    embedding_generator: bool,
    cluster_cache: Option<ClusterCache>,
    /// The symbols that wait for a vector, with the text to embed.
    pending_embeddings: Vec<(SymbolId, String)>,
}

/// The mathematical content of a [`DocumentIndex`].
pub struct IndexView {
    pub index_path: Seq<char>,
    pub heap_size: usize,
    pub max_retry_attempts: u32,
    pub committed: Seq<StoredDocView>,
    pub generation: u32,
    pub batch: Option<Seq<WriteOpView>>,
    pub pending_symbol: Option<u64>,
    pub pending_file: Option<u64>,
    pub vector_storage_path: Option<Seq<char>>,
    pub engine: Option<Seq<(u32, u32)>>,
    pub embedding_generator: bool,
    pub cache: Option<ClusterCacheView>,
    pub pending_embeddings: Seq<(SymbolId, Seq<char>)>,
}

// ---------------------------------------------------------------------------
// Valid documents
// ---------------------------------------------------------------------------

/// The document says that its symbol has a vector.
pub open spec fn claims_vector(d: DocView) -> bool {
    num_at(d, F_HAS_VECTOR as int) == Some(1u64)
}

/// A document that the index accepts: it has a slot for every field; a
/// symbol names its identifier, name, kind and file; a relationship names
/// both ends, neither zero; a document that claims a vector is a symbol and
/// names the vector and a cluster, neither zero; and a document that claims
/// no vector names no cluster.
pub open spec fn valid_doc(d: DocView) -> bool {
    &&& d.len() == NUM_FIELDS
    &&& is_symbol_doc(d) ==> {
        &&& num_at(d, F_SYMBOL_ID as int) is Some
        &&& text_at(d, F_NAME as int) is Some
        &&& text_at(d, F_KIND as int) is Some
        &&& num_at(d, F_FILE_ID as int) is Some
    }
    &&& is_relationship_doc(d) ==> {
        &&& num_at(d, F_FROM_SYMBOL_ID as int) is Some
        &&& 1 <= num_at(d, F_FROM_SYMBOL_ID as int)->0 <= u32::MAX
        &&& num_at(d, F_TO_SYMBOL_ID as int) is Some
        &&& 1 <= num_at(d, F_TO_SYMBOL_ID as int)->0 <= u32::MAX
    }
    &&& claims_vector(d) ==> {
        &&& is_symbol_doc(d)
        &&& num_at(d, F_CLUSTER_ID as int) is Some
        &&& 1 <= num_at(d, F_CLUSTER_ID as int)->0 <= u32::MAX
        &&& num_at(d, F_VECTOR_ID as int) is Some
        &&& 1 <= num_at(d, F_VECTOR_ID as int)->0 <= u32::MAX
    }
    &&& !claims_vector(d) ==> num_or(d, F_CLUSTER_ID as int, 0) == 0
}

/// The vector that the document claims is one that the engine holds.
pub open spec fn vector_known(d: DocView, engine: Option<Seq<(u32, u32)>>) -> bool {
    claims_vector(d) ==> engine is Some && assigned(
        engine->0,
        num_at(d, F_VECTOR_ID as int)->0 as u32,
    ) is Some
}

/// Every stored document is valid and claims no vector that the engine
/// lacks.
pub open spec fn docs_valid(docs: Seq<StoredDocView>, engine: Option<Seq<(u32, u32)>>) -> bool {
    forall|i: int|
        0 <= i < docs.len() ==> valid_doc((#[trigger] docs[i]).doc) && vector_known(
            docs[i].doc,
            engine,
        )
}

/// Every document that the operations add is valid and claims no vector
/// that the engine lacks.
pub open spec fn ops_valid(ops: Seq<WriteOpView>, engine: Option<Seq<(u32, u32)>>) -> bool {
    forall|i: int|
        0 <= i < ops.len() ==> ((#[trigger] ops[i]) matches WriteOpView::Add(d) ==> valid_doc(d)
            && vector_known(d, engine))
}

// ---------------------------------------------------------------------------
// The cluster cache over the stored documents
// ---------------------------------------------------------------------------

/// The cluster that a document names, zero where it names none.
pub open spec fn doc_cluster(d: DocView) -> u32 {
    num_or(d, F_CLUSTER_ID as int, 0) as u32
}

/// The stored document belongs into the cache's list for the segment and
/// cluster.
pub open spec fn cached_doc(sd: StoredDocView, segment: u32, cluster: u32) -> bool {
    claims_vector(sd.doc) && sd.segment == segment && doc_cluster(sd.doc) == cluster && cluster
        != 0
}

/// The numbers of those of the first `n` documents that belong into the
/// list for the segment and cluster, in the order of the store.
pub open spec fn cluster_docs(docs: Seq<StoredDocView>, segment: u32, cluster: u32, n: int) -> Seq<
    DocId,
>
    decreases n,
{
    if n <= 0 {
        Seq::empty()
    } else if cached_doc(docs[n - 1], segment, cluster) {
        cluster_docs(docs, segment, cluster, n - 1).push(docs[n - 1].doc_id)
    } else {
        cluster_docs(docs, segment, cluster, n - 1)
    }
}

/// One of the first `n` documents has a vector in the cluster.
pub open spec fn cluster_present(docs: Seq<StoredDocView>, cluster: u32, n: int) -> bool {
    exists|i: int|
        0 <= i < n && claims_vector((#[trigger] docs[i]).doc) && doc_cluster(docs[i].doc)
            == cluster && cluster != 0
}

/// The cache holds, for every segment and cluster, exactly the documents
/// with a vector in that cluster, in ascending order; and it knows exactly
/// the clusters that some document is in.
pub open spec fn cache_reflects(cache: ClusterCacheView, docs: Seq<StoredDocView>) -> bool {
    &&& forall|s: u32, c: u32|
        (#[trigger] docs_of(cache, s, c)) is Some == (cluster_docs(docs, s, c, docs.len() as int).len()
            > 0)
    &&& forall|s: u32, c: u32|
        (#[trigger] docs_of(cache, s, c)) is Some ==> ascending(docs_of(cache, s, c)->0)
            && docs_of(cache, s, c)->0.to_multiset() == cluster_docs(
            docs,
            s,
            c,
            docs.len() as int,
        ).to_multiset()
    &&& forall|c: u32| #[trigger] has_cluster(cache, c) == cluster_present(docs, c, docs.len() as int)
}

// ---------------------------------------------------------------------------
// Counters
// ---------------------------------------------------------------------------

/// The terms that find the metadata document of a key.
pub open spec fn metadata_terms(key: Seq<char>) -> Seq<TermView> {
    seq![TermView::Text(F_DOC_TYPE as int, "metadata"@), TermView::Text(F_META_KEY as int, key)]
}

/// The value kept under a metadata key, where one is kept.
pub open spec fn metadata_value(docs: Seq<StoredDocView>, key: Seq<char>) -> Option<u64> {
    let h = all_hits(docs, metadata_terms(key));
    if h.len() > 0 {
        num_at(docs[h[0]].doc, F_META_VALUE as int)
    } else {
        None
    }
}

/// The counter kept under a metadata key, zero where none is kept.
pub open spec fn stored_counter(docs: Seq<StoredDocView>, key: Seq<char>) -> u32 {
    match metadata_value(docs, key) {
        Some(v) => v as u32,
        None => 0,
    }
}

/// The number after a document number, or the same where it is the last.
pub open spec fn next_doc_id(id: DocId) -> DocId {
    if id == u64::MAX {
        id
    } else {
        (id + 1) as DocId
    }
}

/// The documents once a pending counter is made durable: where the batch
/// handed out numbers beyond the counter that is kept, the kept counter is
/// replaced by the last number handed out.
pub open spec fn persist_counter(
    docs: Seq<StoredDocView>,
    key: Seq<char>,
    pending: Option<u64>,
    segment: u32,
    doc_id: DocId,
) -> Seq<StoredDocView> {
    match pending {
        Some(next) => if next - 1 > stored_counter(docs, key) {
            apply_op(
                apply_op(docs, WriteOpView::DeleteMetadata(key), segment, doc_id),
                WriteOpView::Add(metadata_doc(key, (next - 1) as u64)),
                segment,
                doc_id,
            )
        } else {
            docs
        },
        None => docs,
    }
}

/// The documents that readers see once a batch of operations is committed
/// in generation `generation`, with the given pending counters.
pub open spec fn docs_after(
    committed: Seq<StoredDocView>,
    ops: Seq<WriteOpView>,
    generation: u32,
    pending_symbol: Option<u64>,
    pending_file: Option<u64>,
) -> Seq<StoredDocView> {
    let n = ops.len() as int;
    let base = apply_ops(committed, ops, generation, 0, n);
    let id = adds_in(ops, n) as DocId;
    let with_symbols = persist_counter(
        base,
        MetadataKey::SymbolCounter.spec_as_str(),
        pending_symbol,
        generation,
        id,
    );
    persist_counter(
        with_symbols,
        MetadataKey::FileCounter.spec_as_str(),
        pending_file,
        generation,
        next_doc_id(id),
    )
}

/// The documents that readers see once the open batch is committed.
pub open spec fn committed_after(v: IndexView) -> Seq<StoredDocView> {
    docs_after(v.committed, v.batch->0, v.generation, v.pending_symbol, v.pending_file)
}

/// The state after a successful commit of `ops` with the given pending
/// counters: the documents are those after the operations, the generation
/// has advanced, no batch is open, no counter is pending, and there is a
/// cluster cache exactly where there is a vector engine.
pub open spec fn commit_result(
    pre: IndexView,
    ops: Seq<WriteOpView>,
    pending_symbol: Option<u64>,
    pending_file: Option<u64>,
    post: IndexView,
) -> bool {
    &&& post == (IndexView {
        committed: docs_after(pre.committed, ops, pre.generation, pending_symbol, pending_file),
        generation: (pre.generation + 1) as u32,
        batch: None,
        pending_symbol: None,
        pending_file: None,
        cache: post.cache,
        ..pre
    })
    &&& post.cache is Some == pre.engine is Some
}

/// The heap that an index is given for the megabytes that the settings ask
/// for.
pub open spec fn heap_for(megabytes: usize) -> usize {
    if megabytes > usize::MAX / 1000000 {
        spec_normalized_heap_bytes(usize::MAX)
    } else {
        spec_normalized_heap_bytes((megabytes * 1000000) as usize)
    }
}

/// The content of the pending embeddings.
pub open spec fn embeddings_view(v: Seq<(SymbolId, String)>) -> Seq<(SymbolId, Seq<char>)> {
    Seq::new(v.len(), |i: int| (v[i].0, v[i].1@))
}

impl View for DocumentIndex {
    type V = IndexView;

    closed spec fn view(&self) -> IndexView {
        IndexView {
            index_path: self.index_path@,
            heap_size: self.heap_size,
            max_retry_attempts: self.max_retry_attempts,
            committed: stored_views(self.committed@),
            generation: self.next_segment,
            batch: match self.batch {
                Some(ops) => Some(op_views(ops@)),
                None => None,
            },
            pending_symbol: self.pending_symbol_counter,
            pending_file: self.pending_file_counter,
            vector_storage_path: opt_view(self.vector_storage_path),
            engine: match self.vector_engine {
                Some(e) => Some(e@),
                None => None,
            },
            embedding_generator: self.embedding_generator,
            cache: match self.cluster_cache {
                Some(c) => Some(c@),
                None => None,
            },
            pending_embeddings: embeddings_view(self.pending_embeddings@),
        }
    }
}

/// The state of an index is consistent: its documents are valid; they
/// stand in the segments of earlier generations, and within a segment no
/// two documents with a vector share a number; the counters are pending
/// exactly while a batch is open, and in range; a cluster cache, where
/// there is one, reflects the documents that readers see and belongs to
/// their generation; and without a cluster cache no document that readers
/// see claims a vector.
pub open spec fn consistent(v: IndexView) -> bool {
    &&& docs_valid(v.committed, v.engine)
    &&& numbered_apart(v.committed)
    &&& segments_below(v.committed, v.generation as int)
    &&& v.batch is Some ==> ops_valid(v.batch->0, v.engine)
    &&& v.pending_symbol is Some == v.batch is Some
    &&& v.pending_file is Some == v.batch is Some
    &&& v.pending_symbol is Some ==> 1 <= v.pending_symbol->0 <= 0x1_0000_0000
    &&& v.pending_file is Some ==> 1 <= v.pending_file->0 <= 0x1_0000_0000
    &&& v.cache is Some ==> v.engine is Some && v.cache->0.generation == v.generation
        && cache_reflects(v.cache->0, v.committed)
    &&& v.cache is None ==> forall|i: int|
        0 <= i < v.committed.len() ==> !claims_vector((#[trigger] v.committed[i]).doc)
    &&& heap_in_range(v.heap_size)
}

/// The heap size is one that the writer accepts.
pub open spec fn heap_in_range(heap: usize) -> bool {
    spec_normalized_heap_bytes(heap) == heap
}

impl DocumentIndex {
    /// The index is in a consistent state.
    pub open spec fn wf(&self) -> bool {
        consistent(self@)
    }

    /// An empty index at the given path, with the heap size and the number
    /// of retries that the settings ask for.
    pub fn new(index_path: &str, settings: &Settings) -> (r: StorageResult<Self>)
        ensures
            r is Ok,
            r->Ok_0.wf(),
            r->Ok_0@ == (IndexView {
                index_path: index_path@,
                heap_size: heap_for(settings.indexing.tantivy_heap_mb),
                max_retry_attempts: settings.indexing.max_retry_attempts,
                committed: Seq::empty(),
                generation: 0,
                batch: None,
                pending_symbol: None,
                pending_file: None,
                vector_storage_path: None,
                engine: None,
                embedding_generator: false,
                cache: None,
                pending_embeddings: Seq::empty(),
            }),
    {
        let megabytes = settings.indexing.tantivy_heap_mb;
        let requested = if megabytes > usize::MAX / 1000000 {
            usize::MAX
        } else {
            megabytes * 1000000
        };
        let index = DocumentIndex {
            index_path: index_path.to_owned(),
            heap_size: normalized_heap_bytes(requested),
            max_retry_attempts: settings.indexing.max_retry_attempts,
            committed: Vec::new(),
            next_segment: 0,
            batch: None,
            pending_symbol_counter: None,
            pending_file_counter: None,
            vector_storage_path: None,
            vector_engine: None,
            embedding_generator: false,
            cluster_cache: None,
            pending_embeddings: Vec::new(),
        };
        proof {
            assert(index@.committed =~= Seq::<StoredDocView>::empty());
            assert(index@.pending_embeddings =~= Seq::<(SymbolId, Seq<char>)>::empty());
        }
        Ok(index)
    }

    /// The documents that readers see.
    pub closed spec fn stored_docs(&self) -> Seq<StoredDoc> {
        self.committed@
    }

    /// The documents that readers see, for the lookups of this crate.
    pub(crate) fn stored(&self) -> (r: &Vec<StoredDoc>)
        ensures
            r@ == self.stored_docs(),
            stored_views(r@) == self@.committed,
    {
        &self.committed
    }

    /// Whether vector search is enabled.
    pub fn has_vector_support(&self) -> (r: bool)
        ensures
            r == self@.engine is Some,
    {
        self.vector_engine.is_some()
    }

    /// The path where the vectors are stored, where vector search is
    /// enabled.
    pub fn vector_storage_path(&self) -> (r: Option<&str>)
        ensures
            opt_str_view(r) == self@.vector_storage_path,
    {
        match &self.vector_storage_path {
            Some(p) => Some(p.as_str()),
            None => None,
        }
    }

    /// The vector engine, where vector search is enabled.
    pub fn vector_engine(&self) -> (r: Option<&VectorSearchEngine>)
        ensures
            r is Some == self@.engine is Some,
            r is Some ==> r->0@ == self@.engine->0,
    {
        self.vector_engine.as_ref()
    }

    /// The path where the index is stored.
    pub fn path(&self) -> (r: &str)
        ensures
            r@ == self@.index_path,
    {
        self.index_path.as_str()
    }

    /// The number of documents that readers see.
    pub fn document_count(&self) -> (r: StorageResult<u64>)
        ensures
            r is Ok,
            r->Ok_0 as nat == self@.committed.len(),
    {
        Ok(self.committed.len() as u64)
    }

    /// Whether a batch is open.
    pub fn has_active_batch(&self) -> (r: bool)
        ensures
            r == self@.batch is Some,
    {
        self.batch.is_some()
    }

    /// The generation of the reader: the number of commits so far.
    pub fn generation(&self) -> (r: u64)
        ensures
            r == self@.generation,
    {
        self.next_segment as u64
    }
}

// ---------------------------------------------------------------------------
// Proofs about valid documents
// ---------------------------------------------------------------------------

/// An operation on valid documents, adding at most a valid document, leaves
/// valid documents.
pub proof fn lemma_apply_op_valid(
    docs: Seq<StoredDocView>,
    op: WriteOpView,
    segment: u32,
    doc_id: DocId,
    engine: Option<Seq<(u32, u32)>>,
)
    requires
        docs_valid(docs, engine),
        op matches WriteOpView::Add(d) ==> valid_doc(d) && vector_known(d, engine),
    ensures
        docs_valid(apply_op(docs, op, segment, doc_id), engine),
{
    let after = apply_op(docs, op, segment, doc_id);
    match op {
        WriteOpView::Add(d) => {
            assert forall|i: int| 0 <= i < after.len() implies valid_doc((#[trigger] after[i]).doc)
                && vector_known(after[i].doc, engine) by {
                if i < docs.len() {
                    assert(after[i] == docs[i]);
                }
            }
        },
        _ => {
            lemma_survivors(docs, op, docs.len() as int);
            assert forall|i: int| 0 <= i < after.len() implies valid_doc((#[trigger] after[i]).doc)
                && vector_known(after[i].doc, engine) by {
                assert(is_among(docs, docs.len() as int, after[i]));
                let j = choose|j: int| 0 <= j < docs.len() && #[trigger] docs[j] == after[i];
                assert(valid_doc(docs[j].doc));
            }
        },
    }
}

/// A metadata document is valid and claims no vector.
pub proof fn lemma_metadata_doc_valid(key: Seq<char>, value: u64, engine: Option<Seq<(u32, u32)>>)
    ensures
        valid_doc(metadata_doc(key, value)),
        vector_known(metadata_doc(key, value), engine),
{
    lemma_doc_types_differ();
    let d = metadata_doc(key, value);
    assert(d.len() == NUM_FIELDS);
}

/// Valid documents stay valid when the engine learns of more vectors.
pub proof fn lemma_docs_valid_grows(
    docs: Seq<StoredDocView>,
    old_engine: Option<Seq<(u32, u32)>>,
    new_engine: Option<Seq<(u32, u32)>>,
)
    requires
        docs_valid(docs, old_engine),
        old_engine is Some ==> new_engine is Some && forall|v: u32|
            assigned(old_engine->0, v) is Some ==> assigned(new_engine->0, v) is Some,
    ensures
        docs_valid(docs, new_engine),
{
    assert forall|i: int| 0 <= i < docs.len() implies valid_doc((#[trigger] docs[i]).doc)
        && vector_known(docs[i].doc, new_engine) by {
        assert(vector_known(docs[i].doc, old_engine));
    }
}

// ---------------------------------------------------------------------------
// Building the cluster cache
// ---------------------------------------------------------------------------

/// Builds the cluster cache of the documents for a generation.
fn build_cache(docs: &Vec<StoredDoc>, generation: u64) -> (r: ClusterCache)
    ensures
        r@.generation == generation,
        cache_reflects(r@, stored_views(docs@)),
{
    let s = IndexSchema::handles();
    let ghost dv = stored_views(docs@);
    let mut cache = ClusterCache::new(generation);
    let mut i: usize = 0;
    while i < docs.len()
        invariant
            i <= docs.len(),
            dv == stored_views(docs@),
            s == IndexSchema::spec_handles(),
            cache@.generation == generation,
            forall|sg: u32, c: u32|
                #[trigger] docs_of(cache@, sg, c) == (if cluster_docs(dv, sg, c, i as int).len() > 0 {
                    Some(cluster_docs(dv, sg, c, i as int))
                } else {
                    None
                }),
            forall|c: u32| #[trigger] has_cluster(cache@, c) == cluster_present(dv, c, i as int),
        decreases docs.len() - i,
    {
        let ghost before = cache@;
        proof {
            assert(dv[i as int] == docs@[i as int]@);
        }
        let mut added: Option<(u32, u32)> = None;
        if docs[i].doc.has_u64(s.has_vector, 1) {
            let cluster = #[verifier::truncate]
            (match docs[i].doc.get_u64(s.cluster_id) {
                Some(c) => c,
                None => 0,
            } as u32);
            match ClusterId::new(cluster) {
                Some(cluster_id) => {
                    cache.add_document(
                        SegmentOrdinal::new(docs[i].segment),
                        cluster_id,
                        docs[i].doc_id,
                    );
                    added = Some((docs[i].segment, cluster));
                },
                None => {},
            }
        }
        proof {
            let sd = dv[i as int];
            let pair = added->0;
            assert forall|sg: u32, c: u32| #[trigger]
                docs_of(cache@, sg, c) == (if cluster_docs(dv, sg, c, i + 1).len() > 0 {
                    Some(cluster_docs(dv, sg, c, i + 1))
                } else {
                    None
                }) by {
                if added is Some && sg == pair.0 && c == pair.1 {
                    assert(cached_doc(sd, sg, c));
                    assert(docs_of(before, sg, c) == (if cluster_docs(dv, sg, c, i as int).len() > 0 {
                        Some(cluster_docs(dv, sg, c, i as int))
                    } else {
                        None
                    }));
                    if cluster_docs(dv, sg, c, i as int).len() == 0 {
                        assert(cluster_docs(dv, sg, c, i as int) =~= Seq::<DocId>::empty());
                        assert(cluster_docs(dv, sg, c, i + 1) =~= seq![sd.doc_id]);
                    }
                } else {
                    assert(!cached_doc(sd, sg, c));
                    assert(docs_of(cache@, sg, c) == docs_of(before, sg, c));
                }
            }
            assert forall|c: u32| #[trigger]
                has_cluster(cache@, c) == cluster_present(dv, c, i + 1) by {
                let here = claims_vector(sd.doc) && doc_cluster(sd.doc) == c && c != 0;
                assert(has_cluster(before, c) == cluster_present(dv, c, i as int));
                if cluster_present(dv, c, i as int) {
                    let j = choose|j: int|
                        0 <= j < i && claims_vector((#[trigger] dv[j]).doc) && doc_cluster(
                            dv[j].doc,
                        ) == c && c != 0;
                    assert(0 <= j < i + 1);
                }
                if here {
                    assert(0 <= i < i + 1 && claims_vector(dv[i as int].doc));
                }
                if cluster_present(dv, c, i + 1) {
                    let j = choose|j: int|
                        0 <= j < i + 1 && claims_vector((#[trigger] dv[j]).doc) && doc_cluster(
                            dv[j].doc,
                        ) == c && c != 0;
                    if j < i {
                        assert(cluster_present(dv, c, i as int));
                    }
                }
            }
        }
        i = i + 1;
    }
    let ghost unsorted = cache@;
    cache.sort_all();
    proof {
        assert forall|sg: u32, c: u32| (#[trigger] docs_of(cache@, sg, c)) is Some == (
        cluster_docs(dv, sg, c, dv.len() as int).len() > 0) by {
            assert(docs_of(unsorted, sg, c) is Some == (cluster_docs(
                dv,
                sg,
                c,
                dv.len() as int,
            ).len() > 0));
        }
        assert forall|sg: u32, c: u32| (#[trigger] docs_of(cache@, sg, c)) is Some implies ascending(
            docs_of(cache@, sg, c)->0,
        ) && docs_of(cache@, sg, c)->0.to_multiset() == cluster_docs(
            dv,
            sg,
            c,
            dv.len() as int,
        ).to_multiset() by {
            assert(docs_of(unsorted, sg, c) is Some);
            assert(docs_of(unsorted, sg, c)->0 == cluster_docs(dv, sg, c, dv.len() as int));
        }
        assert forall|c: u32| #[trigger]
            has_cluster(cache@, c) == cluster_present(dv, c, dv.len() as int) by {
            assert(has_cluster(unsorted, c) == cluster_present(dv, c, dv.len() as int));
        }
    }
    cache
}

// ---------------------------------------------------------------------------
// Batches
// ---------------------------------------------------------------------------

/// The result is the error of a write without an open batch.
pub open spec fn no_active_batch<T>(r: StorageResult<T>) -> bool {
    r matches Err(StorageError::NoActiveBatch)
}

/// The text that is embedded for a symbol: its name, its kind and its
/// signature, each followed by a space but the last.
pub open spec fn embedding_text(name: Seq<char>, kind: SymbolKind, signature: Option<Seq<char>>) -> Seq<
    char,
> {
    name + " "@ + kind.spec_name() + " "@ + (match signature {
        Some(s) => s,
        None => Seq::empty(),
    })
}

/// The value kept under a metadata key among the documents.
fn read_metadata(docs: &Vec<StoredDoc>, key: &str) -> (r: Option<u64>)
    ensures
        r == metadata_value(stored_views(docs@), key@),
{
    let s = IndexSchema::handles();
    let mut terms: Vec<Term> = Vec::new();
    terms.push(Term::text(s.doc_type, "metadata"));
    terms.push(Term::text(s.meta_key, key));
    proof {
        assert(term_views(terms@) =~= metadata_terms(key@));
    }
    let found = find_hits(docs, &terms, 1);
    if found.len() > 0 {
        proof {
            let dv = stored_views(docs@);
            let h = all_hits(dv, metadata_terms(key@));
            assert(first_n(h, 1)[0] == h[0]);
            assert(dv[found@[0] as int] == docs@[found@[0] as int]@);
        }
        docs[found[0]].doc.get_u64(s.meta_value)
    } else {
        None
    }
}

/// Makes a pending counter durable among the documents.
fn persist(
    docs: &mut Vec<StoredDoc>,
    key: MetadataKey,
    pending: Option<u64>,
    segment: u32,
    doc_id: DocId,
    Ghost(engine): Ghost<Option<Seq<(u32, u32)>>>,
)
    requires
        docs_valid(stored_views(old(docs)@), engine),
        pending is Some ==> 1 <= pending->0 <= 0x1_0000_0000,
    ensures
        stored_views(final(docs)@) == persist_counter(
            stored_views(old(docs)@),
            key.spec_as_str(),
            pending,
            segment,
            doc_id,
        ),
        docs_valid(stored_views(final(docs)@), engine),
{
    match pending {
        Some(next) => {
            let kept = #[verifier::truncate]
            (match read_metadata(docs, key.as_str()) {
                Some(v) => v,
                None => 0,
            } as u32);
            if next - 1 > kept as u64 {
                let ghost d0 = stored_views(docs@);
                proof {
                    lemma_apply_op_valid(
                        d0,
                        WriteOpView::DeleteMetadata(key.spec_as_str()),
                        segment,
                        doc_id,
                        engine,
                    );
                    lemma_metadata_doc_valid(key.spec_as_str(), (next - 1) as u64, engine);
                    lemma_apply_op_valid(
                        apply_op(d0, WriteOpView::DeleteMetadata(key.spec_as_str()), segment, doc_id),
                        WriteOpView::Add(metadata_doc(key.spec_as_str(), (next - 1) as u64)),
                        segment,
                        doc_id,
                        engine,
                    );
                }
                apply(docs, &WriteOp::DeleteMetadata(key.as_str().to_owned()), segment, doc_id);
                apply(docs, &WriteOp::Add(metadata_document(key, next - 1)), segment, doc_id);
            }
        },
        None => {},
    }
}

impl DocumentIndex {
    /// Opens a batch unless one is open: the writer's slot is filled and the
    /// counters are read from the documents that readers see. With a batch
    /// open already, nothing changes.
    pub fn start_batch(&mut self) -> (r: StorageResult<()>)
        requires
            old(self).wf(),
        ensures
            final(self).wf(),
            r is Ok,
            old(self)@.batch is Some ==> final(self)@ == old(self)@,
            old(self)@.batch is None ==> final(self)@ == (IndexView {
                batch: Some(Seq::empty()),
                pending_symbol: Some(
                    (stored_counter(
                        old(self)@.committed,
                        MetadataKey::SymbolCounter.spec_as_str(),
                    ) + 1) as u64,
                ),
                pending_file: Some(
                    (stored_counter(old(self)@.committed, MetadataKey::FileCounter.spec_as_str())
                        + 1) as u64,
                ),
                ..old(self)@
            }),
    {
        if self.batch.is_none() {
            let symbols = #[verifier::truncate]
            (match read_metadata(&self.committed, MetadataKey::SymbolCounter.as_str()) {
                Some(v) => v,
                None => 0,
            } as u32);
            let files = #[verifier::truncate]
            (match read_metadata(&self.committed, MetadataKey::FileCounter.as_str()) {
                Some(v) => v,
                None => 0,
            } as u32);
            let ops: Vec<WriteOp> = Vec::new();
            proof {
                assert(op_views(ops@) =~= Seq::<WriteOpView>::empty());
            }
            self.batch = Some(ops);
            self.pending_symbol_counter = Some(symbols as u64 + 1);
            self.pending_file_counter = Some(files as u64 + 1);
        }
        Ok(())
    }

    /// Puts an operation at the end of the open batch.
    fn stage(&mut self, op: WriteOp) -> (r: StorageResult<()>)
        requires
            old(self).wf(),
            op@ matches WriteOpView::Add(d) ==> valid_doc(d) && vector_known(d, old(self)@.engine),
        ensures
            final(self).wf(),
            old(self)@.batch is None ==> no_active_batch(r) && final(self)@ == old(self)@,
            old(self)@.batch is Some ==> r is Ok && final(self)@ == (IndexView {
                batch: Some(old(self)@.batch->0.push(op@)),
                ..old(self)@
            }),
    {
        match self.batch.take() {
            Some(mut ops) => {
                let ghost before = op_views(ops@);
                ops.push(op);
                proof {
                    assert(op_views(ops@) =~= before.push(op@));
                }
                self.batch = Some(ops);
                Ok(())
            },
            None => Err(StorageError::NoActiveBatch),
        }
    }
}

// ---------------------------------------------------------------------------
// Writes
// ---------------------------------------------------------------------------

/// The document of a symbol is valid and claims no vector.
pub proof fn lemma_symbol_doc_valid(e: SymbolEntry, with_vector: bool, engine: Option<Seq<(u32, u32)>>)
    ensures
        valid_doc(symbol_doc(e, with_vector)),
        vector_known(symbol_doc(e, with_vector), engine),
{
    lemma_doc_types_differ();
    let d = symbol_doc(e, with_vector);
    assert(d.len() == NUM_FIELDS);
}

/// The document of a relationship between two symbols, neither of them
/// zero, is valid and claims no vector.
pub proof fn lemma_relationship_doc_valid(
    from: SymbolId,
    to: SymbolId,
    rel: RelationshipView,
    engine: Option<Seq<(u32, u32)>>,
)
    requires
        from.0 != 0,
        to.0 != 0,
    ensures
        valid_doc(relationship_doc(from, to, rel)),
        vector_known(relationship_doc(from, to, rel), engine),
{
    lemma_doc_types_differ();
    let d = relationship_doc(from, to, rel);
    assert(d.len() == NUM_FIELDS);
}

/// The documents of files and imports are valid and claim no vector.
pub proof fn lemma_plain_docs_valid(
    file_id: FileId,
    path: Seq<char>,
    hash: Seq<char>,
    timestamp: u64,
    import: ImportView,
    engine: Option<Seq<(u32, u32)>>,
)
    ensures
        valid_doc(file_info_doc(file_id, path, hash, timestamp)),
        vector_known(file_info_doc(file_id, path, hash, timestamp), engine),
        valid_doc(import_doc(import)),
        vector_known(import_doc(import), engine),
{
    lemma_doc_types_differ();
    assert(file_info_doc(file_id, path, hash, timestamp).len() == NUM_FIELDS);
    assert(import_doc(import).len() == NUM_FIELDS);
}

/// The error of a symbol number that is zero.
pub open spec fn invalid_id(r: StorageResult<()>, field: Seq<char>) -> bool {
    r matches Err(StorageError::InvalidFieldValue { field: f, reason }) && f@ == field && reason@
        == "not a valid u32"@
}

/// The result is a general error with the given message.
pub open spec fn general_error<T>(r: StorageResult<T>, message: Seq<char>) -> bool {
    r matches Err(StorageError::General(m)) && m@ == message
}

impl DocumentIndex {
    /// Adds a symbol to the open batch. With vector support the document
    /// says that the symbol has no vector yet; with an embedding generator
    /// as well, the symbol is queued for embedding.
    pub fn add_document(
        &mut self,
        symbol_id: SymbolId,
        name: &str,
        kind: SymbolKind,
        file_id: FileId,
        file_path: &str,
        line: u32,
        column: u16,
        end_line: u32,
        end_column: u16,
        doc_comment: Option<&str>,
        signature: Option<&str>,
        module: &str,
        context: Option<&str>,
        visibility: Visibility,
        scope_context: Option<ScopeContext>,
        language_id: Option<&str>,
    ) -> (r: StorageResult<()>)
        requires
            old(self).wf(),
        ensures
            final(self).wf(),
            old(self)@.batch is None ==> no_active_batch(r) && final(self)@ == old(self)@,
            old(self)@.batch is Some ==> r is Ok && final(self)@ == (IndexView {
                batch: Some(
                    old(self)@.batch->0.push(
                        WriteOpView::Add(
                            symbol_doc(
                                SymbolEntry {
                                    id: symbol_id,
                                    name: name@,
                                    kind,
                                    file_id,
                                    file_path: file_path@,
                                    range: Range {
                                        start_line: line,
                                        start_column: column,
                                        end_line,
                                        end_column,
                                    },
                                    doc_comment: opt_str_view(doc_comment),
                                    signature: opt_str_view(signature),
                                    module: module@,
                                    context: opt_str_view(context),
                                    visibility,
                                    scope: opt_scope_view(scope_context),
                                    language: opt_str_view(language_id),
                                },
                                old(self)@.engine is Some,
                            ),
                        ),
                    ),
                ),
                pending_embeddings: if old(self)@.engine is Some && old(self)@.embedding_generator {
                    old(self)@.pending_embeddings.push(
                        (symbol_id, embedding_text(name@, kind, opt_str_view(signature))),
                    )
                } else {
                    old(self)@.pending_embeddings
                },
                ..old(self)@
            }),
    {
        if self.batch.is_none() {
            return Err(StorageError::NoActiveBatch);
        }
        let with_vector = self.vector_engine.is_some();
        let range = Range { start_line: line, start_column: column, end_line, end_column };
        let doc = symbol_document(
            symbol_id,
            name,
            kind,
            file_id,
            file_path,
            range,
            doc_comment,
            signature,
            module,
            context,
            visibility,
            &scope_context,
            language_id,
            with_vector,
        );
        proof {
            lemma_symbol_doc_valid(
                SymbolEntry {
                    id: symbol_id,
                    name: name@,
                    kind,
                    file_id,
                    file_path: file_path@,
                    range,
                    doc_comment: opt_str_view(doc_comment),
                    signature: opt_str_view(signature),
                    module: module@,
                    context: opt_str_view(context),
                    visibility,
                    scope: opt_scope_view(scope_context),
                    language: opt_str_view(language_id),
                },
                with_vector,
                self@.engine,
            );
        }
        let staged = self.stage(WriteOp::Add(doc));
        if with_vector && self.embedding_generator {
            let mut text = name.to_owned();
            text.append(" ");
            text.append(kind.name());
            text.append(" ");
            match signature {
                Some(sig) => {
                    text.append(sig);
                },
                None => {
                    proof {
                        assert(text@ + Seq::<char>::empty() =~= text@);
                    }
                },
            }
            let ghost before = embeddings_view(self.pending_embeddings@);
            self.pending_embeddings.push((symbol_id, text));
            proof {
                assert(embeddings_view(self.pending_embeddings@) =~= before.push(
                    (symbol_id, embedding_text(name@, kind, opt_str_view(signature))),
                ));
            }
        }
        staged
    }

    /// Adds a symbol to the open batch, stored under the given file path. A
    /// symbol without a module path is stored with an empty one.
    pub fn index_symbol(&mut self, symbol: &Symbol, file_path: &str) -> (r: StorageResult<()>)
        requires
            old(self).wf(),
        ensures
            final(self).wf(),
            old(self)@.batch is None ==> no_active_batch(r) && final(self)@ == old(self)@,
            old(self)@.batch is Some ==> r is Ok && final(self)@ == (IndexView {
                batch: Some(
                    old(self)@.batch->0.push(
                        WriteOpView::Add(
                            symbol_doc(
                                SymbolEntry {
                                    id: symbol.id,
                                    name: symbol@.name,
                                    kind: symbol.kind,
                                    file_id: symbol.file_id,
                                    file_path: file_path@,
                                    range: symbol.range,
                                    doc_comment: symbol@.doc_comment,
                                    signature: symbol@.signature,
                                    module: match symbol@.module {
                                        Some(m) => m,
                                        None => Seq::empty(),
                                    },
                                    context: None,
                                    visibility: symbol.visibility,
                                    scope: symbol@.scope_context,
                                    language: symbol@.language_id,
                                },
                                old(self)@.engine is Some,
                            ),
                        ),
                    ),
                ),
                pending_embeddings: if old(self)@.engine is Some && old(self)@.embedding_generator {
                    old(self)@.pending_embeddings.push(
                        (symbol.id, embedding_text(symbol@.name, symbol.kind, symbol@.signature)),
                    )
                } else {
                    old(self)@.pending_embeddings
                },
                ..old(self)@
            }),
    {
        let scope = match &symbol.scope_context {
            Some(s) => Some(s.duplicate()),
            None => None,
        };
        let module: &str = match &symbol.module {
            Some(m) => m.as_str(),
            None => {
                proof {
                    reveal_strlit("");
                    assert(""@ =~= Seq::<char>::empty());
                }
                ""
            },
        };
        self.add_document(
            symbol.id,
            symbol.name.as_str(),
            symbol.kind,
            symbol.file_id,
            file_path,
            symbol.range.start_line,
            symbol.range.start_column,
            symbol.range.end_line,
            symbol.range.end_column,
            match &symbol.doc_comment {
                Some(d) => Some(d.as_str()),
                None => None,
            },
            match &symbol.signature {
                Some(d) => Some(d.as_str()),
                None => None,
            },
            module,
            None,
            symbol.visibility,
            scope,
            match &symbol.language_id {
                Some(l) => Some(l.as_str()),
                None => None,
            },
        )
    }

    /// Adds a relationship between two symbols to the open batch. A symbol
    /// number of zero is refused.
    pub fn store_relationship(&mut self, from: SymbolId, to: SymbolId, rel: &Relationship) -> (r:
        StorageResult<()>)
        requires
            old(self).wf(),
        ensures
            final(self).wf(),
            old(self)@.batch is None ==> no_active_batch(r) && final(self)@ == old(self)@,
            old(self)@.batch is Some && from.0 == 0 ==> invalid_id(r, "from_symbol_id"@) && final(self)@ == old(self)@,
            old(self)@.batch is Some && from.0 != 0 && to.0 == 0 ==> invalid_id(r, "to_symbol_id"@)
                && final(self)@ == old(self)@,
            old(self)@.batch is Some && from.0 != 0 && to.0 != 0 ==> r is Ok && final(self)@ == (
            IndexView {
                batch: Some(
                    old(self)@.batch->0.push(WriteOpView::Add(relationship_doc(from, to, rel@))),
                ),
                ..old(self)@
            }),
    {
        if self.batch.is_none() {
            return Err(StorageError::NoActiveBatch);
        }
        if from.value() == 0 {
            return Err(
                StorageError::InvalidFieldValue {
                    field: "from_symbol_id".to_owned(),
                    reason: "not a valid u32".to_owned(),
                },
            );
        }
        if to.value() == 0 {
            return Err(
                StorageError::InvalidFieldValue {
                    field: "to_symbol_id".to_owned(),
                    reason: "not a valid u32".to_owned(),
                },
            );
        }
        let doc = relationship_document(from, to, rel);
        proof {
            lemma_relationship_doc_valid(from, to, rel@, self@.engine);
        }
        self.stage(WriteOp::Add(doc))
    }

    /// Adds the record of a file to the open batch.
    pub fn store_file_info(&mut self, file_id: FileId, path: &str, hash: &str, timestamp: u64) -> (r:
        StorageResult<()>)
        requires
            old(self).wf(),
        ensures
            final(self).wf(),
            old(self)@.batch is None ==> no_active_batch(r) && final(self)@ == old(self)@,
            old(self)@.batch is Some ==> r is Ok && final(self)@ == (IndexView {
                batch: Some(
                    old(self)@.batch->0.push(
                        WriteOpView::Add(file_info_doc(file_id, path@, hash@, timestamp)),
                    ),
                ),
                ..old(self)@
            }),
    {
        let doc = file_info_document(file_id, path, hash, timestamp);
        proof {
            lemma_plain_docs_valid(
                file_id,
                path@,
                hash@,
                timestamp,
                ImportView {
                    path: Seq::empty(),
                    alias: None,
                    file_id,
                    is_glob: false,
                    is_type_only: false,
                },
                self@.engine,
            );
        }
        self.stage(WriteOp::Add(doc))
    }

    /// Adds an import to the open batch.
    pub fn store_import(&mut self, import: &Import) -> (r: StorageResult<()>)
        requires
            old(self).wf(),
        ensures
            final(self).wf(),
            old(self)@.batch is None ==> no_active_batch(r) && final(self)@ == old(self)@,
            old(self)@.batch is Some ==> r is Ok && final(self)@ == (IndexView {
                batch: Some(old(self)@.batch->0.push(WriteOpView::Add(import_doc(import@)))),
                ..old(self)@
            }),
    {
        let doc = import_document(import);
        proof {
            lemma_plain_docs_valid(
                import.file_id,
                Seq::empty(),
                Seq::empty(),
                0,
                import@,
                self@.engine,
            );
        }
        self.stage(WriteOp::Add(doc))
    }

    /// Puts a value under a metadata key in the open batch: what was kept
    /// under the key is deleted, then the new value is added.
    pub fn store_metadata(&mut self, key: MetadataKey, value: u64) -> (r: StorageResult<()>)
        requires
            old(self).wf(),
        ensures
            final(self).wf(),
            old(self)@.batch is None ==> no_active_batch(r) && final(self)@ == old(self)@,
            old(self)@.batch is Some ==> r is Ok && final(self)@ == (IndexView {
                batch: Some(
                    old(self)@.batch->0.push(WriteOpView::DeleteMetadata(key.spec_as_str())).push(
                        WriteOpView::Add(metadata_doc(key.spec_as_str(), value)),
                    ),
                ),
                ..old(self)@
            }),
    {
        if self.batch.is_none() {
            return Err(StorageError::NoActiveBatch);
        }
        let _ = self.stage(WriteOp::DeleteMetadata(key.as_str().to_owned()));
        proof {
            lemma_metadata_doc_valid(key.spec_as_str(), value, self@.engine);
        }
        self.stage(WriteOp::Add(metadata_document(key, value)))
    }

    /// Deletes the documents of a symbol in the open batch.
    pub fn delete_symbol(&mut self, id: SymbolId) -> (r: StorageResult<()>)
        requires
            old(self).wf(),
        ensures
            final(self).wf(),
            old(self)@.batch is None ==> no_active_batch(r) && final(self)@ == old(self)@,
            old(self)@.batch is Some ==> r is Ok && final(self)@ == (IndexView {
                batch: Some(old(self)@.batch->0.push(WriteOpView::DeleteSymbol(id.0 as u64))),
                ..old(self)@
            }),
    {
        self.stage(WriteOp::DeleteSymbol(id.value() as u64))
    }

    /// Deletes the relationships that start or end at a symbol in the open
    /// batch.
    pub fn delete_relationships_for_symbol(&mut self, id: SymbolId) -> (r: StorageResult<()>)
        requires
            old(self).wf(),
        ensures
            final(self).wf(),
            old(self)@.batch is None ==> no_active_batch(r) && final(self)@ == old(self)@,
            old(self)@.batch is Some ==> r is Ok && final(self)@ == (IndexView {
                batch: Some(old(self)@.batch->0.push(WriteOpView::DeleteRelationships(id.0 as u64))),
                ..old(self)@
            }),
    {
        self.stage(WriteOp::DeleteRelationships(id.value() as u64))
    }

    /// Deletes the imports of a file in the open batch.
    pub fn delete_imports_for_file(&mut self, file_id: FileId) -> (r: StorageResult<()>)
        requires
            old(self).wf(),
        ensures
            final(self).wf(),
            old(self)@.batch is None ==> no_active_batch(r) && final(self)@ == old(self)@,
            old(self)@.batch is Some ==> r is Ok && final(self)@ == (IndexView {
                batch: Some(old(self)@.batch->0.push(WriteOpView::DeleteImports(file_id.0 as u64))),
                ..old(self)@
            }),
    {
        self.stage(WriteOp::DeleteImports(file_id.value() as u64))
    }

    /// The value kept under a metadata key among the documents that readers
    /// see.
    pub fn query_metadata(&self, key: MetadataKey) -> (r: StorageResult<Option<u64>>)
        ensures
            r == Ok::<Option<u64>, StorageError>(
                metadata_value(self@.committed, key.spec_as_str()),
            ),
    {
        Ok(read_metadata(&self.committed, key.as_str()))
    }
}

// ---------------------------------------------------------------------------
// Commit
// ---------------------------------------------------------------------------

/// The documents after a batch of operations is committed in a segment,
/// with the given pending counters.
fn documents_after(
    committed: &Vec<StoredDoc>,
    ops: &Vec<WriteOp>,
    segment: u32,
    symbols: Option<u64>,
    files: Option<u64>,
    Ghost(engine): Ghost<Option<Seq<(u32, u32)>>>,
) -> (r: Vec<StoredDoc>)
    requires
        docs_valid(stored_views(committed@), engine),
        ops_valid(op_views(ops@), engine),
        symbols is Some ==> 1 <= symbols->0 <= 0x1_0000_0000,
        files is Some ==> 1 <= files->0 <= 0x1_0000_0000,
    ensures
        stored_views(r@) == docs_after(
            stored_views(committed@),
            op_views(ops@),
            segment,
            symbols,
            files,
        ),
        docs_valid(stored_views(r@), engine),
{
    let ghost before = stored_views(committed@);
    let ghost ov = op_views(ops@);
    let mut docs: Vec<StoredDoc> = Vec::new();
    let mut k: usize = 0;
    while k < committed.len()
        invariant
            k <= committed.len(),
            docs@.len() == k,
            forall|j: int| 0 <= j < k ==> (#[trigger] docs@[j])@ == committed@[j]@,
        decreases committed.len() - k,
    {
        docs.push(
            StoredDoc {
                segment: committed[k].segment,
                doc_id: committed[k].doc_id,
                doc: committed[k].doc.duplicate(),
            },
        );
        k = k + 1;
    }
    proof {
        assert(stored_views(docs@) =~= before);
    }
    let mut id: u64 = 0;
    let mut i: usize = 0;
    while i < ops.len()
        invariant
            i <= ops.len(),
            ov == op_views(ops@),
            ops_valid(ov, engine),
            id == adds_in(ov, i as int),
            id <= i,
            stored_views(docs@) == apply_ops(before, ov, segment, 0, i as int),
            docs_valid(stored_views(docs@), engine),
        decreases ops.len() - i,
    {
        proof {
            assert(ov[i as int] == ops@[i as int]@);
            lemma_apply_op_valid(stored_views(docs@), ov[i as int], segment, id, engine);
        }
        apply(&mut docs, &ops[i], segment, id);
        match &ops[i] {
            WriteOp::Add(_) => {
                id = id + 1;
            },
            _ => {},
        }
        i = i + 1;
    }
    persist(&mut docs, MetadataKey::SymbolCounter, symbols, segment, id, Ghost(engine));
    let next_id = if id == u64::MAX {
        id
    } else {
        id + 1
    };
    persist(&mut docs, MetadataKey::FileCounter, files, segment, next_id, Ghost(engine));
    docs
}

/// What became of an attempt to commit.
#[derive(Debug)]
pub enum CommitStep {
    /// The batch is committed and readers see it.
    Committed,
    /// The write failed in a way worth retrying: wait, then write again.
    Retry { delay_ms: u64 },
    /// The commit failed for good.
    Failed(StorageError),
}

/// The state once the writer is lost: the batch and its counters are gone,
/// everything else is as it was.
pub open spec fn without_batch(v: IndexView) -> IndexView {
    IndexView { batch: None, pending_symbol: None, pending_file: None, ..v }
}

/// The message of a commit that failed because the writer was killed.
pub open spec fn killed_message(e: WriterError) -> Seq<char> {
    "IndexWriter was killed by internal worker error; writer discarded. "@ + e.message@
}

/// The message of a commit that failed for good.
pub open spec fn failed_message(path: Seq<char>, e: WriterError) -> Seq<char> {
    "Tantivy commit failed after retries at '"@ + path + "': "@ + e.message@
}

impl DocumentIndex {
    /// Applies the operations to the documents that readers see, makes the
    /// pending counters durable, advances the generation, closes the batch
    /// and rebuilds the cluster cache.
    fn run_commit(&mut self, ops: Vec<WriteOp>, symbols: Option<u64>, files: Option<u64>)
        requires
            old(self).next_segment < u32::MAX,
            docs_valid(old(self)@.committed, old(self)@.engine),
            numbered_apart(old(self)@.committed),
            segments_below(old(self)@.committed, old(self)@.generation as int),
            ops_valid(op_views(ops@), old(self)@.engine),
            symbols is Some ==> 1 <= symbols->0 <= 0x1_0000_0000,
            files is Some ==> 1 <= files->0 <= 0x1_0000_0000,
            heap_in_range(old(self)@.heap_size),
        ensures
            final(self).wf(),
            commit_result(old(self)@, op_views(ops@), symbols, files, final(self)@),
    {
        let segment = self.next_segment;
        let count = ops.len();
        proof {
            assert(op_views(ops@).len() == count);
            lemma_commit_numbers_apart(
                self@.committed,
                op_views(ops@),
                segment,
                symbols,
                files,
            );
        }
        let docs = documents_after(
            &self.committed,
            &ops,
            segment,
            symbols,
            files,
            Ghost(self@.engine),
        );
        self.committed = docs;
        self.next_segment = segment + 1;
        self.batch = None;
        self.pending_symbol_counter = None;
        self.pending_file_counter = None;
        self.cluster_cache = if self.vector_engine.is_some() {
            Some(build_cache(&self.committed, (segment + 1) as u64))
        } else {
            None
        };
    }

    /// The documents that readers will see once the open batch is
    /// committed, in the order of the store: what a durable commit has to
    /// write. Nothing changes.
    pub fn preview_commit(&self) -> (r: StorageResult<Vec<Document>>)
        requires
            self.wf(),
        ensures
            self@.batch is None ==> general_error(r, "No active batch writer"@),
            self@.batch is Some ==> r is Ok && doc_views(r->Ok_0@) == contents(
                committed_after(self@),
            ),
    {
        let ops = match &self.batch {
            Some(ops) => ops,
            None => {
                return Err(StorageError::General("No active batch writer".to_owned()));
            },
        };
        let docs = documents_after(
            &self.committed,
            ops,
            self.next_segment,
            self.pending_symbol_counter,
            self.pending_file_counter,
            Ghost(self@.engine),
        );
        let mut out: Vec<Document> = Vec::new();
        let mut i: usize = 0;
        while i < docs.len()
            invariant
                i <= docs.len(),
                out@.len() == i,
                forall|j: int| 0 <= j < i ==> (#[trigger] out@[j])@ == docs@[j].doc@,
            decreases docs.len() - i,
        {
            out.push(docs[i].doc.duplicate());
            i = i + 1;
        }
        proof {
            assert(doc_views(out@) =~= contents(stored_views(docs@)));
        }
        Ok(out)
    }

    /// Commits the open batch: readers see all of its operations, or, where
    /// the commit fails, none of them.
    pub fn commit_batch(&mut self) -> (r: StorageResult<()>)
        requires
            old(self).wf(),
        ensures
            final(self).wf(),
            old(self)@.batch is None ==> general_error(r, "No active batch writer"@) && final(self)@
                == old(self)@,
            old(self)@.batch is Some && old(self)@.generation == u32::MAX ==> general_error(
                r,
                "Segment ordinals are exhausted"@,
            ) && final(self)@ == old(self)@,
            old(self)@.batch is Some && old(self)@.generation < u32::MAX ==> r is Ok
                && commit_result(
                old(self)@,
                old(self)@.batch->0,
                old(self)@.pending_symbol,
                old(self)@.pending_file,
                final(self)@,
            ),
    {
        if self.batch.is_none() {
            return Err(StorageError::General("No active batch writer".to_owned()));
        }
        if self.next_segment == u32::MAX {
            return Err(StorageError::General("Segment ordinals are exhausted".to_owned()));
        }
        let ops = self.batch.take().unwrap();
        let symbols = self.pending_symbol_counter;
        let files = self.pending_file_counter;
        self.run_commit(ops, symbols, files);
        Ok(())
    }

    /// Decides what follows an attempt to write the open batch durably.
    /// `attempt` counts the attempts from zero; `outcome` is what the write
    /// reported. A write that succeeded commits the batch. A write that
    /// failed is retried after a wait where the retry policy allows it;
    /// where the writer was killed the batch is lost; any other failure
    /// leaves the batch open and the documents as they were.
    pub fn commit_attempt(&mut self, attempt: u32, outcome: Result<(), WriterError>) -> (r:
        CommitStep)
        requires
            old(self).wf(),
        ensures
            final(self).wf(),
            old(self)@.batch is None ==> (r matches CommitStep::Failed(e) && general_error(
                Err::<(), StorageError>(e),
                "No active batch writer"@,
            )) && final(self)@ == old(self)@,
            old(self)@.batch is Some && outcome is Ok && old(self)@.generation == u32::MAX ==> (r
                matches CommitStep::Failed(e) && general_error(
                Err::<(), StorageError>(e),
                "Segment ordinals are exhausted"@,
            )) && final(self)@ == old(self)@,
            old(self)@.batch is Some && outcome is Ok && old(self)@.generation < u32::MAX ==> r
                is Committed && commit_result(
                old(self)@,
                old(self)@.batch->0,
                old(self)@.pending_symbol,
                old(self)@.pending_file,
                final(self)@,
            ),
            old(self)@.batch is Some && outcome is Err && spec_writer_killed(outcome->Err_0) ==> (r
                matches CommitStep::Failed(e) && general_error(
                Err::<(), StorageError>(e),
                killed_message(outcome->Err_0),
            )) && final(self)@ == without_batch(old(self)@),
            old(self)@.batch is Some && outcome is Err && !spec_writer_killed(outcome->Err_0)
                && spec_commit_retries(
                spec_retry_class(outcome->Err_0),
                attempt,
                spec_effective_attempts(old(self)@.max_retry_attempts),
            ) ==> (r matches CommitStep::Retry { delay_ms } && backoff_base(attempt) <= delay_ms
                <= backoff_base(attempt) + backoff_spread(attempt)) && final(self)@ == old(self)@,
            old(self)@.batch is Some && outcome is Err && !spec_writer_killed(outcome->Err_0)
                && !spec_commit_retries(
                spec_retry_class(outcome->Err_0),
                attempt,
                spec_effective_attempts(old(self)@.max_retry_attempts),
            ) ==> (r matches CommitStep::Failed(e) && general_error(
                Err::<(), StorageError>(e),
                failed_message(old(self)@.index_path, outcome->Err_0),
            )) && final(self)@ == old(self)@,
    {
        if self.batch.is_none() {
            return CommitStep::Failed(
                StorageError::General("No active batch writer".to_owned()),
            );
        }
        match outcome {
            Ok(()) => {
                match self.commit_batch() {
                    Ok(()) => CommitStep::Committed,
                    Err(e) => CommitStep::Failed(e),
                }
            },
            Err(e) => {
                if is_writer_killed(&e) {
                    self.batch = None;
                    self.pending_symbol_counter = None;
                    self.pending_file_counter = None;
                    return CommitStep::Failed(
                        StorageError::General(
                            concat(
                                "IndexWriter was killed by internal worker error; writer discarded. ",
                                e.message.as_str(),
                            ),
                        ),
                    );
                }
                let class = windows_error_retry_class(&e);
                let attempts = effective_attempts(self.max_retry_attempts);
                if commit_retries(class, attempt, attempts) {
                    return CommitStep::Retry { delay_ms: backoff_with_jitter_ms(attempt) };
                }
                let mut message = "Tantivy commit failed after retries at '".to_owned();
                message.append(self.index_path.as_str());
                message.append("': ");
                message.append(e.message.as_str());
                CommitStep::Failed(StorageError::General(message))
            },
        }
    }

    /// Removes a file with everything that belongs to it: its record and
    /// symbols, its imports, and the relationships of its symbols. With a
    /// batch open the removal joins the batch; without one it is committed
    /// at once.
    pub fn remove_file_documents(&mut self, file_path: &str) -> (r: StorageResult<()>)
        requires
            old(self).wf(),
        ensures
            final(self).wf(),
            old(self)@.batch is Some ==> r is Ok && final(self)@ == (IndexView {
                batch: Some(old(self)@.batch->0.push(WriteOpView::RemoveFile(file_path@))),
                ..old(self)@
            }),
            old(self)@.batch is None && old(self)@.generation == u32::MAX ==> general_error(
                r,
                "Segment ordinals are exhausted"@,
            ) && final(self)@ == old(self)@,
            old(self)@.batch is None && old(self)@.generation < u32::MAX ==> r is Ok
                && commit_result(
                old(self)@,
                seq![WriteOpView::RemoveFile(file_path@)],
                None,
                None,
                final(self)@,
            ),
    {
        if self.batch.is_some() {
            return self.stage(WriteOp::RemoveFile(file_path.to_owned()));
        }
        if self.next_segment == u32::MAX {
            return Err(StorageError::General("Segment ordinals are exhausted".to_owned()));
        }
        let mut ops: Vec<WriteOp> = Vec::new();
        ops.push(WriteOp::RemoveFile(file_path.to_owned()));
        proof {
            assert(op_views(ops@) =~= seq![WriteOpView::RemoveFile(file_path@)]);
        }
        self.run_commit(ops, None, None);
        Ok(())
    }

    /// Deletes every document, at once. While a batch is open the writer is
    /// taken and nothing is deleted.
    pub fn clear(&mut self) -> (r: StorageResult<()>)
        requires
            old(self).wf(),
        ensures
            final(self).wf(),
            old(self)@.batch is Some ==> (r matches Err(StorageError::TantivyError(m)) && m@
                == "Failed to acquire the index writer: a batch is open"@) && final(self)@ == old(self)@,
            old(self)@.batch is None && old(self)@.generation == u32::MAX ==> general_error(
                r,
                "Segment ordinals are exhausted"@,
            ) && final(self)@ == old(self)@,
            old(self)@.batch is None && old(self)@.generation < u32::MAX ==> r is Ok
                && commit_result(old(self)@, seq![WriteOpView::DeleteAll], None, None, final(self)@)
                && final(self)@.committed.len() == 0,
    {
        if self.batch.is_some() {
            return Err(
                StorageError::TantivyError(
                    "Failed to acquire the index writer: a batch is open".to_owned(),
                ),
            );
        }
        if self.next_segment == u32::MAX {
            return Err(StorageError::General("Segment ordinals are exhausted".to_owned()));
        }
        let mut ops: Vec<WriteOp> = Vec::new();
        ops.push(WriteOp::DeleteAll);
        proof {
            assert(op_views(ops@) =~= seq![WriteOpView::DeleteAll]);
            let docs = self@.committed;
            lemma_delete_all(docs, docs.len() as int);
            let v = seq![WriteOpView::DeleteAll];
            assert(apply_ops(docs, v, self@.generation, 0, 0) == docs);
            assert(apply_ops(docs, v, self@.generation, 0, 1) == apply_op(
                docs,
                v[0],
                self@.generation,
                0,
            ));
        }
        self.run_commit(ops, None, None);
        Ok(())
    }

    // -----------------------------------------------------------------------
    // Counters
    // -----------------------------------------------------------------------

    /// The next file number. While a batch is open the numbers are handed
    /// out one after the other, so that no number is handed out twice;
    /// without a batch none is handed out and the call is refused.
    pub fn get_next_file_id(&mut self) -> (r: StorageResult<u32>)
        requires
            old(self).wf(),
        ensures
            final(self).wf(),
            counter_step(
                old(self)@.pending_file,
                r,
                final(self)@.pending_file,
                "File identifiers are exhausted"@,
            ),
            final(self)@ == (IndexView { pending_file: final(self)@.pending_file, ..old(self)@ }),
    {
        match self.pending_file_counter {
            Some(next) => {
                if next > u32::MAX as u64 {
                    return Err(
                        StorageError::General("File identifiers are exhausted".to_owned()),
                    );
                }
                self.pending_file_counter = Some(next + 1);
                Ok(next as u32)
            },
            None => Err(StorageError::NoActiveBatch),
        }
    }

    /// The next symbol number. While a batch is open the numbers are handed
    /// out one after the other, so that no number is handed out twice;
    /// without a batch none is handed out and the call is refused.
    pub fn get_next_symbol_id(&mut self) -> (r: StorageResult<u32>)
        requires
            old(self).wf(),
        ensures
            final(self).wf(),
            counter_step(
                old(self)@.pending_symbol,
                r,
                final(self)@.pending_symbol,
                "Symbol identifiers are exhausted"@,
            ),
            final(self)@ == (IndexView { pending_symbol: final(self)@.pending_symbol, ..old(self)@ }),
    {
        match self.pending_symbol_counter {
            Some(next) => {
                if next > u32::MAX as u64 {
                    return Err(
                        StorageError::General("Symbol identifiers are exhausted".to_owned()),
                    );
                }
                self.pending_symbol_counter = Some(next + 1);
                Ok(next as u32)
            },
            None => Err(StorageError::NoActiveBatch),
        }
    }

    /// Sets the next symbol number of the open batch; without a batch
    /// nothing changes. Zero is taken as one.
    pub fn update_pending_symbol_counter(&mut self, new_value: u32) -> (r: StorageResult<()>)
        requires
            old(self).wf(),
        ensures
            final(self).wf(),
            r is Ok,
            final(self)@ == (IndexView {
                pending_symbol: if old(self)@.pending_symbol is Some {
                    Some(
                        if new_value == 0 {
                            1u64
                        } else {
                            new_value as u64
                        },
                    )
                } else {
                    None
                },
                ..old(self)@
            }),
    {
        if self.pending_symbol_counter.is_some() {
            self.pending_symbol_counter = Some(
                if new_value == 0 {
                    1
                } else {
                    new_value as u64
                },
            );
        }
        Ok(())
    }
}

/// How a counter hands out a number. While a batch is open, the pending
/// number is handed out and the one after it becomes pending; once every
/// number is handed out, the call fails. Without a batch the call is
/// refused.
pub open spec fn counter_step(
    pending: Option<u64>,
    r: StorageResult<u32>,
    after: Option<u64>,
    exhausted: Seq<char>,
) -> bool {
    match pending {
        Some(next) => if next > u32::MAX {
            general_error(r, exhausted) && after == pending
        } else {
            r == Ok::<u32, StorageError>(next as u32) && after == Some((next + 1) as u64)
        },
        None => no_active_batch(r) && after == pending,
    }
}

proof fn lemma_delete_all(docs: Seq<StoredDocView>, n: int)
    requires
        0 <= n <= docs.len(),
    ensures
        survivors(docs, WriteOpView::DeleteAll, n).len() == 0,
    decreases n,
{
    if n > 0 {
        lemma_delete_all(docs, n - 1);
    }
}

// ---------------------------------------------------------------------------
// Vectors and clusters
// ---------------------------------------------------------------------------

/// Every vector that a stored or staged document claims is one that the
/// engine holds.
pub open spec fn claims_covered(v: IndexView, engine: Seq<(u32, u32)>) -> bool {
    &&& docs_valid(v.committed, Some(engine))
    &&& v.batch is Some ==> ops_valid(v.batch->0, Some(engine))
}

/// The document with its vector fields set: it has the vector `vector` in
/// the cluster `cluster`.
pub open spec fn with_cluster(d: DocView, vector: u32, cluster: u32) -> DocView {
    let d = set_num(d, F_CLUSTER_ID as int, cluster as u64);
    let d = set_num(d, F_HAS_VECTOR as int, 1);
    set_num(d, F_VECTOR_ID as int, vector as u64)
}

/// The operations that write the first `n` cluster assignments into the
/// documents: for every assigned vector whose symbol the readers see, the
/// symbol's documents are deleted and its first document is added again
/// with the cluster set.
pub open spec fn assignment_ops(docs: Seq<StoredDocView>, assignments: Seq<(u32, u32)>, n: int)
    -> Seq<WriteOpView>
    decreases n,
{
    if n <= 0 {
        Seq::empty()
    } else {
        let rest = assignment_ops(docs, assignments, n - 1);
        let pair = assignments[n - 1];
        let hits = found(docs, by_id_terms(SymbolId(pair.0), None), 1);
        if hits.len() > 0 {
            rest.push(WriteOpView::DeleteSymbol(pair.0 as u64)).push(
                WriteOpView::Add(with_cluster(docs[hits[0]].doc, pair.0, pair.1)),
            )
        } else {
            rest
        }
    }
}

/// The state once a batch is open: as it is where one is open already, else
/// with an empty batch and the counters read from the documents.
pub open spec fn started(v: IndexView) -> IndexView {
    if v.batch is Some {
        v
    } else {
        IndexView {
            batch: Some(Seq::empty()),
            pending_symbol: Some(
                (stored_counter(v.committed, MetadataKey::SymbolCounter.spec_as_str()) + 1) as u64,
            ),
            pending_file: Some(
                (stored_counter(v.committed, MetadataKey::FileCounter.spec_as_str()) + 1) as u64,
            ),
            ..v
        }
    }
}

/// What the processing of the queued symbols comes to.
pub enum VectorOutcome {
    /// No symbol was queued.
    Nothing,
    /// Vector search is not enabled.
    NoEngine,
    /// No embedding generator is at hand.
    NoGenerator,
    /// The generator returned another number of vectors than texts were
    /// queued.
    Mismatch,
    /// The assignments are recorded.
    Recorded,
}

/// What the processing of the queued symbols comes to, given the number of
/// vectors that the generator returned.
pub open spec fn vector_outcome(v: IndexView, embedded: usize) -> VectorOutcome {
    if v.pending_embeddings.len() == 0 {
        VectorOutcome::Nothing
    } else if v.engine is None {
        VectorOutcome::NoEngine
    } else if !v.embedding_generator {
        VectorOutcome::NoGenerator
    } else if embedded != v.pending_embeddings.len() {
        VectorOutcome::Mismatch
    } else {
        VectorOutcome::Recorded
    }
}

/// The message of a generator that returned the wrong number of vectors.
pub open spec fn mismatch_message(expected: nat, got: nat) -> Seq<char> {
    "Embedding count mismatch: expected "@ + decimal_digits(expected) + ", got "@
        + decimal_digits(got)
}

/// The numbers of each vector and cluster of a list.
pub open spec fn pair_numbers(v: Seq<(VectorId, ClusterId)>) -> Seq<(u32, u32)> {
    Seq::new(v.len(), |i: int| (v[i].0.spec_get(), v[i].1.spec_get()))
}

/// The cluster that the last of the first `n` pairs names for the vector.
pub open spec fn last_cluster(pairs: Seq<(u32, u32)>, vector: u32, n: int) -> Option<u32>
    decreases n,
{
    if n <= 0 {
        None
    } else if pairs[n - 1].0 == vector {
        Some(pairs[n - 1].1)
    } else {
        last_cluster(pairs, vector, n - 1)
    }
}

/// A document with a vector in a cluster, made from a valid symbol
/// document, is valid; and its vector is known to an engine that holds it.
pub proof fn lemma_with_cluster_valid(
    d: DocView,
    vector: u32,
    cluster: u32,
    engine: Option<Seq<(u32, u32)>>,
)
    requires
        valid_doc(d),
        is_symbol_doc(d),
        vector != 0,
        cluster != 0,
        engine is Some,
        assigned(engine->0, vector) is Some,
    ensures
        valid_doc(with_cluster(d, vector, cluster)),
        vector_known(with_cluster(d, vector, cluster), engine),
        is_symbol_doc(with_cluster(d, vector, cluster)),
        claims_vector(with_cluster(d, vector, cluster)),
        doc_cluster(with_cluster(d, vector, cluster)) == cluster,
{
    lemma_doc_types_differ();
    let w = with_cluster(d, vector, cluster);
    assert(w.len() == NUM_FIELDS);
    assert(text_at(w, F_DOC_TYPE as int) == text_at(d, F_DOC_TYPE as int));
    assert(num_at(w, F_SYMBOL_ID as int) == num_at(d, F_SYMBOL_ID as int));
    assert(text_at(w, F_NAME as int) == text_at(d, F_NAME as int));
    assert(text_at(w, F_KIND as int) == text_at(d, F_KIND as int));
    assert(num_at(w, F_FILE_ID as int) == num_at(d, F_FILE_ID as int));
}

proof fn lemma_assigned_entry(a: Seq<(u32, u32)>, i: int, from: int)
    requires
        0 <= from <= i < a.len(),
    ensures
        crate::vector::assigned_from(a, a[i].0, from) is Some,
    decreases i - from,
{
    if from < i && a[from].0 != a[i].0 {
        lemma_assigned_entry(a, i, from + 1);
    }
}

impl DocumentIndex {
    /// Enables vector search with the given engine and storage path. Every
    /// vector that a document of the index claims must be one that the
    /// engine holds; an index without documents claims none.
    pub fn with_vector_support(self, vector_engine: VectorSearchEngine, vector_storage_path: &str)
        -> (r: Self)
        requires
            self.wf(),
            claims_covered(self@, vector_engine@),
        ensures
            r.wf(),
            r@ == (IndexView {
                engine: Some(vector_engine@),
                vector_storage_path: Some(vector_storage_path@),
                ..self@
            }),
    {
        let mut index = self;
        index.vector_storage_path = Some(vector_storage_path.to_owned());
        index.vector_engine = Some(vector_engine);
        index
    }

    /// Says that an embedding generator is at hand: symbols added from now
    /// on are queued for embedding where vector search is enabled. The
    /// generator itself stays with the caller, who embeds the queued texts.
    pub fn with_embedding_generator(self) -> (r: Self)
        requires
            self.wf(),
        ensures
            r.wf(),
            r@ == (IndexView { embedding_generator: true, ..self@ }),
    {
        let mut index = self;
        index.embedding_generator = true;
        index
    }

    /// The symbols that wait for a vector, each with the text to embed, in
    /// the order in which they were added.
    pub fn pending_embedding_texts(&self) -> (r: Vec<(SymbolId, String)>)
        ensures
            embeddings_view(r@) == self@.pending_embeddings,
    {
        let mut out: Vec<(SymbolId, String)> = Vec::new();
        let mut i: usize = 0;
        while i < self.pending_embeddings.len()
            invariant
                i <= self.pending_embeddings.len(),
                out@.len() == i,
                forall|j: int|
                    0 <= j < i ==> (#[trigger] out@[j]).0 == self.pending_embeddings@[j].0
                        && out@[j].1@ == self.pending_embeddings@[j].1@,
            decreases self.pending_embeddings.len() - i,
        {
            out.push((self.pending_embeddings[i].0, self.pending_embeddings[i].1.clone()));
            i = i + 1;
        }
        proof {
            assert(embeddings_view(out@) =~= self@.pending_embeddings);
        }
        out
    }

    /// Takes in what the embedding generator and the vector engine made of
    /// the queued symbols: `embedded` is the number of vectors that the
    /// generator returned, `clustered` the cluster of every vector that the
    /// engine then held. The queue is emptied in any case. Without queued
    /// symbols nothing else happens. Else the call fails where vector
    /// search or the generator is missing or where the generator returned
    /// another number of vectors than texts were queued; otherwise the
    /// engine's assignments are recorded, a later one of a vector replacing
    /// an earlier one.
    pub fn post_commit_vector_processing(
        &mut self,
        embedded: usize,
        clustered: &Vec<(VectorId, ClusterId)>,
    ) -> (r: StorageResult<()>)
        requires
            old(self).wf(),
        ensures
            final(self).wf(),
            final(self)@ == (IndexView {
                pending_embeddings: Seq::empty(),
                engine: final(self)@.engine,
                ..old(self)@
            }),
            final(self)@.engine is Some == old(self)@.engine is Some,
            vector_outcome(old(self)@, embedded) != VectorOutcome::Recorded ==> final(self)@.engine
                == old(self)@.engine,
            match vector_outcome(old(self)@, embedded) {
                VectorOutcome::Nothing => r is Ok,
                VectorOutcome::NoEngine => general_error(r, "Vector engine not configured"@),
                VectorOutcome::NoGenerator => general_error(
                    r,
                    "Embedding generator not configured"@,
                ),
                VectorOutcome::Mismatch => general_error(
                    r,
                    mismatch_message(old(self)@.pending_embeddings.len(), embedded as nat),
                ),
                VectorOutcome::Recorded => r is Ok && forall|w: u32|
                    assigned(final(self)@.engine->0, w) == (match last_cluster(
                        pair_numbers(clustered@),
                        w,
                        clustered@.len() as int,
                    ) {
                        Some(c) => Some(c),
                        None => assigned(old(self)@.engine->0, w),
                    }),
            },
    {
        let queued = self.pending_embeddings.len();
        self.pending_embeddings = Vec::new();
        proof {
            assert(embeddings_view(self.pending_embeddings@) =~= Seq::<
                (SymbolId, Seq<char>),
            >::empty());
        }
        if queued == 0 {
            return Ok(());
        }
        if self.vector_engine.is_none() {
            return Err(StorageError::General("Vector engine not configured".to_owned()));
        }
        if !self.embedding_generator {
            return Err(StorageError::General("Embedding generator not configured".to_owned()));
        }
        if embedded != queued {
            let mut message = "Embedding count mismatch: expected ".to_owned();
            message.append(decimal_text(queued as u64).as_str());
            message.append(", got ");
            message.append(decimal_text(embedded as u64).as_str());
            return Err(StorageError::General(message));
        }
        let mut engine = self.vector_engine.take().unwrap();
        let ghost first = engine@;
        let ghost pairs = pair_numbers(clustered@);
        let mut i: usize = 0;
        while i < clustered.len()
            invariant
                i <= clustered.len(),
                pairs == pair_numbers(clustered@),
                forall|w: u32|
                    assigned(engine@, w) == (match last_cluster(pairs, w, i as int) {
                        Some(c) => Some(c),
                        None => assigned(first, w),
                    }),
            decreases clustered.len() - i,
        {
            proof {
                assert(pairs[i as int] == (
                    clustered@[i as int].0.spec_get(),
                    clustered@[i as int].1.spec_get(),
                ));
            }
            engine.assign(clustered[i].0, clustered[i].1);
            i = i + 1;
        }
        proof {
            assert forall|v: u32| assigned(first, v) is Some implies assigned(engine@, v)
                is Some by {}
            lemma_docs_valid_grows(old(self)@.committed, Some(first), Some(engine@));
            if old(self)@.batch is Some {
                let ops = old(self)@.batch->0;
                assert forall|k: int| 0 <= k < ops.len() implies ((#[trigger] ops[k])
                    matches WriteOpView::Add(d) ==> valid_doc(d) && vector_known(
                    d,
                    Some(engine@),
                )) by {
                    match ops[k] {
                        WriteOpView::Add(d) => {
                            assert(vector_known(d, Some(first)));
                        },
                        _ => {},
                    }
                }
            }
        }
        self.vector_engine = Some(engine);
        Ok(())
    }

    /// Builds the cluster cache unless there is one: a cache, once built, is
    /// the cache of the generation that readers see. Without vector search
    /// nothing happens.
    pub fn build_cluster_cache(&mut self) -> (r: StorageResult<()>)
        requires
            old(self).wf(),
        ensures
            final(self).wf(),
            r is Ok,
            final(self)@ == (IndexView { cache: final(self)@.cache, ..old(self)@ }),
            final(self)@.cache is Some == old(self)@.engine is Some,
            old(self)@.cache is Some ==> final(self)@.cache == old(self)@.cache,
    {
        if self.vector_engine.is_none() {
            return Ok(());
        }
        let valid = match &self.cluster_cache {
            Some(c) => c.is_valid_for_generation(self.next_segment as u64),
            None => false,
        };
        if !valid {
            self.cluster_cache = Some(build_cache(&self.committed, self.next_segment as u64));
        }
        Ok(())
    }

    /// Builds the cluster cache afresh from the documents that readers see.
    /// Without vector search nothing happens.
    pub fn warm_cluster_cache(&mut self) -> (r: StorageResult<()>)
        requires
            old(self).wf(),
        ensures
            final(self).wf(),
            r is Ok,
            final(self)@ == (IndexView { cache: final(self)@.cache, ..old(self)@ }),
            final(self)@.cache is Some == old(self)@.engine is Some,
    {
        if self.vector_engine.is_none() {
            return Ok(());
        }
        self.cluster_cache = Some(build_cache(&self.committed, self.next_segment as u64));
        Ok(())
    }

    /// Makes the latest commit visible and builds the cluster cache afresh.
    /// Readers of this index see every commit at once, so only the cache
    /// changes.
    pub fn reload_and_warm(&mut self) -> (r: StorageResult<()>)
        requires
            old(self).wf(),
        ensures
            final(self).wf(),
            r is Ok,
            final(self)@ == (IndexView { cache: final(self)@.cache, ..old(self)@ }),
            final(self)@.cache is Some == old(self)@.engine is Some,
    {
        self.warm_cluster_cache()
    }

    /// The generation that the cluster cache was built for, where there is
    /// a cache.
    pub fn get_cache_generation(&self) -> (r: StorageResult<Option<u64>>)
        ensures
            r == Ok::<Option<u64>, StorageError>(
                match self@.cache {
                    Some(c) => Some(c.generation),
                    None => None,
                },
            ),
    {
        match &self.cluster_cache {
            Some(c) => Ok(Some(c.generation())),
            None => Ok(None),
        }
    }

    /// The documents of a segment whose vectors are in a cluster, in
    /// strictly ascending order; none where there is no cache.
    pub fn get_cluster_documents(&self, segment_ord: SegmentOrdinal, cluster_id: ClusterId) -> (r:
        StorageResult<Vec<DocId>>)
        requires
            self.wf(),
        ensures
            r is Ok,
            strictly_ascending_ids(r->Ok_0@),
            r->Ok_0@ == (match self@.cache {
                Some(c) => match docs_of(c, segment_ord.spec_get(), cluster_id.spec_get()) {
                    Some(d) => d,
                    None => Seq::empty(),
                },
                None => Seq::empty(),
            }),
    {
        let mut out: Vec<DocId> = Vec::new();
        match &self.cluster_cache {
            Some(c) => {
                match c.get_documents(segment_ord, cluster_id) {
                    Some(docs) => {
                        let mut i: usize = 0;
                        while i < docs.len()
                            invariant
                                i <= docs.len(),
                                out@ == docs@.take(i as int),
                            decreases docs.len() - i,
                        {
                            out.push(docs[i]);
                            proof {
                                assert(docs@.take(i + 1) =~= docs@.take(i as int).push(
                                    docs@[i as int],
                                ));
                            }
                            i = i + 1;
                        }
                        proof {
                            assert(docs@.take(docs.len() as int) =~= docs@);
                            lemma_cached_list_strict(
                                self@.committed,
                                segment_ord.spec_get(),
                                cluster_id.spec_get(),
                                docs@,
                            );
                        }
                    },
                    None => {},
                }
            },
            None => {},
        }
        Ok(out)
    }

    /// Every cluster that some document is in, each once, in ascending
    /// order; none where there is no cache.
    pub fn get_all_cluster_ids(&self) -> (r: StorageResult<Vec<ClusterId>>)
        requires
            self.wf(),
        ensures
            r is Ok,
            strictly_ascending(r->Ok_0@),
            forall|c: u32|
                lists_cluster(r->Ok_0@, c) == cluster_present(
                    self@.committed,
                    c,
                    self@.committed.len() as int,
                ),
    {
        match &self.cluster_cache {
            Some(c) => {
                let ids = c.all_cluster_ids();
                proof {
                    assert forall|n: u32| lists_cluster(ids@, n) == cluster_present(
                        self@.committed,
                        n,
                        self@.committed.len() as int,
                    ) by {
                        assert(has_cluster(c@, n) == cluster_present(
                            self@.committed,
                            n,
                            self@.committed.len() as int,
                        ));
                    }
                }
                Ok(ids)
            },
            None => {
                let ids: Vec<ClusterId> = Vec::new();
                Ok(ids)
            },
        }
    }

    /// Writes the engine's cluster assignments into the documents. For
    /// every assigned vector whose symbol the readers see, the symbol's
    /// document is written again with the cluster set and the vector
    /// claimed; the rewrite is committed together with the open batch, if
    /// one is open. Without vector search or without assignments nothing
    /// happens.
    pub fn update_cluster_assignments(&mut self) -> (r: StorageResult<()>)
        requires
            old(self).wf(),
        ensures
            final(self).wf(),
            old(self)@.engine is None || old(self)@.engine->0.len() == 0 ==> r is Ok && final(self)@
                == old(self)@,
            old(self)@.engine is Some && old(self)@.engine->0.len() > 0 && old(self)@.generation
                == u32::MAX ==> general_error(r, "Segment ordinals are exhausted"@) && final(self)@
                == old(self)@,
            old(self)@.engine is Some && old(self)@.engine->0.len() > 0 && old(self)@.generation
                < u32::MAX ==> r is Ok && commit_result(
                started(old(self)@),
                started(old(self)@).batch->0 + assignment_ops(
                    old(self)@.committed,
                    old(self)@.engine->0,
                    old(self)@.engine->0.len() as int,
                ),
                started(old(self)@).pending_symbol,
                started(old(self)@).pending_file,
                final(self)@,
            ),
    {
        let assignments = match &self.vector_engine {
            Some(engine) => engine.get_all_cluster_assignments(),
            None => {
                return Ok(());
            },
        };
        if assignments.len() == 0 {
            return Ok(());
        }
        if self.next_segment == u32::MAX {
            return Err(StorageError::General("Segment ordinals are exhausted".to_owned()));
        }
        let ghost pre = self@;
        let ghost av = pre.engine->0;
        let _ = self.start_batch();
        let ghost begun = self@;
        proof {
            assert(begun == started(pre));
        }
        let s = IndexSchema::handles();
        let mut i: usize = 0;
        while i < assignments.len()
            invariant
                i <= assignments.len(),
                self.wf(),
                s == IndexSchema::spec_handles(),
                av == pre.engine->0,
                pre.engine is Some,
                assignments@.len() == av.len(),
                forall|j: int|
                    0 <= j < assignments@.len() ==> (#[trigger] assignments@[j]).0.spec_get()
                        == av[j].0 && assignments@[j].1.spec_get() == av[j].1
                        && assignments@[j].0.spec_get() != 0 && assignments@[j].1.spec_get() != 0,
                begun.batch is Some,
                self@ == (IndexView {
                    batch: Some(begun.batch->0 + assignment_ops(pre.committed, av, i as int)),
                    ..begun
                }),
                begun.committed == pre.committed,
                begun.engine == pre.engine,
            decreases assignments.len() - i,
        {
            let vector = assignments[i].0.get();
            let cluster = assignments[i].1.get();
            let ghost now = self@;
            let mut terms: Vec<Term> = Vec::new();
            terms.push(Term::text(s.doc_type, "symbol"));
            terms.push(Term::num(s.symbol_id, vector as u64));
            proof {
                assert(term_views(terms@) =~= by_id_terms(SymbolId(vector), None));
                lemma_found(pre.committed, by_id_terms(SymbolId(vector), None), 1);
            }
            let at = find_hits(&self.committed, &terms, 1);
            if at.len() > 0 {
                let k = at[0];
                let mut doc = self.committed[k].doc.duplicate();
                proof {
                    let hits = found(pre.committed, by_id_terms(SymbolId(vector), None), 1);
                    assert(hits[0] == k as int);
                    assert(pre.committed[k as int] == self.committed@[k as int]@);
                    assert(valid_doc(pre.committed[k as int].doc));
                    assert(crate::storage::query::all_hold(
                        pre.committed[k as int].doc,
                        by_id_terms(SymbolId(vector), None),
                    ));
                    assert(crate::storage::query::term_holds(
                        pre.committed[k as int].doc,
                        by_id_terms(SymbolId(vector), None)[0],
                    ));
                    lemma_assigned_entry(av, i as int, 0);
                    lemma_with_cluster_valid(
                        pre.committed[k as int].doc,
                        vector,
                        cluster,
                        pre.engine,
                    );
                }
                doc.add_u64(s.cluster_id, cluster as u64);
                doc.add_u64(s.has_vector, 1);
                doc.add_u64(s.vector_id, vector as u64);
                let _ = self.stage(WriteOp::DeleteSymbol(vector as u64));
                let _ = self.stage(WriteOp::Add(doc));
                proof {
                    let base = begun.batch->0;
                    let before = assignment_ops(pre.committed, av, i as int);
                    let after = assignment_ops(pre.committed, av, i + 1);
                    assert(after == before.push(WriteOpView::DeleteSymbol(vector as u64)).push(
                        WriteOpView::Add(
                            with_cluster(pre.committed[k as int].doc, vector, cluster),
                        ),
                    ));
                    assert(base + after =~= (base + before).push(
                        WriteOpView::DeleteSymbol(vector as u64),
                    ).push(
                        WriteOpView::Add(
                            with_cluster(pre.committed[k as int].doc, vector, cluster),
                        ),
                    ));
                }
            } else {
                proof {
                    assert(assignment_ops(pre.committed, av, i + 1) == assignment_ops(
                        pre.committed,
                        av,
                        i as int,
                    ));
                }
            }
            i = i + 1;
        }
        self.commit_batch()
    }
}

// ---------------------------------------------------------------------------
// Closing and reopening
// ---------------------------------------------------------------------------

/// The content of each document of a list.
pub open spec fn doc_views(v: Seq<Document>) -> Seq<DocView> {
    Seq::new(v.len(), |i: int| v[i]@)
}

/// The content of the documents that are stored, in the order of the store.
pub open spec fn contents(docs: Seq<StoredDocView>) -> Seq<DocView> {
    Seq::new(docs.len(), |i: int| docs[i].doc)
}

/// The documents as a reopened index stores them: all in the first segment,
/// numbered in their order.
pub open spec fn reopened(docs: Seq<DocView>) -> Seq<StoredDocView> {
    Seq::new(docs.len(), |i: int| StoredDocView { segment: 0, doc_id: i as DocId, doc: docs[i] })
}

/// What the index reads of an optional engine.
pub open spec fn engine_view(engine: Option<VectorSearchEngine>) -> Option<Seq<(u32, u32)>> {
    match engine {
        Some(e) => Some(e@),
        None => None,
    }
}

/// Every document is valid and claims no vector that the engine lacks.
pub open spec fn all_acceptable(docs: Seq<DocView>, engine: Option<Seq<(u32, u32)>>) -> bool {
    forall|i: int| 0 <= i < docs.len() ==> valid_doc(#[trigger] docs[i]) && vector_known(docs[i], engine)
}

/// The result is the error of a document that the index does not accept.
pub open spec fn corrupted<T>(r: StorageResult<T>) -> bool {
    r matches Err(StorageError::InvalidFieldValue { field, reason }) && field@ == "document"@
        && reason@ == "missing a required field or holding a value of the wrong kind"@
}

fn in_u32(n: Option<u64>) -> (r: bool)
    ensures
        r == (n is Some && 1 <= n->0 <= u32::MAX),
{
    match n {
        Some(v) => 1 <= v && v <= u32::MAX as u64,
        None => false,
    }
}

/// Whether the index accepts the document.
fn acceptable(doc: &Document, engine: &Option<VectorSearchEngine>) -> (r: bool)
    ensures
        r == (valid_doc(doc@) && vector_known(doc@, engine_view(*engine))),
{
    let s = IndexSchema::handles();
    if doc.values.len() != NUM_FIELDS {
        return false;
    }
    let symbol = doc.has_text(s.doc_type, "symbol");
    if symbol {
        if doc.get_u64(s.symbol_id).is_none() || doc.get_text(s.name).is_none() || doc.get_text(
            s.kind,
        ).is_none() || doc.get_u64(s.file_id).is_none() {
            return false;
        }
    }
    if doc.has_text(s.doc_type, "relationship") {
        if !in_u32(doc.get_u64(s.from_symbol_id)) || !in_u32(doc.get_u64(s.to_symbol_id)) {
            return false;
        }
    }
    if doc.has_u64(s.has_vector, 1) {
        if !symbol || !in_u32(doc.get_u64(s.cluster_id)) || !in_u32(doc.get_u64(s.vector_id)) {
            return false;
        }
        let vector = doc.get_u64(s.vector_id).unwrap() as u32;
        match engine {
            Some(e) => e.cluster_of_number(vector).is_some(),
            None => false,
        }
    } else {
        match doc.get_u64(s.cluster_id) {
            Some(c) => c == 0,
            None => true,
        }
    }
}

impl DocumentIndex {
    /// The documents that readers see, in the order of the store: what has
    /// to be kept for the index to be opened again.
    pub fn snapshot(&self) -> (r: Vec<Document>)
        ensures
            doc_views(r@) == contents(self@.committed),
    {
        let mut out: Vec<Document> = Vec::new();
        let mut i: usize = 0;
        while i < self.committed.len()
            invariant
                i <= self.committed.len(),
                out@.len() == i,
                forall|j: int| 0 <= j < i ==> (#[trigger] out@[j])@ == self.committed@[j].doc@,
            decreases self.committed.len() - i,
        {
            out.push(self.committed[i].doc.duplicate());
            i = i + 1;
        }
        proof {
            assert(doc_views(out@) =~= contents(self@.committed));
        }
        out
    }

    /// Opens an index again from the documents that were kept of it, with
    /// the vector engine and storage path where vector search is to be
    /// enabled. The index is opened where it accepts every document; a
    /// document that lacks a required field, holds a value of the wrong
    /// kind or claims a vector that the engine lacks makes the call fail.
    pub fn open(
        index_path: &str,
        settings: &Settings,
        documents: Vec<Document>,
        vector_engine: Option<VectorSearchEngine>,
        vector_storage_path: Option<&str>,
    ) -> (r: StorageResult<Self>)
        ensures
            !all_acceptable(doc_views(documents@), engine_view(vector_engine)) ==> corrupted(r),
            all_acceptable(doc_views(documents@), engine_view(vector_engine)) ==> r is Ok && r->Ok_0.wf() && r->Ok_0@ == (IndexView {
                index_path: index_path@,
                heap_size: heap_for(settings.indexing.tantivy_heap_mb),
                max_retry_attempts: settings.indexing.max_retry_attempts,
                committed: reopened(doc_views(documents@)),
                generation: 1,
                batch: None,
                pending_symbol: None,
                pending_file: None,
                vector_storage_path: opt_str_view(vector_storage_path),
                engine: engine_view(vector_engine),
                embedding_generator: false,
                cache: r->Ok_0@.cache,
                pending_embeddings: Seq::empty(),
            }) && r->Ok_0@.cache is Some == vector_engine is Some,
    {
        let ghost engine = engine_view(vector_engine);
        let ghost dv = doc_views(documents@);
        let mut committed: Vec<StoredDoc> = Vec::new();
        let mut i: usize = 0;
        while i < documents.len()
            invariant
                i <= documents.len(),
                dv == doc_views(documents@),
                engine == engine_view(vector_engine),
                committed@.len() == i,
                forall|j: int|
                    0 <= j < i ==> (#[trigger] committed@[j])@ == (StoredDocView {
                        segment: 0,
                        doc_id: j as DocId,
                        doc: dv[j],
                    }),
                forall|j: int| 0 <= j < i ==> valid_doc(#[trigger] dv[j]) && vector_known(dv[j], engine),
            decreases documents.len() - i,
        {
            proof {
                assert(dv[i as int] == documents@[i as int]@);
            }
            if !acceptable(&documents[i], &vector_engine) {
                return Err(
                    StorageError::InvalidFieldValue {
                        field: "document".to_owned(),
                        reason: "missing a required field or holding a value of the wrong kind".to_owned(),
                    },
                );
            }
            committed.push(
                StoredDoc { segment: 0, doc_id: i as u64, doc: documents[i].duplicate() },
            );
            i = i + 1;
        }
        proof {
            assert(stored_views(committed@) =~= reopened(dv));
            lemma_reopened_numbers_apart(dv);
        }
        let megabytes = settings.indexing.tantivy_heap_mb;
        let requested = if megabytes > usize::MAX / 1000000 {
            usize::MAX
        } else {
            megabytes * 1000000
        };
        let cluster_cache = if vector_engine.is_some() {
            Some(build_cache(&committed, 1))
        } else {
            None
        };
        let index = DocumentIndex {
            index_path: index_path.to_owned(),
            heap_size: normalized_heap_bytes(requested),
            max_retry_attempts: settings.indexing.max_retry_attempts,
            committed,
            next_segment: 1,
            batch: None,
            pending_symbol_counter: None,
            pending_file_counter: None,
            vector_storage_path: opt_to_owned(vector_storage_path),
            vector_engine,
            embedding_generator: false,
            cluster_cache,
            pending_embeddings: Vec::new(),
        };
        proof {
            assert(index@.pending_embeddings =~= Seq::<(SymbolId, Seq<char>)>::empty());
            assert(index@.vector_storage_path == opt_str_view(vector_storage_path));
        }
        Ok(index)
    }
}

} // verus!
