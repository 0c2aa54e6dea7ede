//! Term queries: conjunctions of exact matches on document fields.

use vstd::prelude::*;
use crate::storage::document::{num_at, text_at, DocView, Document};
use crate::storage::schema::Field;
use crate::vector::DocId;

verus! {

/// A document as the store keeps it: the segment it was written into, its
/// number within the segment, and its content.
#[derive(Debug)]
pub struct StoredDoc {
    pub segment: u32,
    pub doc_id: DocId,
    pub doc: Document,
}

/// The mathematical content of a [`StoredDoc`].
pub struct StoredDocView {
    pub segment: u32,
    pub doc_id: DocId,
    pub doc: DocView,
}

/// An exact match on one field: the field holds this text, or this number.
#[derive(Debug)]
pub enum Term {
    Text(Field, String),
    Num(Field, u64),
}

/// The mathematical content of a [`Term`].
pub enum TermView {
    Text(int, Seq<char>),
    Num(int, u64),
}

impl View for StoredDoc {
    type V = StoredDocView;

    open spec fn view(&self) -> StoredDocView {
        StoredDocView { segment: self.segment, doc_id: self.doc_id, doc: self.doc@ }
    }
}

impl View for Term {
    type V = TermView;

    open spec fn view(&self) -> TermView {
        match *self {
            Term::Text(f, s) => TermView::Text(f.spec_index(), s@),
            Term::Num(f, n) => TermView::Num(f.spec_index(), n),
        }
    }
}

/// The content of each stored document of a list.
pub open spec fn stored_views(v: Seq<StoredDoc>) -> Seq<StoredDocView> {
    Seq::new(v.len(), |i: int| v[i]@)
}

/// The content of each term of a list.
pub open spec fn term_views(v: Seq<Term>) -> Seq<TermView> {
    Seq::new(v.len(), |i: int| v[i]@)
}

/// The document matches the term.
pub open spec fn term_holds(d: DocView, t: TermView) -> bool {
    match t {
        TermView::Text(f, s) => text_at(d, f) == Some(s),
        TermView::Num(f, n) => num_at(d, f) == Some(n),
    }
}

/// The document matches every term.
pub open spec fn all_hold(d: DocView, terms: Seq<TermView>) -> bool {
    forall|i: int| 0 <= i < terms.len() ==> term_holds(d, #[trigger] terms[i])
}

/// The positions, among the first `n` documents, of those that match every
/// term, in ascending order.
pub open spec fn hits(docs: Seq<StoredDocView>, terms: Seq<TermView>, n: int) -> Seq<int>
    decreases n,
{
    if n <= 0 {
        Seq::empty()
    } else if all_hold(docs[n - 1].doc, terms) {
        hits(docs, terms, n - 1).push(n - 1)
    } else {
        hits(docs, terms, n - 1)
    }
}

/// The positions of all documents that match every term.
pub open spec fn all_hits(docs: Seq<StoredDocView>, terms: Seq<TermView>) -> Seq<int> {
    hits(docs, terms, docs.len() as int)
}

/// The first `limit` of a list, or all of it where it is shorter.
pub open spec fn first_n<T>(s: Seq<T>, limit: int) -> Seq<T> {
    if limit <= 0 {
        Seq::empty()
    } else if s.len() <= limit {
        s
    } else {
        s.take(limit)
    }
}

/// What a list of hits holds: exactly the positions below `n` of matching
/// documents, each once and in ascending order.
pub proof fn lemma_hits(docs: Seq<StoredDocView>, terms: Seq<TermView>, n: int)
    requires
        0 <= n <= docs.len(),
    ensures
        hits(docs, terms, n).len() <= n,
        forall|k: int|
            0 <= k < hits(docs, terms, n).len() ==> 0 <= #[trigger] hits(docs, terms, n)[k] < n
                && all_hold(docs[hits(docs, terms, n)[k]].doc, terms),
        forall|j: int, k: int|
            0 <= j < k < hits(docs, terms, n).len() ==> hits(docs, terms, n)[j] < hits(
                docs,
                terms,
                n,
            )[k],
        forall|i: int|
            0 <= i < n && all_hold(docs[i].doc, terms) ==> hits(docs, terms, n).contains(i),
    decreases n,
{
    if n > 0 {
        lemma_hits(docs, terms, n - 1);
        let h = hits(docs, terms, n - 1);
        let g = hits(docs, terms, n);
        if all_hold(docs[n - 1].doc, terms) {
            assert(g == h.push(n - 1));
            assert(g[h.len() as int] == n - 1);
            assert forall|i: int| 0 <= i < n && all_hold(docs[i].doc, terms) implies g.contains(
                i,
            ) by {
                if i < n - 1 {
                    assert(h.contains(i));
                    let k = choose|k: int| 0 <= k < h.len() && h[k] == i;
                    assert(g[k] == i);
                } else {
                    assert(g[h.len() as int] == i);
                }
            }
        } else {
            assert(g == h);
        }
    }
}

/// The hits among fewer documents are the first of the hits among more.
pub proof fn lemma_hits_prefix(docs: Seq<StoredDocView>, terms: Seq<TermView>, m: int, n: int)
    requires
        0 <= m <= n <= docs.len(),
    ensures
        hits(docs, terms, m).len() <= hits(docs, terms, n).len(),
        hits(docs, terms, m) == hits(docs, terms, n).take(hits(docs, terms, m).len() as int),
    decreases n - m,
{
    if m == n {
        assert(hits(docs, terms, n).take(hits(docs, terms, n).len() as int) =~= hits(
            docs,
            terms,
            n,
        ));
    } else {
        lemma_hits_prefix(docs, terms, m, n - 1);
        let a = hits(docs, terms, m);
        let b = hits(docs, terms, n - 1);
        let c = hits(docs, terms, n);
        if all_hold(docs[n - 1].doc, terms) {
            assert(c == b.push(n - 1));
            assert(c.take(a.len() as int) =~= b.take(a.len() as int));
        }
    }
}

impl Term {
    /// Whether the document matches the term.
    pub fn holds(&self, doc: &Document) -> (r: bool)
        ensures
            r == term_holds(doc@, self@),
    {
        match self {
            Term::Text(f, s) => doc.has_text(*f, s.as_str()),
            Term::Num(f, n) => doc.has_u64(*f, *n),
        }
    }

    /// The term that matches the documents whose field holds the text.
    pub fn text(field: Field, text: &str) -> (r: Term)
        ensures
            r@ == TermView::Text(field.spec_index(), text@),
    {
        Term::Text(field, text.to_owned())
    }

    /// The term that matches the documents whose field holds the number.
    pub fn num(field: Field, value: u64) -> (r: Term)
        ensures
            r@ == TermView::Num(field.spec_index(), value),
    {
        Term::Num(field, value)
    }
}

/// Whether the document matches every term.
pub fn matches_all(doc: &Document, terms: &Vec<Term>) -> (r: bool)
    ensures
        r == all_hold(doc@, term_views(terms@)),
{
    let mut i: usize = 0;
    while i < terms.len()
        invariant
            i <= terms.len(),
            forall|j: int| 0 <= j < i ==> term_holds(doc@, #[trigger] term_views(terms@)[j]),
        decreases terms.len() - i,
    {
        if !terms[i].holds(doc) {
            proof {
                assert(term_views(terms@)[i as int] == terms@[i as int]@);
            }
            return false;
        }
        proof {
            assert(term_views(terms@)[i as int] == terms@[i as int]@);
        }
        i = i + 1;
    }
    true
}

/// The positions of the first `limit` documents that match every term, in
/// the order of the store.
pub fn find_hits(docs: &Vec<StoredDoc>, terms: &Vec<Term>, limit: usize) -> (r: Vec<usize>)
    ensures
        r@.len() == first_n(all_hits(stored_views(docs@), term_views(terms@)), limit as int).len(),
        forall|k: int|
            0 <= k < r@.len() ==> #[trigger] r@[k] as int == first_n(
                all_hits(stored_views(docs@), term_views(terms@)),
                limit as int,
            )[k] && r@[k] < docs@.len(),
{
    let ghost dv = stored_views(docs@);
    let ghost tv = term_views(terms@);
    let mut out: Vec<usize> = Vec::new();
    if limit == 0 {
        return out;
    }
    let mut i: usize = 0;
    while i < docs.len()
        invariant
            i <= docs.len(),
            limit > 0,
            dv == stored_views(docs@),
            tv == term_views(terms@),
            out@.len() == hits(dv, tv, i as int).len(),
            out@.len() <= limit,
            forall|k: int|
                0 <= k < out@.len() ==> #[trigger] out@[k] as int == hits(dv, tv, i as int)[k]
                    && out@[k] < docs@.len(),
        decreases docs.len() - i,
    {
        if out.len() == limit {
            proof {
                lemma_hits_prefix(dv, tv, i as int, docs@.len() as int);
                let part = hits(dv, tv, i as int);
                let whole = all_hits(dv, tv);
                assert(part == whole.take(limit as int));
                if whole.len() <= limit {
                    assert(whole.take(limit as int) =~= whole);
                }
            }
            return out;
        }
        proof {
            assert(dv[i as int] == docs@[i as int]@);
        }
        if matches_all(&docs[i].doc, terms) {
            out.push(i);
        }
        i = i + 1;
    }
    proof {
        let whole = all_hits(dv, tv);
        assert(whole.len() <= limit);
    }
    out
}

} // verus!
