//! Search over symbols: a text query with optional filters by kind, module
//! and language.

use vstd::prelude::*;
use crate::error::StorageResult;
use crate::storage::document::{text_at, DocView, Document};
use crate::storage::index::DocumentIndex;
use crate::storage::matching::{
    fuzzy_ngram,
    fuzzy_ngram_exec,
    fuzzy_prefix,
    fuzzy_prefix_exec,
    has_word,
    has_word_exec,
    is_alnum,
    run_end,
    word_starts,
};
use crate::storage::query::{
    all_hold,
    first_n,
    matches_all,
    stored_views,
    term_views,
    StoredDocView,
    Term,
    TermView,
};
use crate::storage::reads::{language_terms, symbol_terms};
use crate::storage::schema::{
    F_COLUMN,
    F_CONTEXT,
    F_DOC_COMMENT,
    F_FILE_PATH,
    F_KIND,
    F_LINE_NUMBER,
    F_MODULE,
    F_NAME,
    F_NAME_TEXT,
    F_SIGNATURE,
    F_SYMBOL_ID,
    IndexSchema,
    NGRAM_MAX,
    NGRAM_MIN,
};
use crate::storage::shapes::{num_or, opt_str_view};
use crate::text::{chars_of, contains_seq, find_seq, opt_to_owned, opt_view};
use crate::types::{SymbolId, SymbolKind};

verus! {

/// A region of a field that matched.
#[derive(Debug, Clone)]
pub struct TextHighlight {
    pub field: String,
    pub start: usize,
    pub end: usize,
}

/// A symbol found by a search.
#[derive(Debug, Clone)]
pub struct SearchResult {
    pub symbol_id: SymbolId,
    pub name: String,
    pub kind: SymbolKind,
    pub file_path: String,
    pub line: u32,
    pub column: u16,
    pub doc_comment: Option<String>,
    pub signature: Option<String>,
    pub module: String,
    pub highlights: Vec<TextHighlight>,
    pub context: Option<String>,
}

/// The mathematical content of a [`SearchResult`]; of its highlights, their
/// number.
pub struct SearchResultView {
    pub symbol_id: SymbolId,
    pub name: Seq<char>,
    pub kind: SymbolKind,
    pub file_path: Seq<char>,
    pub line: u32,
    pub column: u16,
    pub doc_comment: Option<Seq<char>>,
    pub signature: Option<Seq<char>>,
    pub module: Seq<char>,
    pub highlights: nat,
    pub context: Option<Seq<char>>,
}

impl View for SearchResult {
    type V = SearchResultView;

    open spec fn view(&self) -> SearchResultView {
        SearchResultView {
            symbol_id: self.symbol_id,
            name: self.name@,
            kind: self.kind,
            file_path: self.file_path@,
            line: self.line,
            column: self.column,
            doc_comment: opt_view(self.doc_comment),
            signature: opt_view(self.signature),
            module: self.module@,
            highlights: self.highlights@.len(),
            context: opt_view(self.context),
        }
    }
}

/// The content of each result of a list.
pub open spec fn result_views(v: Seq<SearchResult>) -> Seq<SearchResultView> {
    Seq::new(v.len(), |i: int| v[i]@)
}

// ---------------------------------------------------------------------------
// The query
// ---------------------------------------------------------------------------

/// A character that the query syntax gives a meaning of its own.
pub open spec fn is_special(c: char) -> bool {
    c == '{' || c == '}' || c == '<' || c == '>' || c == '(' || c == ')' || c == '[' || c == ']'
        || c == '"' || c == ':' || c == '^' || c == '~' || c == '*' || c == '\\'
}

/// The query can be read as a list of terms: it holds no special
/// character.
pub open spec fn parses(q: Seq<char>) -> bool {
    forall|i: int| 0 <= i < q.len() ==> !is_special(#[trigger] q[i])
}

pub open spec fn is_blank(c: char) -> bool {
    c == ' ' || c == '\t' || c == '\n' || c == '\r'
}

/// Where the term of the query that holds position `i` ends.
pub open spec fn term_end(q: Seq<char>, i: int) -> int
    decreases q.len() - i,
{
    if i < 0 || i >= q.len() || is_blank(q[i]) {
        i
    } else {
        term_end(q, i + 1)
    }
}

/// A term of the query starts at position `lo`.
pub open spec fn term_starts(q: Seq<char>, lo: int) -> bool {
    0 <= lo < q.len() && !is_blank(q[lo]) && (lo == 0 || is_blank(q[lo - 1]))
}

/// The term is part of the name: it has three characters or more and stands
/// in the name as it is written.
pub open spec fn gram_match(name: Option<Seq<char>>, term: Seq<char>) -> bool {
    name is Some && term.len() >= NGRAM_MIN && contains_seq(name->0, term)
}

/// The term is a word of the text, whatever the case of its letters.
pub open spec fn word_in(text: Option<Seq<char>>, term: Seq<char>) -> bool {
    text is Some && has_word(text->0, term)
}

/// The term matches the document: it is part of the name, or a word of the
/// documentation, the signature or the context.
pub open spec fn term_matches(d: DocView, term: Seq<char>) -> bool {
    gram_match(text_at(d, F_NAME_TEXT as int), term) || word_in(
        text_at(d, F_DOC_COMMENT as int),
        term,
    ) || word_in(text_at(d, F_SIGNATURE as int), term) || word_in(
        text_at(d, F_CONTEXT as int),
        term,
    )
}

/// Some term of the query matches the document.
pub open spec fn parsed_match(d: DocView, q: Seq<char>) -> bool {
    exists|lo: int|
        term_starts(q, lo) && term_matches(d, #[trigger] q.subrange(lo, term_end(q, lo)))
}

/// The character is what the other becomes in lower case.
pub open spec fn lowers_to(t: char, c: char) -> bool {
    if 'A' <= t <= 'Z' {
        c as u32 == t as u32 + 32
    } else {
        c == t
    }
}

/// The text is what the word becomes in lower case.
pub open spec fn word_lowers_to(word: Seq<char>, text: Seq<char>) -> bool {
    word.len() == text.len() && forall|i: int|
        0 <= i < word.len() ==> lowers_to(#[trigger] word[i], text[i])
}

/// The whole query is, in lower case, a word of the text.
pub open spec fn literal_word(text: Option<Seq<char>>, q: Seq<char>) -> bool {
    text is Some && exists|lo: int|
        word_starts(text->0, lo) && word_lowers_to(
            #[trigger] text->0.subrange(lo, run_end(text->0, lo)),
            q,
        )
}

/// The whole query is an n-gram of the name: 3 to 10 characters that stand
/// in the name.
pub open spec fn literal_gram(name: Option<Seq<char>>, q: Seq<char>) -> bool {
    name is Some && NGRAM_MIN <= q.len() <= NGRAM_MAX && contains_seq(name->0, q)
}

/// The query, taken as it is written, is a search term of the document.
pub open spec fn literal_match(d: DocView, q: Seq<char>) -> bool {
    literal_gram(text_at(d, F_NAME_TEXT as int), q) || literal_word(
        text_at(d, F_DOC_COMMENT as int),
        q,
    ) || literal_word(text_at(d, F_SIGNATURE as int), q) || literal_word(
        text_at(d, F_CONTEXT as int),
        q,
    )
}

/// The query is within one edit of the start of an n-gram of the name.
pub open spec fn fuzzy_name_text(d: DocView, q: Seq<char>) -> bool {
    text_at(d, F_NAME_TEXT as int) is Some && fuzzy_ngram(q, text_at(d, F_NAME_TEXT as int)->0)
}

/// The query is within one edit of a prefix of the whole name.
pub open spec fn fuzzy_name(d: DocView, q: Seq<char>) -> bool {
    text_at(d, F_NAME as int) is Some && fuzzy_prefix(q, text_at(d, F_NAME as int)->0)
}

/// The text of the query matches the document: one of its terms does, or,
/// where the query cannot be read as terms, the query as it is written; or
/// the query is within one edit of the start of an n-gram of the name, or of
/// a prefix of the whole name.
pub open spec fn text_matches(d: DocView, q: Seq<char>) -> bool {
    (if parses(q) {
        parsed_match(d, q)
    } else {
        literal_match(d, q)
    }) || fuzzy_name_text(d, q) || fuzzy_name(d, q)
}

/// The filters of a search, as terms: symbols only, then the kind, the
/// module and the language where they are given.
pub open spec fn filter_terms(
    kind: Option<SymbolKind>,
    module: Option<Seq<char>>,
    language: Option<Seq<char>>,
) -> Seq<TermView> {
    symbol_terms(
        (match kind {
            Some(k) => seq![TermView::Text(F_KIND as int, k.spec_name())],
            None => Seq::empty(),
        }) + (match module {
            Some(m) => seq![TermView::Text(F_MODULE as int, m)],
            None => Seq::empty(),
        }) + language_terms(language),
    )
}

/// The document is a hit of the search.
pub open spec fn is_search_hit(d: DocView, q: Seq<char>, filters: Seq<TermView>) -> bool {
    all_hold(d, filters) && text_matches(d, q)
}

/// The positions, among the first `n` documents, of the hits of the search,
/// in ascending order.
pub open spec fn search_hits(docs: Seq<StoredDocView>, q: Seq<char>, filters: Seq<TermView>, n: int)
    -> Seq<int>
    decreases n,
{
    if n <= 0 {
        Seq::empty()
    } else if is_search_hit(docs[n - 1].doc, q, filters) {
        search_hits(docs, q, filters, n - 1).push(n - 1)
    } else {
        search_hits(docs, q, filters, n - 1)
    }
}

/// What a search reports of a document: what the document holds of the
/// symbol, and no highlights.
pub open spec fn doc_result(d: DocView) -> SearchResultView {
    SearchResultView {
        symbol_id: SymbolId(num_or(d, F_SYMBOL_ID as int, 0) as u32),
        name: match text_at(d, F_NAME as int) {
            Some(n) => n,
            None => Seq::empty(),
        },
        kind: match text_at(d, F_KIND as int) {
            Some(k) => match SymbolKind::spec_parse(k) {
                Some(kind) => kind,
                None => SymbolKind::Function,
            },
            None => SymbolKind::Function,
        },
        file_path: match text_at(d, F_FILE_PATH as int) {
            Some(p) => p,
            None => Seq::empty(),
        },
        line: num_or(d, F_LINE_NUMBER as int, 0) as u32,
        column: num_or(d, F_COLUMN as int, 0) as u16,
        doc_comment: text_at(d, F_DOC_COMMENT as int),
        signature: text_at(d, F_SIGNATURE as int),
        module: match text_at(d, F_MODULE as int) {
            Some(m) => m,
            None => Seq::empty(),
        },
        highlights: 0,
        context: text_at(d, F_CONTEXT as int),
    }
}

/// What a search reports of the documents at the given positions.
pub open spec fn results_at(docs: Seq<StoredDocView>, at: Seq<int>) -> Seq<SearchResultView> {
    Seq::new(at.len(), |k: int| doc_result(docs[at[k]].doc))
}

/// What the hits of a search are: exactly the positions below `n` of the
/// documents that pass the filters and match the text, in ascending order.
pub proof fn lemma_search_hits(
    docs: Seq<StoredDocView>,
    q: Seq<char>,
    filters: Seq<TermView>,
    n: int,
)
    requires
        0 <= n <= docs.len(),
    ensures
        search_hits(docs, q, filters, n).len() <= n,
        forall|k: int|
            0 <= k < search_hits(docs, q, filters, n).len() ==> 0 <= #[trigger] search_hits(
                docs,
                q,
                filters,
                n,
            )[k] < n && is_search_hit(docs[search_hits(docs, q, filters, n)[k]].doc, q, filters),
        forall|i: int|
            0 <= i < n && is_search_hit(docs[i].doc, q, filters) ==> search_hits(
                docs,
                q,
                filters,
                n,
            ).contains(i),
    decreases n,
{
    if n > 0 {
        lemma_search_hits(docs, q, filters, n - 1);
        let h = search_hits(docs, q, filters, n - 1);
        let g = search_hits(docs, q, filters, n);
        if is_search_hit(docs[n - 1].doc, q, filters) {
            assert(g == h.push(n - 1));
            assert(g[h.len() as int] == n - 1);
            assert forall|i: int|
                0 <= i < n && is_search_hit(docs[i].doc, q, filters) implies g.contains(i) by {
                if i < n - 1 {
                    assert(h.contains(i));
                    let k = choose|k: int| 0 <= k < h.len() && h[k] == i;
                    assert(g[k] == i);
                } else {
                    assert(g[h.len() as int] == i);
                }
            }
        } else {
            assert(g == h);
        }
    }
}

/// The hits among fewer documents are the first of the hits among more.
proof fn lemma_search_prefix(
    docs: Seq<StoredDocView>,
    q: Seq<char>,
    filters: Seq<TermView>,
    m: int,
    n: int,
)
    requires
        0 <= m <= n <= docs.len(),
    ensures
        search_hits(docs, q, filters, m).len() <= search_hits(docs, q, filters, n).len(),
        search_hits(docs, q, filters, m) == search_hits(docs, q, filters, n).take(
            search_hits(docs, q, filters, m).len() as int,
        ),
    decreases n - m,
{
    if m == n {
        let g = search_hits(docs, q, filters, n);
        assert(g.take(g.len() as int) =~= g);
    } else {
        lemma_search_prefix(docs, q, filters, m, n - 1);
        let a = search_hits(docs, q, filters, m);
        let b = search_hits(docs, q, filters, n - 1);
        let c = search_hits(docs, q, filters, n);
        if is_search_hit(docs[n - 1].doc, q, filters) {
            assert(c == b.push(n - 1));
            assert(c.take(a.len() as int) =~= b.take(a.len() as int));
        }
    }
}

// ---------------------------------------------------------------------------
// Matching a document
// ---------------------------------------------------------------------------

fn is_special_exec(c: char) -> (r: bool)
    ensures
        r == is_special(c),
{
    c == '{' || c == '}' || c == '<' || c == '>' || c == '(' || c == ')' || c == '[' || c == ']'
        || c == '"' || c == ':' || c == '^' || c == '~' || c == '*' || c == '\\'
}

fn is_blank_exec(c: char) -> (r: bool)
    ensures
        r == is_blank(c),
{
    c == ' ' || c == '\t' || c == '\n' || c == '\r'
}

fn parses_exec(q: &Vec<char>) -> (r: bool)
    ensures
        r == parses(q@),
{
    let mut i: usize = 0;
    while i < q.len()
        invariant
            i <= q.len(),
            forall|j: int| 0 <= j < i ==> !is_special(#[trigger] q@[j]),
        decreases q.len() - i,
    {
        if is_special_exec(q[i]) {
            return false;
        }
        i = i + 1;
    }
    true
}

fn term_end_exec(q: &Vec<char>, i: usize) -> (r: usize)
    requires
        i <= q.len(),
    ensures
        r == term_end(q@, i as int),
        i <= r <= q.len(),
{
    let mut j = i;
    while j < q.len() && !is_blank_exec(q[j])
        invariant
            i <= j <= q.len(),
            term_end(q@, i as int) == term_end(q@, j as int),
        decreases q.len() - j,
    {
        j = j + 1;
    }
    j
}

/// The characters of a field of the document, where it holds text.
fn field_chars(doc: &Document, field: crate::storage::schema::Field) -> (r: Option<Vec<char>>)
    ensures
        r is Some == text_at(doc@, field.spec_index()) is Some,
        r is Some ==> r->0@ == text_at(doc@, field.spec_index())->0,
{
    match doc.get_text(field) {
        Some(t) => Some(chars_of(t)),
        None => None,
    }
}

/// The text fields of a document that a search reads.
struct SearchFields {
    name_text: Option<Vec<char>>,
    name: Option<Vec<char>>,
    doc_comment: Option<Vec<char>>,
    signature: Option<Vec<char>>,
    context: Option<Vec<char>>,
}

pub open spec fn opt_chars(o: Option<Vec<char>>) -> Option<Seq<char>> {
    match o {
        Some(v) => Some(v@),
        None => None,
    }
}

impl SearchFields {
    spec fn of(&self, d: DocView) -> bool {
        &&& opt_chars(self.name_text) == text_at(d, F_NAME_TEXT as int)
        &&& opt_chars(self.name) == text_at(d, F_NAME as int)
        &&& opt_chars(self.doc_comment) == text_at(d, F_DOC_COMMENT as int)
        &&& opt_chars(self.signature) == text_at(d, F_SIGNATURE as int)
        &&& opt_chars(self.context) == text_at(d, F_CONTEXT as int)
    }

    fn read(doc: &Document) -> (r: SearchFields)
        ensures
            r.of(doc@),
    {
        let s = IndexSchema::handles();
        SearchFields {
            name_text: field_chars(doc, s.name_text),
            name: field_chars(doc, s.name),
            doc_comment: field_chars(doc, s.doc_comment),
            signature: field_chars(doc, s.signature),
            context: field_chars(doc, s.context),
        }
    }
}

fn word_in_exec(text: &Option<Vec<char>>, term: &Vec<char>) -> (r: bool)
    ensures
        r == word_in(opt_chars(*text), term@),
{
    match text {
        Some(t) => has_word_exec(t, term),
        None => false,
    }
}

fn lowers_to_exec(t: char, c: char) -> (r: bool)
    ensures
        r == lowers_to(t, c),
{
    if 'A' <= t && t <= 'Z' {
        c as u32 == t as u32 + 32
    } else {
        c == t
    }
}

fn literal_word_exec(text: &Option<Vec<char>>, q: &Vec<char>) -> (r: bool)
    ensures
        r == literal_word(opt_chars(*text), q@),
{
    let t = match text {
        Some(t) => t,
        None => {
            return false;
        },
    };
    let mut lo: usize = 0;
    while lo < t.len()
        invariant
            lo <= t.len(),
            *text == Some(*t),
            forall|j: int|
                0 <= j < lo && word_starts(t@, j) ==> !word_lowers_to(
                    #[trigger] t@.subrange(j, run_end(t@, j)),
                    q@,
                ),
        decreases t.len() - lo,
    {
        let starts = is_alnum_at(t, lo) && (lo == 0 || !is_alnum_at(t, lo - 1));
        if starts {
            let hi = word_end(t, lo);
            let ghost part = t@.subrange(lo as int, hi as int);
            if hi - lo == q.len() {
                let mut same = true;
                let mut k: usize = 0;
                while k < q.len()
                    invariant
                        k <= q.len(),
                        lo <= hi <= t.len(),
                        hi - lo == q.len(),
                        part == t@.subrange(lo as int, hi as int),
                        same == (forall|u: int| 0 <= u < k ==> lowers_to(#[trigger] part[u], q@[u])),
                    decreases q.len() - k,
                {
                    proof {
                        assert(part[k as int] == t@[lo + k]);
                    }
                    if !lowers_to_exec(t[lo + k], q[k]) {
                        same = false;
                    }
                    k = k + 1;
                }
                if same {
                    proof {
                        assert(part.len() == q@.len());
                        assert(word_lowers_to(part, q@));
                        assert(hi == run_end(t@, lo as int));
                        assert(word_starts(t@, lo as int));
                        let tv = opt_chars(*text)->0;
                        assert(tv == t@);
                        assert(word_starts(tv, lo as int) && word_lowers_to(
                            tv.subrange(lo as int, run_end(tv, lo as int)),
                            q@,
                        ));
                    }
                    return true;
                }
            }
        }
        lo = lo + 1;
    }
    false
}

fn is_alnum_at(t: &Vec<char>, i: usize) -> (r: bool)
    requires
        i < t.len(),
    ensures
        r == is_alnum(t@[i as int]),
{
    let c = t[i];
    ('a' <= c && c <= 'z') || ('A' <= c && c <= 'Z') || ('0' <= c && c <= '9') || c as u32 >= 128
}

fn word_end(t: &Vec<char>, i: usize) -> (r: usize)
    requires
        i <= t.len(),
    ensures
        r == run_end(t@, i as int),
        i <= r <= t.len(),
{
    let mut j = i;
    while j < t.len() && is_alnum_at(t, j)
        invariant
            i <= j <= t.len(),
            run_end(t@, i as int) == run_end(t@, j as int),
        decreases t.len() - j,
    {
        j = j + 1;
    }
    j
}

fn gram_in(name: &Option<Vec<char>>, term: &Vec<char>) -> (r: bool)
    ensures
        r == (name is Some && contains_seq(name->0@, term@)),
{
    match name {
        Some(n) => find_seq(n, term).is_some(),
        None => false,
    }
}

fn term_matches_exec(fields: &SearchFields, term: &Vec<char>, Ghost(d): Ghost<DocView>) -> (r: bool)
    requires
        fields.of(d),
    ensures
        r == term_matches(d, term@),
{
    (term.len() >= NGRAM_MIN && gram_in(&fields.name_text, term)) || word_in_exec(
        &fields.doc_comment,
        term,
    ) || word_in_exec(&fields.signature, term) || word_in_exec(&fields.context, term)
}

fn parsed_match_exec(fields: &SearchFields, q: &Vec<char>, Ghost(d): Ghost<DocView>) -> (r: bool)
    requires
        fields.of(d),
    ensures
        r == parsed_match(d, q@),
{
    let mut lo: usize = 0;
    while lo < q.len()
        invariant
            lo <= q.len(),
            fields.of(d),
            forall|j: int|
                0 <= j < lo && term_starts(q@, j) ==> !term_matches(
                    d,
                    #[trigger] q@.subrange(j, term_end(q@, j)),
                ),
        decreases q.len() - lo,
    {
        if !is_blank_exec(q[lo]) && (lo == 0 || is_blank_exec(q[lo - 1])) {
            let hi = term_end_exec(q, lo);
            let term = crate::storage::matching::slice_of(q, lo, hi);
            if term_matches_exec(fields, &term, Ghost(d)) {
                return true;
            }
        }
        lo = lo + 1;
    }
    false
}

/// Whether the text of the query matches the document.
pub fn text_matches_exec(doc: &Document, q: &Vec<char>) -> (r: bool)
    ensures
        r == text_matches(doc@, q@),
{
    let fields = SearchFields::read(doc);
    let main = if parses_exec(q) {
        parsed_match_exec(&fields, q, Ghost(doc@))
    } else {
        (NGRAM_MIN <= q.len() && q.len() <= NGRAM_MAX && gram_in(&fields.name_text, q))
            || literal_word_exec(&fields.doc_comment, q) || literal_word_exec(
            &fields.signature,
            q,
        ) || literal_word_exec(&fields.context, q)
    };
    if main {
        return true;
    }
    let near_gram = match &fields.name_text {
        Some(n) => fuzzy_ngram_exec(q, n),
        None => false,
    };
    if near_gram {
        return true;
    }
    match &fields.name {
        Some(n) => fuzzy_prefix_exec(q, n),
        None => false,
    }
}

/// What a search reports of a document.
fn document_to_result(doc: &Document) -> (r: SearchResult)
    ensures
        r@ == doc_result(doc@),
{
    let s = IndexSchema::handles();
    SearchResult {
        symbol_id: SymbolId(
            #[verifier::truncate]
            (match doc.get_u64(s.symbol_id) {
                Some(n) => n,
                None => 0,
            } as u32),
        ),
        name: match doc.get_text(s.name) {
            Some(n) => n.to_owned(),
            None => String::new(),
        },
        kind: match doc.get_text(s.kind) {
            Some(k) => SymbolKind::from_str_with_default(k),
            None => SymbolKind::Function,
        },
        file_path: match doc.get_text(s.file_path) {
            Some(p) => p.to_owned(),
            None => String::new(),
        },
        line: #[verifier::truncate]
        (match doc.get_u64(s.line_number) {
            Some(n) => n,
            None => 0,
        } as u32),
        column: #[verifier::truncate]
        (match doc.get_u64(s.column) {
            Some(n) => n,
            None => 0,
        } as u16),
        doc_comment: opt_to_owned(doc.get_text(s.doc_comment)),
        signature: opt_to_owned(doc.get_text(s.signature)),
        module: match doc.get_text(s.module) {
            Some(m) => m.to_owned(),
            None => String::new(),
        },
        highlights: Vec::new(),
        context: opt_to_owned(doc.get_text(s.context)),
    }
}

impl DocumentIndex {
    /// Searches the symbols. A symbol is found where the text of the query
    /// matches it and it passes every filter that is given; the first
    /// `limit` symbols found are reported, in the order of the store.
    pub fn search(
        &self,
        query_str: &str,
        limit: usize,
        kind_filter: Option<SymbolKind>,
        module_filter: Option<&str>,
        language_filter: Option<&str>,
    ) -> (r: StorageResult<Vec<SearchResult>>)
        ensures
            r is Ok,
            result_views(r->Ok_0@) == results_at(
                self@.committed,
                first_n(
                    search_hits(
                        self@.committed,
                        query_str@,
                        filter_terms(
                            kind_filter,
                            opt_str_view(module_filter),
                            opt_str_view(language_filter),
                        ),
                        self@.committed.len() as int,
                    ),
                    limit as int,
                ),
            ),
    {
        let s = IndexSchema::handles();
        let docs = self.stored();
        let q = chars_of(query_str);
        let mut terms: Vec<Term> = Vec::new();
        terms.push(Term::text(s.doc_type, "symbol"));
        match kind_filter {
            Some(k) => {
                terms.push(Term::text(s.kind, k.name()));
            },
            None => {},
        }
        match module_filter {
            Some(m) => {
                terms.push(Term::text(s.module, m));
            },
            None => {},
        }
        match language_filter {
            Some(l) => {
                terms.push(Term::text(s.language, l));
            },
            None => {},
        }
        let ghost filters = filter_terms(
            kind_filter,
            opt_str_view(module_filter),
            opt_str_view(language_filter),
        );
        proof {
            assert(term_views(terms@) =~= filters);
        }
        let ghost dv = stored_views(docs@);
        let mut out: Vec<SearchResult> = Vec::new();
        if limit == 0 {
            proof {
                assert(result_views(out@) =~= results_at(dv, Seq::<int>::empty()));
            }
            return Ok(out);
        }
        let mut i: usize = 0;
        while i < docs.len()
            invariant
                i <= docs.len(),
                limit > 0,
                dv == stored_views(docs@),
                dv == self@.committed,
                q@ == query_str@,
                filters == term_views(terms@),
                filters == filter_terms(
                    kind_filter,
                    opt_str_view(module_filter),
                    opt_str_view(language_filter),
                ),
                out@.len() == search_hits(dv, q@, filters, i as int).len(),
                out@.len() <= limit,
                forall|k: int|
                    0 <= k < out@.len() ==> (#[trigger] out@[k])@ == doc_result(
                        dv[search_hits(dv, q@, filters, i as int)[k]].doc,
                    ),
            decreases docs.len() - i,
        {
            if out.len() == limit {
                proof {
                    lemma_search_prefix(dv, q@, filters, i as int, docs@.len() as int);
                    let part = search_hits(dv, q@, filters, i as int);
                    let whole = search_hits(dv, q@, filters, dv.len() as int);
                    assert(part == whole.take(limit as int));
                    if whole.len() <= limit {
                        assert(whole.take(limit as int) =~= whole);
                    }
                    assert(result_views(out@) =~= results_at(dv, first_n(whole, limit as int)));
                }
                return Ok(out);
            }
            proof {
                assert(dv[i as int] == docs@[i as int]@);
            }
            if matches_all(&docs[i].doc, &terms) && text_matches_exec(&docs[i].doc, &q) {
                out.push(document_to_result(&docs[i].doc));
            }
            i = i + 1;
        }
        proof {
            let whole = search_hits(dv, q@, filters, dv.len() as int);
            assert(whole.len() <= limit);
            assert(result_views(out@) =~= results_at(dv, first_n(whole, limit as int)));
        }
        Ok(out)
    }
}

} // verus!
