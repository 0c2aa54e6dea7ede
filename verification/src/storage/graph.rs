//! The impact radius of a symbol: the symbols that depend on it, directly or
//! through other symbols, within a number of hops.

use vstd::prelude::*;
use crate::storage::document::{is_relationship_doc, text_at, DocView, Document};
use crate::storage::index::DocumentIndex;
use crate::storage::query::{stored_views, StoredDocView};
use crate::storage::schema::{F_RELATION_KIND, IndexSchema};
use crate::storage::shapes::{doc_from, doc_to, document_to_relationship};
use crate::relationship::RelationKind;
use crate::types::SymbolId;

verus! {

/// The document is a relationship of a kind that says its first end depends
/// on its second: calls, uses, implements, references.
pub open spec fn is_dependency(d: DocView) -> bool {
    is_relationship_doc(d) && (text_at(d, F_RELATION_KIND as int) == Some("Calls"@) || text_at(
        d,
        F_RELATION_KIND as int,
    ) == Some("Uses"@) || text_at(d, F_RELATION_KIND as int) == Some("Implements"@) || text_at(
        d,
        F_RELATION_KIND as int,
    ) == Some("References"@))
}

/// The document is a relationship of a kind that says its second end
/// depends on its first: called by, used by, implemented by, referenced by.
pub open spec fn is_dependent(d: DocView) -> bool {
    is_relationship_doc(d) && (text_at(d, F_RELATION_KIND as int) == Some("CalledBy"@) || text_at(
        d,
        F_RELATION_KIND as int,
    ) == Some("UsedBy"@) || text_at(d, F_RELATION_KIND as int) == Some("ImplementedBy"@)
        || text_at(d, F_RELATION_KIND as int) == Some("ReferencedBy"@))
}

/// The document says that `y` depends on `x`, in the one direction or in
/// the other.
pub open spec fn edge(d: DocView, x: u32, y: u32) -> bool {
    (is_dependency(d) && doc_to(d).0 == x && doc_from(d).0 == y) || (is_dependent(d) && doc_from(
        d,
    ).0 == x && doc_to(d).0 == y)
}

/// `y` depends on `x` directly: `x` is called, used, implemented or
/// referenced by `y`.
pub open spec fn depends_on(docs: Seq<StoredDocView>, x: u32, y: u32) -> bool {
    exists|i: int| 0 <= i < docs.len() && edge((#[trigger] docs[i]).doc, x, y)
}

/// The list is a chain that leads from `start` to `y`: each of its symbols
/// depends on the one before it.
pub open spec fn is_chain(docs: Seq<StoredDocView>, start: u32, y: u32, p: Seq<u32>) -> bool {
    &&& p.len() >= 1
    &&& p[0] == start
    &&& p[p.len() - 1] == y
    &&& forall|i: int| 0 <= i < p.len() - 1 ==> depends_on(docs, #[trigger] p[i], p[i + 1])
}

/// `y` is reached from `start` in `depth` hops at most, each hop going from
/// a symbol to one that depends on it.
pub open spec fn within(docs: Seq<StoredDocView>, start: u32, y: u32, depth: nat) -> bool {
    exists|p: Seq<u32>| #[trigger] is_chain(docs, start, y, p) && p.len() <= depth + 1
}

/// The number of hops in which `y` is reached first, looking `depth` hops
/// far.
pub open spec fn hops(docs: Seq<StoredDocView>, start: u32, y: u32, depth: nat) -> nat
    decreases depth,
{
    if depth == 0 {
        0
    } else if within(docs, start, y, (depth - 1) as nat) {
        hops(docs, start, y, (depth - 1) as nat)
    } else {
        depth
    }
}

/// The order of the impact radius: nearer symbols first, and among symbols
/// of the same number of hops the smaller identifier first.
pub open spec fn in_order(docs: Seq<StoredDocView>, start: u32, depth: nat, a: u32, b: u32) -> bool {
    hops(docs, start, a, depth) < hops(docs, start, b, depth) || (hops(docs, start, a, depth)
        == hops(docs, start, b, depth) && a < b)
}

/// The numbers of the symbols of a list.
pub open spec fn numbers(v: Seq<SymbolId>) -> Seq<u32> {
    Seq::new(v.len(), |i: int| v[i].0)
}

/// `y` was reached by hop `depth` and not before.
pub open spec fn on_level(docs: Seq<StoredDocView>, start: u32, y: u32, depth: nat) -> bool {
    within(docs, start, y, depth) && (depth > 0 ==> !within(docs, start, y, (depth - 1) as nat))
}

/// Without a hop only the start is reached.
proof fn lemma_no_hop(docs: Seq<StoredDocView>, start: u32, y: u32)
    ensures
        within(docs, start, y, 0) == (y == start),
{
    if y == start {
        assert(is_chain(docs, start, y, seq![start]));
    }
    if within(docs, start, y, 0) {
        let p = choose|p: Seq<u32>| #[trigger] is_chain(docs, start, y, p) && p.len() <= 1;
        assert(p[0] == start);
    }
}

/// One more hop reaches what was reached before and what depends on it.
proof fn lemma_one_more_hop(docs: Seq<StoredDocView>, start: u32, y: u32, depth: nat)
    ensures
        within(docs, start, y, depth + 1) == (within(docs, start, y, depth) || exists|x: u32|
            #[trigger] within(docs, start, x, depth) && depends_on(docs, x, y)),
        hops(docs, start, y, depth + 1) == (if within(docs, start, y, depth) {
            hops(docs, start, y, depth)
        } else {
            depth + 1
        }),
{
    assert(((depth + 1) - 1) as nat == depth);
    if within(docs, start, y, depth) {
        let p = choose|p: Seq<u32>| #[trigger] is_chain(docs, start, y, p) && p.len() <= depth + 1;
        assert(is_chain(docs, start, y, p) && p.len() <= depth + 1 + 1);
    }
    if exists|x: u32| #[trigger] within(docs, start, x, depth) && depends_on(docs, x, y) {
        let x = choose|x: u32| #[trigger] within(docs, start, x, depth) && depends_on(docs, x, y);
        let p = choose|p: Seq<u32>| #[trigger] is_chain(docs, start, x, p) && p.len() <= depth + 1;
        let q = p.push(y);
        assert forall|i: int| 0 <= i < q.len() - 1 implies depends_on(docs, #[trigger] q[i], q[i + 1]) by {
            if i < p.len() - 1 {
                assert(q[i] == p[i] && q[i + 1] == p[i + 1]);
            } else {
                assert(q[i] == x && q[i + 1] == y);
            }
        }
        assert(is_chain(docs, start, y, q) && q.len() <= depth + 1 + 1);
    }
    if within(docs, start, y, depth + 1) && !within(docs, start, y, depth) {
        let p = choose|p: Seq<u32>|
            #[trigger] is_chain(docs, start, y, p) && p.len() <= depth + 1 + 1;
        if p.len() <= depth + 1 {
            assert(is_chain(docs, start, y, p) && p.len() <= depth + 1);
        }
        assert(p.len() == depth + 2);
        let x = p[p.len() - 2];
        let q = p.drop_last();
        assert forall|i: int| 0 <= i < q.len() - 1 implies depends_on(docs, #[trigger] q[i], q[i + 1]) by {
            assert(q[i] == p[i] && q[i + 1] == p[i + 1]);
        }
        assert(is_chain(docs, start, x, q) && q.len() <= depth + 1);
        assert(depends_on(docs, p[p.len() - 2], p[p.len() - 2 + 1]));
        assert(within(docs, start, x, depth) && depends_on(docs, x, y));
    }
}

/// What is new at the next hop depends on something that was new at this
/// hop.
proof fn lemma_next_level(docs: Seq<StoredDocView>, start: u32, y: u32, depth: nat)
    requires
        !within(docs, start, y, depth),
        within(docs, start, y, depth + 1),
    ensures
        exists|x: u32| #[trigger] on_level(docs, start, x, depth) && depends_on(docs, x, y),
{
    lemma_one_more_hop(docs, start, y, depth);
    let x = choose|x: u32| #[trigger] within(docs, start, x, depth) && depends_on(docs, x, y);
    if depth > 0 && within(docs, start, x, (depth - 1) as nat) {
        lemma_one_more_hop(docs, start, y, (depth - 1) as nat);
        assert(within(docs, start, x, (depth - 1) as nat) && depends_on(docs, x, y));
        assert(((depth - 1) as nat + 1) as nat == depth);
        assert(within(docs, start, y, depth));
    }
    assert(on_level(docs, start, x, depth));
}

proof fn lemma_within_grows(docs: Seq<StoredDocView>, start: u32, y: u32, a: nat, b: nat)
    requires
        a <= b,
        within(docs, start, y, a),
    ensures
        within(docs, start, y, b),
    decreases b - a,
{
    if a < b {
        lemma_within_grows(docs, start, y, a, (b - 1) as nat);
        lemma_one_more_hop(docs, start, y, (b - 1) as nat);
        assert(((b - 1) as nat + 1) as nat == b);
    }
}

proof fn lemma_hops(docs: Seq<StoredDocView>, start: u32, y: u32, depth: nat)
    ensures
        hops(docs, start, y, depth) <= depth,
        !within(docs, start, y, depth) && depth > 0 ==> hops(docs, start, y, depth) == depth,
    decreases depth,
{
    if depth > 0 {
        lemma_hops(docs, start, y, (depth - 1) as nat);
        lemma_one_more_hop(docs, start, y, (depth - 1) as nat);
        assert(((depth - 1) as nat + 1) as nat == depth);
        if !within(docs, start, y, depth) {
            assert(!within(docs, start, y, (depth - 1) as nat));
        }
    }
}

fn is_kind(doc: &Document, name: &str) -> (r: bool)
    ensures
        r == (text_at(doc@, F_RELATION_KIND as int) == Some(name@)),
{
    doc.has_text(IndexSchema::handles().relation_kind, name)
}

/// The symbol that the document says depends on `x`, where it says so.
fn dependent_of(doc: &Document, x: u32) -> (r: Option<u32>)
    ensures
        r is Some ==> edge(doc@, x, r->0),
        forall|y: u32| edge(doc@, x, y) ==> r == Some(y),
{
    let s = IndexSchema::handles();
    if !doc.has_text(s.doc_type, "relationship") {
        return None;
    }
    let ends = document_to_relationship(doc, RelationKind::Calls);
    let from = ends.0.value();
    let to = ends.1.value();
    let forward = is_kind(doc, "Calls") || is_kind(doc, "Uses") || is_kind(doc, "Implements")
        || is_kind(doc, "References");
    let backward = is_kind(doc, "CalledBy") || is_kind(doc, "UsedBy") || is_kind(
        doc,
        "ImplementedBy",
    ) || is_kind(doc, "ReferencedBy");
    proof {
        lemma_kinds_differ();
        assert(forward == is_dependency(doc@));
        assert(backward == is_dependent(doc@));
        assert(!(is_dependency(doc@) && is_dependent(doc@)));
    }
    if forward && to == x {
        Some(from)
    } else if backward && from == x {
        Some(to)
    } else {
        None
    }
}

/// The names of the kinds that point one way differ from those of the kinds
/// that point the other way.
proof fn lemma_kinds_differ()
    ensures
        forall|d: DocView| !(#[trigger] is_dependency(d) && is_dependent(d)),
{
    reveal_strlit("Calls");
    reveal_strlit("Uses");
    reveal_strlit("Implements");
    reveal_strlit("References");
    reveal_strlit("CalledBy");
    reveal_strlit("UsedBy");
    reveal_strlit("ImplementedBy");
    reveal_strlit("ReferencedBy");
    assert("Calls"@.len() == 5);
    assert("Uses"@.len() == 4);
    assert("Implements"@.len() == 10 && "Implements"@[0] == 'I');
    assert("References"@.len() == 10 && "References"@[0] == 'R');
    assert("CalledBy"@.len() == 8);
    assert("UsedBy"@.len() == 6);
    assert("ImplementedBy"@.len() == 13);
    assert("ReferencedBy"@.len() == 12);
}

fn contains_number(v: &Vec<u32>, x: u32) -> (r: bool)
    ensures
        r == v@.contains(x),
{
    let mut i: usize = 0;
    while i < v.len()
        invariant
            i <= v.len(),
            forall|j: int| 0 <= j < i ==> v@[j] != x,
        decreases v.len() - i,
    {
        if v[i] == x {
            return true;
        }
        i = i + 1;
    }
    false
}

/// The list is in strictly ascending order.
pub open spec fn rising(s: Seq<u32>) -> bool {
    forall|i: int, j: int| 0 <= i < j < s.len() ==> s[i] < s[j]
}

/// Puts a number into a list in strictly ascending order, at its place,
/// unless the list holds it already.
fn insert_number(list: &mut Vec<u32>, n: u32)
    requires
        rising(old(list)@),
    ensures
        rising(final(list)@),
        forall|c: u32| final(list)@.contains(c) == (old(list)@.contains(c) || c == n),
{
    let mut pos: usize = 0;
    while pos < list.len() && list[pos] < n
        invariant
            pos <= list.len(),
            *list == *old(list),
            forall|j: int| 0 <= j < pos ==> list@[j] < n,
        decreases list.len() - pos,
    {
        pos = pos + 1;
    }
    if pos < list.len() && list[pos] == n {
        return ;
    }
    let ghost before = list@;
    list.insert(pos, n);
    proof {
        let after = list@;
        assert(after =~= before.insert(pos as int, n));
        assert forall|a: int, b: int| 0 <= a < b < after.len() implies after[a] < after[b] by {
            if b < pos {
            } else if b == pos {
            } else if a < pos {
                assert(after[b] == before[b - 1]);
                if pos < before.len() {
                    assert(before[pos as int] > n);
                    if b - 1 > pos {
                        assert(before[pos as int] < before[b - 1]);
                    }
                }
            } else if a == pos {
                assert(after[b] == before[b - 1]);
                assert(before[pos as int] > n);
                if b - 1 > pos {
                    assert(before[pos as int] < before[b - 1]);
                }
            } else {
                assert(after[a] == before[a - 1]);
                assert(after[b] == before[b - 1]);
            }
        }
        assert forall|c: u32| after.contains(c) == (before.contains(c) || c == n) by {
            if after.contains(c) {
                let j = choose|j: int| 0 <= j < after.len() && after[j] == c;
                if j < pos {
                    assert(before[j] == c);
                } else if j > pos {
                    assert(before[j - 1] == c);
                }
            }
            if before.contains(c) {
                let j = choose|j: int| 0 <= j < before.len() && before[j] == c;
                if j < pos {
                    assert(after[j] == c);
                } else {
                    assert(after[j + 1] == c);
                }
            }
            if c == n {
                assert(after[pos as int] == c);
            }
        }
    }
}

impl DocumentIndex {
    /// The symbols that depend on `symbol`, directly or through other
    /// symbols, in `max_depth` hops at most; `symbol` itself is not among
    /// them. Nearer symbols come first, and among symbols of the same
    /// number of hops the smaller identifier comes first.
    pub fn get_impact_radius(&self, symbol: SymbolId, max_depth: usize) -> (r: Vec<SymbolId>)
        ensures
            forall|y: u32|
                numbers(r@).contains(y) == (y != symbol.0 && within(
                    self@.committed,
                    symbol.0,
                    y,
                    max_depth as nat,
                )),
            forall|i: int, j: int|
                0 <= i < j < r@.len() ==> in_order(
                    self@.committed,
                    symbol.0,
                    max_depth as nat,
                    r@[i].0,
                    r@[j].0,
                ),
    {
        let docs = self.stored();
        let start = symbol.value();
        let ghost dv = stored_views(docs@);
        let mut found: Vec<u32> = Vec::new();
        let mut frontier: Vec<u32> = Vec::new();
        frontier.push(start);
        let mut depth: usize = 0;
        proof {
            assert forall|y: u32| frontier@.contains(y) == on_level(dv, start, y, 0) by {
                lemma_no_hop(dv, start, y);
                if y == start {
                    assert(frontier@[0] == y);
                }
            }
            assert forall|y: u32| found@.contains(y) == (y != start && within(dv, start, y, 0)) by {
                lemma_no_hop(dv, start, y);
            }
        }
        while depth < max_depth && frontier.len() > 0
            invariant
                depth <= max_depth,
                dv == stored_views(docs@),
                dv == self@.committed,
                start == symbol.0,
                forall|y: u32| found@.contains(y) == (y != start && within(dv, start, y, depth as nat)),
                forall|y: u32| frontier@.contains(y) == on_level(dv, start, y, depth as nat),
                forall|i: int, j: int|
                    0 <= i < j < found@.len() ==> in_order(
                        dv,
                        start,
                        depth as nat,
                        found@[i],
                        found@[j],
                    ),
            decreases max_depth - depth,
        {
            // The symbols that are new at the next hop, in ascending order.
            let mut next: Vec<u32> = Vec::new();
            let mut a: usize = 0;
            while a < frontier.len()
                invariant
                    a <= frontier.len(),
                    dv == stored_views(docs@),
                    rising(next@),
                    forall|y: u32| found@.contains(y) == (y != start && within(dv, start, y, depth as nat)),
                    forall|y: u32|
                        next@.contains(y) == (!within(dv, start, y, depth as nat) && exists|k: int|
                            0 <= k < a && depends_on(dv, #[trigger] frontier@[k], y)),
                decreases frontier.len() - a,
            {
                let x = frontier[a];
                let mut b: usize = 0;
                while b < docs.len()
                    invariant
                        b <= docs.len(),
                        a < frontier.len(),
                        x == frontier@[a as int],
                        dv == stored_views(docs@),
                        rising(next@),
                        forall|y: u32| found@.contains(y) == (y != start && within(
                            dv,
                            start,
                            y,
                            depth as nat,
                        )),
                        forall|y: u32|
                            next@.contains(y) == (!within(dv, start, y, depth as nat) && ((exists|
                                k: int,
                            |
                                0 <= k < a && depends_on(dv, #[trigger] frontier@[k], y)) || (exists|
                                i: int,
                            |
                                0 <= i < b && edge((#[trigger] dv[i]).doc, x, y)))),
                    decreases docs.len() - b,
                {
                    proof {
                        assert(dv[b as int] == docs@[b as int]@);
                    }
                    let ghost before = next@;
                    let mut added: Option<u32> = None;
                    match dependent_of(&docs[b].doc, x) {
                        Some(y) => {
                            if y != start && !contains_number(&found, y) {
                                insert_number(&mut next, y);
                                added = Some(y);
                            }
                        },
                        None => {},
                    }
                    proof {
                        assert forall|y: u32| next@.contains(y) == (!within(
                            dv,
                            start,
                            y,
                            depth as nat,
                        ) && ((exists|k: int|
                            0 <= k < a && depends_on(dv, #[trigger] frontier@[k], y)) || (exists|
                            i: int,
                        | 0 <= i < b + 1 && edge((#[trigger] dv[i]).doc, x, y)))) by {
                            let old_edge = exists|i: int|
                                0 <= i < b && edge((#[trigger] dv[i]).doc, x, y);
                            let new_edge = exists|i: int|
                                0 <= i < b + 1 && edge((#[trigger] dv[i]).doc, x, y);
                            if old_edge {
                                let i = choose|i: int|
                                    0 <= i < b && edge((#[trigger] dv[i]).doc, x, y);
                                assert(0 <= i < b + 1 && edge(dv[i].doc, x, y));
                            }
                            if new_edge && !old_edge {
                                let i = choose|i: int|
                                    0 <= i < b + 1 && edge((#[trigger] dv[i]).doc, x, y);
                                assert(i == b);
                            }
                            if edge(dv[b as int].doc, x, y) {
                                assert(new_edge);
                            }
                            if y == start {
                                lemma_no_hop(dv, start, y);
                                lemma_within_grows(dv, start, y, 0, depth as nat);
                            }
                        }
                    }
                    b = b + 1;
                }
                proof {
                    assert forall|y: u32| next@.contains(y) == (!within(dv, start, y, depth as nat)
                        && exists|k: int|
                        0 <= k < a + 1 && depends_on(dv, #[trigger] frontier@[k], y)) by {
                        let here = exists|i: int|
                            0 <= i < docs@.len() && edge((#[trigger] dv[i]).doc, x, y);
                        assert(here == depends_on(dv, x, y));
                        let old_dep = exists|k: int|
                            0 <= k < a && depends_on(dv, #[trigger] frontier@[k], y);
                        let new_dep = exists|k: int|
                            0 <= k < a + 1 && depends_on(dv, #[trigger] frontier@[k], y);
                        if old_dep {
                            let k = choose|k: int|
                                0 <= k < a && depends_on(dv, #[trigger] frontier@[k], y);
                            assert(0 <= k < a + 1 && depends_on(dv, frontier@[k], y));
                        }
                        if new_dep && !old_dep {
                            let k = choose|k: int|
                                0 <= k < a + 1 && depends_on(dv, #[trigger] frontier@[k], y);
                            assert(k == a);
                        }
                        if depends_on(dv, x, y) {
                            assert(depends_on(dv, frontier@[a as int], y));
                        }
                    }
                }
                a = a + 1;
            }
            // `next` holds exactly what is new at hop `depth + 1`.
            proof {
                assert forall|y: u32| next@.contains(y) == on_level(
                    dv,
                    start,
                    y,
                    (depth + 1) as nat,
                ) by {
                    lemma_one_more_hop(dv, start, y, depth as nat);
                    if next@.contains(y) {
                        let k = choose|k: int|
                            0 <= k < frontier@.len() && depends_on(dv, #[trigger] frontier@[k], y);
                        assert(frontier@.contains(frontier@[k]));
                        assert(within(dv, start, frontier@[k], depth as nat) && depends_on(
                            dv,
                            frontier@[k],
                            y,
                        ));
                    }
                    if on_level(dv, start, y, (depth + 1) as nat) {
                        lemma_next_level(dv, start, y, depth as nat);
                        let x = choose|x: u32| #[trigger]
                            on_level(dv, start, x, depth as nat) && depends_on(dv, x, y);
                        assert(frontier@.contains(x));
                        let k = choose|k: int| 0 <= k < frontier@.len() && frontier@[k] == x;
                        assert(depends_on(dv, frontier@[k], y));
                    }
                }
            }
            let ghost old_found = found@;
            let mut k: usize = 0;
            while k < next.len()
                invariant
                    k <= next.len(),
                    found@ == old_found + next@.take(k as int),
                decreases next.len() - k,
            {
                found.push(next[k]);
                proof {
                    assert(next@.take(k + 1) =~= next@.take(k as int).push(next@[k as int]));
                    assert(old_found + next@.take(k + 1) =~= (old_found + next@.take(
                        k as int,
                    )).push(next@[k as int]));
                }
                k = k + 1;
            }
            proof {
                assert(next@.take(next@.len() as int) =~= next@);
                let d1 = (depth + 1) as nat;
                assert forall|y: u32| found@.contains(y) == (y != start && within(
                    dv,
                    start,
                    y,
                    d1,
                )) by {
                    lemma_one_more_hop(dv, start, y, depth as nat);
                    if found@.contains(y) {
                        let i = choose|i: int| 0 <= i < found@.len() && found@[i] == y;
                        if i < old_found.len() {
                            assert(old_found[i] == y);
                            assert(old_found.contains(y));
                        } else {
                            assert(next@[i - old_found.len()] == y);
                            assert(next@.contains(y));
                            lemma_no_hop(dv, start, start);
                            lemma_within_grows(dv, start, start, 0, depth as nat);
                        }
                    }
                    if y != start && within(dv, start, y, d1) {
                        if within(dv, start, y, depth as nat) {
                            assert(old_found.contains(y));
                            let i = choose|i: int| 0 <= i < old_found.len() && old_found[i] == y;
                            assert(found@[i] == y);
                        } else {
                            assert(next@.contains(y));
                            let i = choose|i: int| 0 <= i < next@.len() && next@[i] == y;
                            assert(found@[old_found.len() + i] == y);
                        }
                    }
                }
                assert forall|i: int, j: int| 0 <= i < j < found@.len() implies in_order(
                    dv,
                    start,
                    d1,
                    found@[i],
                    found@[j],
                ) by {
                    let p = found@[i];
                    let q = found@[j];
                    lemma_hops(dv, start, p, depth as nat);
                    lemma_hops(dv, start, q, depth as nat);
                    lemma_one_more_hop(dv, start, p, depth as nat);
                    lemma_one_more_hop(dv, start, q, depth as nat);
                    if j < old_found.len() {
                        assert(old_found[i] == p && old_found[j] == q);
                        assert(old_found.contains(p));
                        assert(old_found.contains(q));
                        assert(in_order(dv, start, depth as nat, p, q));
                    } else if i < old_found.len() {
                        assert(old_found[i] == p);
                        assert(old_found.contains(p));
                        assert(next@[j - old_found.len()] == q);
                        assert(next@.contains(q));
                    } else {
                        assert(next@[i - old_found.len()] == p);
                        assert(next@[j - old_found.len()] == q);
                        assert(next@.contains(p));
                        assert(next@.contains(q));
                    }
                }
            }
            frontier = next;
            depth = depth + 1;
        }
        proof {
            // Where the frontier ran empty, nothing is reached later.
            if depth < max_depth {
                assert forall|y: u32| !on_level(dv, start, y, depth as nat) by {
                    assert(!frontier@.contains(y));
                }
                lemma_nothing_new(dv, start, depth as nat, max_depth as nat);
                assert forall|y: u32| #![auto] within(dv, start, y, max_depth as nat) == within(
                    dv,
                    start,
                    y,
                    depth as nat,
                ) by {
                    if within(dv, start, y, depth as nat) {
                        lemma_within_grows(dv, start, y, depth as nat, max_depth as nat);
                    }
                }
                assert forall|i: int, j: int| 0 <= i < j < found@.len() implies in_order(
                    dv,
                    start,
                    max_depth as nat,
                    found@[i],
                    found@[j],
                ) by {
                    let p = found@[i];
                    let q = found@[j];
                    assert(found@.contains(p));
                    assert(found@.contains(q));
                    assert(within(dv, start, p, depth as nat));
                    assert(within(dv, start, q, depth as nat));
                    lemma_hops_stable(dv, start, p, depth as nat, max_depth as nat);
                    lemma_hops_stable(dv, start, q, depth as nat, max_depth as nat);
                    assert(in_order(dv, start, depth as nat, p, q));
                }
            }
        }
        let mut out: Vec<SymbolId> = Vec::new();
        let mut k: usize = 0;
        while k < found.len()
            invariant
                k <= found.len(),
                out@.len() == k,
                forall|j: int| 0 <= j < k ==> (#[trigger] out@[j]).0 == found@[j],
            decreases found.len() - k,
        {
            out.push(SymbolId(found[k]));
            k = k + 1;
        }
        proof {
            assert(numbers(out@) =~= found@);
        }
        out
    }
}

/// Once a hop reaches nothing new, no later hop does.
proof fn lemma_nothing_new(docs: Seq<StoredDocView>, start: u32, a: nat, b: nat)
    requires
        a <= b,
        forall|y: u32| !on_level(docs, start, y, a),
    ensures
        forall|y: u32| within(docs, start, y, b) ==> #[trigger] within(docs, start, y, a),
    decreases b - a,
{
    if a < b {
        lemma_nothing_new(docs, start, a, (b - 1) as nat);
        assert forall|y: u32| within(docs, start, y, b) implies #[trigger] within(
            docs,
            start,
            y,
            a,
        ) by {
            lemma_one_more_hop(docs, start, y, (b - 1) as nat);
            assert(((b - 1) as nat + 1) as nat == b);
            if !within(docs, start, y, (b - 1) as nat) {
                let x = choose|x: u32| #[trigger]
                    within(docs, start, x, (b - 1) as nat) && depends_on(docs, x, y);
                assert(within(docs, start, x, a));
                // `x` was reached before hop `a`, so `y` was reached by hop `a`.
                assert(!on_level(docs, start, x, a));
                assert(a > 0 && within(docs, start, x, (a - 1) as nat));
                lemma_one_more_hop(docs, start, y, (a - 1) as nat);
                assert(((a - 1) as nat + 1) as nat == a);
                assert(within(docs, start, x, (a - 1) as nat) && depends_on(docs, x, y));
                assert(within(docs, start, y, a));
            }
        }
    }
}

/// The number of hops in which a symbol is reached does not change by
/// looking further.
proof fn lemma_hops_stable(docs: Seq<StoredDocView>, start: u32, y: u32, a: nat, b: nat)
    requires
        a <= b,
        within(docs, start, y, a),
    ensures
        hops(docs, start, y, b) == hops(docs, start, y, a),
    decreases b - a,
{
    if a < b {
        lemma_within_grows(docs, start, y, a, (b - 1) as nat);
        lemma_hops_stable(docs, start, y, a, (b - 1) as nat);
        lemma_one_more_hop(docs, start, y, (b - 1) as nat);
        assert(((b - 1) as nat + 1) as nat == b);
    }
}

} // verus!
