//! Matching text against a query: substrings of names, words of comments
//! and signatures, and names that are one edit away from the query.

use vstd::prelude::*;
use crate::storage::schema::{NGRAM_MAX, NGRAM_MIN};

verus! {

// ---------------------------------------------------------------------------
// One edit
// ---------------------------------------------------------------------------

/// `b` is `a` with one character replaced.
pub open spec fn substitution(a: Seq<char>, b: Seq<char>) -> bool {
    a.len() == b.len() && exists|k: int| 0 <= k < a.len() && #[trigger] a.update(k, b[k]) == b
}

/// `b` is `a` with one character taken out.
pub open spec fn deletion(a: Seq<char>, b: Seq<char>) -> bool {
    a.len() == b.len() + 1 && exists|k: int| 0 <= k < a.len() && #[trigger] a.remove(k) == b
}

/// The two texts are equal or one edit apart: one character replaced, taken
/// out or put in.
pub open spec fn within_one_edit(a: Seq<char>, b: Seq<char>) -> bool {
    a == b || substitution(a, b) || deletion(a, b) || deletion(b, a)
}

/// Texts that are one edit apart differ in length by one at most.
pub proof fn lemma_edit_lengths(a: Seq<char>, b: Seq<char>)
    requires
        within_one_edit(a, b),
    ensures
        a.len() <= b.len() + 1,
        b.len() <= a.len() + 1,
{
}

/// The length of the longest common prefix of two texts.
fn common_prefix(a: &Vec<char>, b: &Vec<char>) -> (p: usize)
    ensures
        p <= a.len(),
        p <= b.len(),
        forall|j: int| 0 <= j < p ==> a@[j] == b@[j],
        p == a.len() || p == b.len() || a@[p as int] != b@[p as int],
{
    let mut p: usize = 0;
    while p < a.len() && p < b.len() && a[p] == b[p]
        invariant
            p <= a.len(),
            p <= b.len(),
            forall|j: int| 0 <= j < p ==> a@[j] == b@[j],
        decreases a.len() - p,
    {
        p = p + 1;
    }
    p
}

/// Whether `a` from `i` on equals `b` from `j` on.
fn equal_tails(a: &Vec<char>, i: usize, b: &Vec<char>, j: usize) -> (r: bool)
    requires
        i <= a.len(),
        j <= b.len(),
        a.len() - i == b.len() - j,
    ensures
        r == (a@.skip(i as int) == b@.skip(j as int)),
{
    let n = a.len() - i;
    let ghost sa = a@.skip(i as int);
    let ghost sb = b@.skip(j as int);
    let mut t: usize = 0;
    while t < n
        invariant
            t <= n,
            n == a.len() - i,
            n == b.len() - j,
            sa == a@.skip(i as int),
            sb == b@.skip(j as int),
            forall|u: int| 0 <= u < t ==> #[trigger] sa[u] == sb[u],
        decreases n - t,
    {
        proof {
            assert(sa[t as int] == a@[i + t]);
            assert(sb[t as int] == b@[j + t]);
        }
        if a[i + t] != b[j + t] {
            return false;
        }
        t = t + 1;
    }
    proof {
        assert(sa =~= sb);
    }
    true
}

/// Whether `a` is `b` with one character put in at the end of their common
/// prefix.
fn is_deletion(a: &Vec<char>, b: &Vec<char>) -> (r: bool)
    requires
        a.len() == b.len() + 1,
    ensures
        r == deletion(a@, b@),
{
    let p = common_prefix(a, b);
    let r = equal_tails(a, p + 1, b, p);
    proof {
        let sa = a@.skip(p + 1);
        let sb = b@.skip(p as int);
        if r {
            assert forall|idx: int| p <= idx < b@.len() implies a@[idx + 1] == b@[idx] by {
                assert(sa[idx - p] == a@[idx + 1]);
                assert(sb[idx - p] == b@[idx]);
            }
            assert(a@.remove(p as int) =~= b@);
        }
        if deletion(a@, b@) {
            let k = choose|k: int| 0 <= k < a@.len() && #[trigger] a@.remove(k) == b@;
            let removed = a@.remove(k);
            assert forall|j: int| 0 <= j < b@.len() implies #[trigger] b@[j] == (if j < k {
                a@[j]
            } else {
                a@[j + 1]
            }) by {
                assert(removed[j] == b@[j]);
            }
            // The common prefix reaches at least to the character taken out.
            if p < k {
                assert(b@[p as int] == a@[p as int]);
            }
            assert forall|t: int| 0 <= t < sa.len() implies #[trigger] sa[t] == sb[t] by {
                assert(sa[t] == a@[p + 1 + t]);
                assert(sb[t] == b@[p + t]);
                assert(b@[p + t] == a@[p + t + 1]);
            }
            assert(sa =~= sb);
        }
    }
    r
}

/// Whether the two texts are equal or one edit apart.
pub fn within_one_edit_exec(a: &Vec<char>, b: &Vec<char>) -> (r: bool)
    ensures
        r == within_one_edit(a@, b@),
{
    if a.len() == b.len() {
        let p = common_prefix(a, b);
        if p == a.len() {
            proof {
                assert(a@ =~= b@);
            }
            return true;
        }
        let r = equal_tails(a, p + 1, b, p + 1);
        proof {
            let sa = a@.skip(p + 1);
            let sb = b@.skip(p + 1);
            if r {
                assert forall|idx: int| p < idx < a@.len() implies a@[idx] == b@[idx] by {
                    assert(sa[idx - p - 1] == a@[idx]);
                    assert(sb[idx - p - 1] == b@[idx]);
                }
                assert(a@.update(p as int, b@[p as int]) =~= b@);
            }
            if substitution(a@, b@) {
                let k = choose|k: int| 0 <= k < a@.len() && #[trigger] a@.update(k, b@[k]) == b@;
                let changed = a@.update(k, b@[k]);
                assert forall|j: int| 0 <= j < a@.len() && j != k implies #[trigger] a@[j]
                    == b@[j] by {
                    assert(changed[j] == b@[j]);
                }
                assert(p == k);
                assert(sa =~= sb);
            }
            assert(a@ != b@);
        }
        r
    } else if a.len() > b.len() && a.len() - b.len() == 1 {
        is_deletion(a, b)
    } else if b.len() > a.len() && b.len() - a.len() == 1 {
        is_deletion(b, a)
    } else {
        false
    }
}

/// The characters of `v` from `lo` up to `hi`.
pub fn slice_of(v: &Vec<char>, lo: usize, hi: usize) -> (r: Vec<char>)
    requires
        lo <= hi <= v.len(),
    ensures
        r@ == v@.subrange(lo as int, hi as int),
{
    let mut out: Vec<char> = Vec::new();
    let mut i = lo;
    while i < hi
        invariant
            lo <= i <= hi <= v.len(),
            out@ == v@.subrange(lo as int, i as int),
        decreases hi - i,
    {
        out.push(v[i]);
        proof {
            assert(v@.subrange(lo as int, i + 1) =~= v@.subrange(lo as int, i as int).push(
                v@[i as int],
            ));
        }
        i = i + 1;
    }
    out
}

// ---------------------------------------------------------------------------
// Fuzzy matches
// ---------------------------------------------------------------------------

/// The query is within one edit of a prefix of the term.
pub open spec fn fuzzy_prefix(query: Seq<char>, term: Seq<char>) -> bool {
    exists|m: int| 0 <= m <= term.len() && within_one_edit(query, #[trigger] term.take(m))
}

/// The `m` characters of the name from position `i` on are the start of an
/// n-gram of the name: a run of 3 to 10 characters.
pub open spec fn gram_start(name: Seq<char>, i: int, m: int) -> bool {
    &&& 0 <= i
    &&& i + NGRAM_MIN <= name.len()
    &&& 0 <= m <= NGRAM_MAX
    &&& i + m <= name.len()
}

/// The query is within one edit of the start of an n-gram of the name.
pub open spec fn fuzzy_ngram(query: Seq<char>, name: Seq<char>) -> bool {
    exists|i: int, m: int|
        gram_start(name, i, m) && within_one_edit(query, #[trigger] name.subrange(i, i + m))
}

/// Whether the query is within one edit of the `m` characters of the text
/// from `i` on, for one of the three lengths `m` that can be, none of them
/// beyond `longest`.
fn fuzzy_at(query: &Vec<char>, text: &Vec<char>, i: usize, longest: usize) -> (r: bool)
    requires
        i <= text.len(),
        longest <= text.len() - i,
    ensures
        r == (exists|m: int|
            0 <= m <= longest && within_one_edit(query@, #[trigger] text@.subrange(i as int, i + m))),
{
    let q = query.len();
    // The three candidate lengths: one less than, equal to and one more than
    // the length of the query.
    let mut found = false;
    let mut step: u8 = 0;
    while step < 3
        invariant
            step <= 3,
            q == query.len(),
            i <= text.len(),
            longest <= text.len() - i,
            found ==> exists|m: int|
                0 <= m <= longest && within_one_edit(
                    query@,
                    #[trigger] text@.subrange(i as int, i + m),
                ),
            !found ==> forall|m: int|
                0 <= m <= longest && q - 1 <= m < q - 1 + step ==> !within_one_edit(
                    query@,
                    #[trigger] text@.subrange(i as int, i + m),
                ),
        decreases 3 - step,
    {
        // m = q - 1 + step, where it is not negative.
        if !(step == 0 && q == 0) {
            let m = if step == 0 {
                q - 1
            } else if step == 1 {
                q
            } else if q < usize::MAX {
                q + 1
            } else {
                q
            };
            if m <= longest && (step < 2 || q < usize::MAX) {
                let part = slice_of(text, i, i + m);
                if within_one_edit_exec(query, &part) {
                    found = true;
                }
            }
        }
        step = step + 1;
    }
    proof {
        if !found {
            assert forall|m: int| 0 <= m <= longest implies !within_one_edit(
                query@,
                #[trigger] text@.subrange(i as int, i + m),
            ) by {
                if within_one_edit(query@, text@.subrange(i as int, i + m)) {
                    lemma_edit_lengths(query@, text@.subrange(i as int, i + m));
                    assert(q - 1 <= m < q - 1 + 3);
                }
            }
        }
    }
    found
}

/// Whether the query is within one edit of a prefix of the term.
pub fn fuzzy_prefix_exec(query: &Vec<char>, term: &Vec<char>) -> (r: bool)
    ensures
        r == fuzzy_prefix(query@, term@),
{
    let r = fuzzy_at(query, term, 0, term.len());
    proof {
        if r {
            let m = choose|m: int|
                0 <= m <= term@.len() && within_one_edit(
                    query@,
                    #[trigger] term@.subrange(0, 0 + m),
                );
            assert(term@.subrange(0, 0 + m) =~= term@.take(m));
            assert(within_one_edit(query@, term@.take(m)));
        }
        if fuzzy_prefix(query@, term@) {
            let m = choose|m: int|
                0 <= m <= term@.len() && within_one_edit(query@, #[trigger] term@.take(m));
            assert(term@.subrange(0, 0 + m) =~= term@.take(m));
            assert(within_one_edit(query@, term@.subrange(0, 0 + m)));
        }
    }
    r
}

/// Whether the query is within one edit of the start of an n-gram of the
/// name.
pub fn fuzzy_ngram_exec(query: &Vec<char>, name: &Vec<char>) -> (r: bool)
    ensures
        r == fuzzy_ngram(query@, name@),
{
    if name.len() < NGRAM_MIN {
        return false;
    }
    let last = name.len() - NGRAM_MIN;
    let mut i: usize = 0;
    while i <= last
        invariant
            i <= last + 1,
            last == name.len() - NGRAM_MIN,
            forall|j: int, m: int|
                0 <= j < i && gram_start(name@, j, m) ==> !within_one_edit(
                    query@,
                    #[trigger] name@.subrange(j, j + m),
                ),
        decreases last + 1 - i,
    {
        let room = name.len() - i;
        let longest = if room < NGRAM_MAX {
            room
        } else {
            NGRAM_MAX
        };
        if fuzzy_at(query, name, i, longest) {
            proof {
                let m = choose|m: int|
                    0 <= m <= longest && within_one_edit(
                        query@,
                        #[trigger] name@.subrange(i as int, i + m),
                    );
                assert(gram_start(name@, i as int, m));
            }
            return true;
        }
        i = i + 1;
    }
    proof {
        assert forall|j: int, m: int| gram_start(name@, j, m) implies !within_one_edit(
            query@,
            #[trigger] name@.subrange(j, j + m),
        ) by {
            assert(0 <= j < i);
        }
    }
    false
}

// ---------------------------------------------------------------------------
// Words
// ---------------------------------------------------------------------------

/// A letter or a digit. Every character beyond ASCII counts as a letter.
pub open spec fn is_alnum(c: char) -> bool {
    ('a' <= c <= 'z') || ('A' <= c <= 'Z') || ('0' <= c <= '9') || c as u32 >= 128
}

/// The two characters are the same, or the same ASCII letter in different
/// case.
pub open spec fn same_letter(a: char, b: char) -> bool {
    a == b || ('A' <= a <= 'Z' && b as u32 == a as u32 + 32) || ('A' <= b <= 'Z' && a as u32
        == b as u32 + 32)
}

/// The two texts are the same but for the case of ASCII letters.
pub open spec fn same_word(a: Seq<char>, b: Seq<char>) -> bool {
    a.len() == b.len() && forall|i: int| 0 <= i < a.len() ==> same_letter(#[trigger] a[i], b[i])
}

/// Where the run of letters and digits that holds position `i` ends.
pub open spec fn run_end(text: Seq<char>, i: int) -> int
    decreases text.len() - i,
{
    if i < 0 || i >= text.len() || !is_alnum(text[i]) {
        i
    } else {
        run_end(text, i + 1)
    }
}

/// A word of the text starts at position `lo`.
pub open spec fn word_starts(text: Seq<char>, lo: int) -> bool {
    0 <= lo < text.len() && is_alnum(text[lo]) && (lo == 0 || !is_alnum(text[lo - 1]))
}

/// The text has the word, whatever the case of its letters: one of its
/// maximal runs of letters and digits is the same word.
pub open spec fn has_word(text: Seq<char>, word: Seq<char>) -> bool {
    exists|lo: int|
        word_starts(text, lo) && same_word(#[trigger] text.subrange(lo, run_end(text, lo)), word)
}

pub proof fn lemma_run_end(text: Seq<char>, i: int)
    requires
        0 <= i <= text.len(),
    ensures
        i <= run_end(text, i) <= text.len(),
    decreases text.len() - i,
{
    if i < text.len() && is_alnum(text[i]) {
        lemma_run_end(text, i + 1);
    }
}

fn is_alnum_exec(c: char) -> (r: bool)
    ensures
        r == is_alnum(c),
{
    ('a' <= c && c <= 'z') || ('A' <= c && c <= 'Z') || ('0' <= c && c <= '9') || c as u32 >= 128
}

fn same_letter_exec(a: char, b: char) -> (r: bool)
    ensures
        r == same_letter(a, b),
{
    a == b || ('A' <= a && a <= 'Z' && b as u32 == a as u32 + 32) || ('A' <= b && b <= 'Z'
        && a as u32 == b as u32 + 32)
}

fn run_end_exec(text: &Vec<char>, i: usize) -> (r: usize)
    requires
        i <= text.len(),
    ensures
        r == run_end(text@, i as int),
        i <= r <= text.len(),
{
    let mut j = i;
    while j < text.len() && is_alnum_exec(text[j])
        invariant
            i <= j <= text.len(),
            run_end(text@, i as int) == run_end(text@, j as int),
        decreases text.len() - j,
    {
        j = j + 1;
    }
    j
}

/// Whether the characters of the text from `lo` up to `hi` are the word,
/// whatever the case of its letters.
fn same_word_exec(text: &Vec<char>, lo: usize, hi: usize, word: &Vec<char>) -> (r: bool)
    requires
        lo <= hi <= text.len(),
    ensures
        r == same_word(text@.subrange(lo as int, hi as int), word@),
{
    if hi - lo != word.len() {
        return false;
    }
    let ghost part = text@.subrange(lo as int, hi as int);
    let mut t: usize = 0;
    while t < word.len()
        invariant
            t <= word.len(),
            lo <= hi <= text.len(),
            hi - lo == word.len(),
            part == text@.subrange(lo as int, hi as int),
            forall|u: int| 0 <= u < t ==> same_letter(#[trigger] part[u], word@[u]),
        decreases word.len() - t,
    {
        proof {
            assert(part[t as int] == text@[lo + t]);
        }
        if !same_letter_exec(text[lo + t], word[t]) {
            return false;
        }
        t = t + 1;
    }
    true
}

/// Whether the text has the word, whatever the case of its letters.
pub fn has_word_exec(text: &Vec<char>, word: &Vec<char>) -> (r: bool)
    ensures
        r == has_word(text@, word@),
{
    let mut lo: usize = 0;
    while lo < text.len()
        invariant
            lo <= text.len(),
            forall|j: int|
                0 <= j < lo && word_starts(text@, j) ==> !same_word(
                    #[trigger] text@.subrange(j, run_end(text@, j)),
                    word@,
                ),
        decreases text.len() - lo,
    {
        if is_alnum_exec(text[lo]) && (lo == 0 || !is_alnum_exec(text[lo - 1])) {
            let hi = run_end_exec(text, lo);
            if same_word_exec(text, lo, hi, word) {
                return true;
            }
        }
        lo = lo + 1;
    }
    false
}

} // verus!
