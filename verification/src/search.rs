//! Anchored substring search over decoded text.
//!
//! Each extraction rule is a pair of literal anchor sequences. A fragment
//! match starts right after the first occurrence of the opening anchor and
//! extends greedily to just before the last occurrence of the closing anchor
//! found anywhere later in the document.

use vstd::prelude::*;

verus! {

/// The pattern `pat` occurs in `text` starting at index `i`.
pub open spec fn occurs_at(text: Seq<char>, pat: Seq<char>, i: int) -> bool {
    0 <= i && i + pat.len() <= text.len() && text.subrange(i, i + pat.len()) == pat
}

/// `i` is the first index at which `pat` occurs in `text`.
pub open spec fn is_first_occurrence(text: Seq<char>, pat: Seq<char>, i: int) -> bool {
    occurs_at(text, pat, i) && forall|k: int| 0 <= k < i ==> !occurs_at(text, pat, k)
}

/// `j` is the last index at which `pat` occurs in `text`, among indices at or
/// after `lo`.
pub open spec fn is_last_occurrence_from(text: Seq<char>, pat: Seq<char>, lo: int, j: int) -> bool {
    lo <= j && occurs_at(text, pat, j) && forall|k: int| j < k ==> !occurs_at(text, pat, k)
}

/// The text holds a fragment for the anchor pair: the opening anchor occurs
/// somewhere, and the closing anchor occurs at or after its end.
pub open spec fn has_fragment(text: Seq<char>, open_a: Seq<char>, close_a: Seq<char>) -> bool {
    exists|i: int, j: int|
        occurs_at(text, open_a, i) && occurs_at(text, close_a, j) && i + open_a.len() <= j
}

/// `i` and `j` delimit the captured fragment: `i` is the first occurrence of
/// the opening anchor, `j` the last occurrence of the closing anchor at or
/// after the opening anchor's end.
pub open spec fn fragment_bounds(
    text: Seq<char>,
    open_a: Seq<char>,
    close_a: Seq<char>,
    i: int,
    j: int,
) -> bool {
    is_first_occurrence(text, open_a, i) && is_last_occurrence_from(
        text,
        close_a,
        i + open_a.len(),
        j,
    )
}

/// The captured fragment: everything between the anchors, bound greedily.
/// Meaningful only when `has_fragment` holds.
pub open spec fn fragment(text: Seq<char>, open_a: Seq<char>, close_a: Seq<char>) -> Seq<char> {
    let (i, j) = choose|i: int, j: int| fragment_bounds(text, open_a, close_a, i, j);
    text.subrange(i + open_a.len(), j)
}

/// The fragment bounds are unique: first and last occurrences are single.
pub proof fn lemma_fragment_bounds_unique(
    text: Seq<char>,
    open_a: Seq<char>,
    close_a: Seq<char>,
    i1: int,
    j1: int,
    i2: int,
    j2: int,
)
    requires
        fragment_bounds(text, open_a, close_a, i1, j1),
        fragment_bounds(text, open_a, close_a, i2, j2),
    ensures
        i1 == i2,
        j1 == j2,
{
}

/// Whenever some pair of indices satisfies `fragment_bounds`, the fragment
/// spec denotes exactly the text between those indices.
pub proof fn lemma_fragment_value(
    text: Seq<char>,
    open_a: Seq<char>,
    close_a: Seq<char>,
    i: int,
    j: int,
)
    requires
        fragment_bounds(text, open_a, close_a, i, j),
    ensures
        has_fragment(text, open_a, close_a),
        fragment(text, open_a, close_a) == text.subrange(i + open_a.len(), j),
{
    assert(occurs_at(text, open_a, i) && occurs_at(text, close_a, j) && i + open_a.len() <= j);
    let (i2, j2) = choose|i2: int, j2: int| fragment_bounds(text, open_a, close_a, i2, j2);
    lemma_fragment_bounds_unique(text, open_a, close_a, i, j, i2, j2);
}

/// Does `pat` occur in `text` at position `i`?
fn matches_at(text: &Vec<char>, pat: &Vec<char>, i: usize) -> (r: bool)
    requires
        i + pat@.len() <= text@.len(),
    ensures
        r == occurs_at(text@, pat@, i as int),
{
    let n: usize = text.len();
    let p: usize = pat.len();
    let mut k: usize = 0;
    while k < p
        invariant
            n == text@.len(),
            p == pat@.len(),
            k <= p,
            i + p <= n,
            forall|m: int| 0 <= m < k ==> text@[i + m] == pat@[m],
        decreases p - k,
    {
        if text[i + k] != pat[k] {
            proof {
                assert(text@.subrange(i as int, i + pat@.len())[k as int] != pat@[k as int]);
            }
            return false;
        }
        k = k + 1;
    }
    proof {
        assert(text@.subrange(i as int, i + pat@.len()) =~= pat@);
    }
    true
}

/// Find the first occurrence of `pat` in `text`, scanning left to right.
pub fn find_first(text: &Vec<char>, pat: &Vec<char>) -> (r: Option<usize>)
    requires
        pat@.len() > 0,
    ensures
        match r {
            Some(i) => is_first_occurrence(text@, pat@, i as int),
            None => forall|k: int| !occurs_at(text@, pat@, k),
        },
{
    let n: usize = text.len();
    let p: usize = pat.len();
    if p > n {
        return None;
    }
    let last: usize = n - p;
    let mut i: usize = 0;
    while i <= last
        invariant
            n == text@.len(),
            p == pat@.len(),
            p >= 1,
            last == n - p,
            forall|k: int| 0 <= k < i ==> !occurs_at(text@, pat@, k),
        decreases last + 1 - i,
    {
        if matches_at(text, pat, i) {
            return Some(i);
        }
        i = i + 1;
    }
    None
}

/// Find the last occurrence of `pat` in `text` at or after `lo`, scanning
/// right to left.
pub fn find_last_from(text: &Vec<char>, pat: &Vec<char>, lo: usize) -> (r: Option<usize>)
    requires
        pat@.len() > 0,
    ensures
        match r {
            Some(j) => is_last_occurrence_from(text@, pat@, lo as int, j as int),
            None => forall|k: int| lo <= k ==> !occurs_at(text@, pat@, k),
        },
{
    let n: usize = text.len();
    let p: usize = pat.len();
    if p > n {
        return None;
    }
    let last: usize = n - p;
    let mut i: usize = last + 1;
    while i > lo
        invariant
            n == text@.len(),
            p == pat@.len(),
            p >= 1,
            last == n - p,
            i <= last + 1,
            forall|k: int| i <= k ==> !occurs_at(text@, pat@, k),
        decreases i,
    {
        i = i - 1;
        if matches_at(text, pat, i) {
            return Some(i);
        }
    }
    None
}

/// Copy the characters of `text` in the range `a..b` into a fresh vector.
pub fn copy_range(text: &Vec<char>, a: usize, b: usize) -> (r: Vec<char>)
    requires
        a <= b <= text@.len(),
    ensures
        r@ == text@.subrange(a as int, b as int),
{
    let mut out: Vec<char> = Vec::new();
    let mut k: usize = a;
    while k < b
        invariant
            a <= k <= b <= text@.len(),
            out@ == text@.subrange(a as int, k as int),
        decreases b - k,
    {
        out.push(text[k]);
        proof {
            assert(out@ =~= text@.subrange(a as int, k + 1));
        }
        k = k + 1;
    }
    out
}

/// Run one anchored extraction rule over the whole text: locate the first
/// opening anchor, then capture greedily up to the last closing anchor.
pub fn extract_fragment(text: &Vec<char>, open_a: &Vec<char>, close_a: &Vec<char>) -> (r: Option<
    Vec<char>,
>)
    requires
        open_a@.len() > 0,
        close_a@.len() > 0,
    ensures
        r is Some <==> has_fragment(text@, open_a@, close_a@),
        r is Some ==> r.unwrap()@ == fragment(text@, open_a@, close_a@),
{
    match find_first(text, open_a) {
        None => {
            assert(!has_fragment(text@, open_a@, close_a@));
            None
        },
        Some(i) => {
            let n: usize = text.len();
            assert(i + open_a@.len() <= n);
            let lo: usize = i + open_a.len();
            match find_last_from(text, close_a, lo) {
                None => {
                    proof {
                        if has_fragment(text@, open_a@, close_a@) {
                            let (i2, j2) = choose|i2: int, j2: int|
                                occurs_at(text@, open_a@, i2) && occurs_at(text@, close_a@, j2)
                                    && i2 + open_a@.len() <= j2;
                            assert(i <= i2);
                            assert(lo <= j2);
                            assert(!occurs_at(text@, close_a@, j2));
                        }
                    }
                    None
                },
                Some(j) => {
                    proof {
                        lemma_fragment_value(
                            text@,
                            open_a@,
                            close_a@,
                            i as int,
                            j as int,
                        );
                    }
                    Some(copy_range(text, lo, j))
                },
            }
        },
    }
}

} // verus!
