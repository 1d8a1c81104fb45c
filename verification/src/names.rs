//! Vectors of strings used as sets (no text occurs twice), and their sorting by code point.
use vstd::prelude::*;

use crate::text::{chars_of, slice_eq};

verus! {

/// The texts held by a vector of strings.
pub open spec fn texts(v: Seq<String>) -> Seq<Seq<char>> {
    v.map_values(|s: String| s@)
}

/// `x` added to `s` unless already there (`HashSet::insert` on a set kept in insertion order).
pub open spec fn insert_text(s: Seq<Seq<char>>, x: Seq<char>) -> Seq<Seq<char>> {
    if s.contains(x) {
        s
    } else {
        s.push(x)
    }
}

/// Every text of `xs` added in order.
pub open spec fn insert_all(s: Seq<Seq<char>>, xs: Seq<Seq<char>>) -> Seq<Seq<char>>
    decreases xs.len(),
{
    if xs.len() == 0 {
        s
    } else {
        insert_text(insert_all(s, xs.drop_last()), xs.last())
    }
}

/// Lexicographic order by code point (`str`'s `Ord`, which agrees with byte order of UTF-8).
pub open spec fn text_lt(a: Seq<char>, b: Seq<char>) -> bool
    decreases a.len(),
{
    if a.len() == 0 {
        b.len() > 0
    } else if b.len() == 0 {
        false
    } else if a[0] != b[0] {
        a[0] < b[0]
    } else {
        text_lt(a.drop_first(), b.drop_first())
    }
}

/// Strictly increasing under `text_lt`.
pub open spec fn strictly_sorted(s: Seq<Seq<char>>) -> bool {
    forall|i: int, j: int| 0 <= i < j < s.len() ==> text_lt(#[trigger] s[i], #[trigger] s[j])
}

pub proof fn lemma_text_lt_transitive(a: Seq<char>, b: Seq<char>, c: Seq<char>)
    requires
        text_lt(a, b),
        text_lt(b, c),
    ensures
        text_lt(a, c),
    decreases a.len(),
{
    if a.len() > 0 && b.len() > 0 && c.len() > 0 && a[0] == b[0] && b[0] == c[0] {
        lemma_text_lt_transitive(a.drop_first(), b.drop_first(), c.drop_first());
    }
}

pub proof fn lemma_text_lt_total(a: Seq<char>, b: Seq<char>)
    ensures
        a == b || text_lt(a, b) || text_lt(b, a),
    decreases a.len(),
{
    if a.len() > 0 && b.len() > 0 && a[0] == b[0] {
        lemma_text_lt_total(a.drop_first(), b.drop_first());
        if a.drop_first() == b.drop_first() {
            assert(a =~= seq![a[0]] + a.drop_first());
            assert(b =~= seq![b[0]] + b.drop_first());
        }
    } else if a.len() == 0 && b.len() == 0 {
        assert(a =~= b);
    }
}

proof fn lemma_texts_push(v: Seq<String>, s: String)
    ensures
        texts(v.push(s)) == texts(v).push(s@),
{
    assert(texts(v.push(s)) =~= texts(v).push(s@));
}

/// `text_lt` over character slices.
pub fn chars_lt(a: &[char], b: &[char]) -> (res: bool)
    ensures
        res == text_lt(a@, b@),
{
    let mut i: usize = 0;
    assert(a@.skip(0) =~= a@);
    assert(b@.skip(0) =~= b@);
    while i < a.len() && i < b.len() && a[i] == b[i]
        invariant
            i <= a@.len(),
            i <= b@.len(),
            text_lt(a@, b@) == text_lt(a@.skip(i as int), b@.skip(i as int)),
        decreases a@.len() - i,
    {
        proof {
            assert(a@.skip(i as int).drop_first() =~= a@.skip(i + 1));
            assert(b@.skip(i as int).drop_first() =~= b@.skip(i + 1));
        }
        i = i + 1;
    }
    if i == a.len() {
        i < b.len()
    } else if i == b.len() {
        false
    } else {
        a[i] < b[i]
    }
}

/// `text_lt` over strings.
pub fn str_lt(a: &str, b: &str) -> (res: bool)
    ensures
        res == text_lt(a@, b@),
{
    let x = chars_of(a);
    let y = chars_of(b);
    chars_lt(x.as_slice(), y.as_slice())
}

/// Whether `v` holds the text `s`.
pub fn contains_text(v: &Vec<String>, s: &str) -> (res: bool)
    ensures
        res == texts(v@).contains(s@),
{
    let target = chars_of(s);
    for i in 0..v.len()
        invariant
            target@ == s@,
            forall|j: int| 0 <= j < i ==> texts(v@)[j] != s@,
    {
        let c = chars_of(v[i].as_str());
        if slice_eq(c.as_slice(), target.as_slice()) {
            assert(texts(v@)[i as int] == s@);
            return true;
        }
    }
    proof {
        if texts(v@).contains(s@) {
            let j = choose|j: int| 0 <= j < texts(v@).len() && texts(v@)[j] == s@;
            assert(texts(v@)[j] != s@);
        }
    }
    false
}

/// Adds `s` to the set `v` unless it holds that text already.
pub fn insert_string(v: &mut Vec<String>, s: String)
    ensures
        texts(final(v)@) == insert_text(texts(old(v)@), s@),
{
    if !contains_text(v, s.as_str()) {
        proof {
            lemma_texts_push(v@, s);
        }
        v.push(s);
    }
}

proof fn lemma_insert_text_distinct(s: Seq<Seq<char>>, x: Seq<char>)
    requires
        s.no_duplicates(),
    ensures
        insert_text(s, x).no_duplicates(),
        insert_text(s, x).to_set() == s.to_set().insert(x),
{
    if !s.contains(x) {
        assert forall|i: int, j: int|
            0 <= i < s.push(x).len() && 0 <= j < s.push(x).len() && i != j implies s.push(x)[i]
            != s.push(x)[j] by {
            if i == s.len() {
                assert(s[j] != x);
            } else if j == s.len() {
                assert(s[i] != x);
            }
        }
        assert(s.push(x).to_set() =~= s.to_set().insert(x)) by {
            assert forall|y: Seq<char>| s.push(x).to_set().contains(y) <==> s.to_set().insert(x).contains(
                y,
            ) by {
                if s.push(x).contains(y) {
                    let k = choose|k: int| 0 <= k < s.push(x).len() && s.push(x)[k] == y;
                    if k < s.len() {
                        assert(s.contains(y));
                    }
                }
                if s.contains(y) {
                    let k = choose|k: int| 0 <= k < s.len() && s[k] == y;
                    assert(s.push(x)[k] == y);
                }
                if y == x {
                    assert(s.push(x)[s.len() as int] == x);
                }
            }
        }
    } else {
        assert(s.to_set().insert(x) =~= s.to_set());
    }
}

/// Inserting keeps a set free of repeats and adds exactly the new texts.
pub proof fn lemma_insert_all_distinct(s: Seq<Seq<char>>, xs: Seq<Seq<char>>)
    requires
        s.no_duplicates(),
    ensures
        insert_all(s, xs).no_duplicates(),
        insert_all(s, xs).to_set() == s.to_set().union(xs.to_set()),
    decreases xs.len(),
{
    if xs.len() == 0 {
        assert(xs.to_set() =~= Set::empty());
        assert(s.to_set().union(xs.to_set()) =~= s.to_set());
    } else {
        lemma_insert_all_distinct(s, xs.drop_last());
        lemma_insert_text_distinct(insert_all(s, xs.drop_last()), xs.last());
        assert(xs.to_set() =~= xs.drop_last().to_set().insert(xs.last())) by {
            assert forall|y: Seq<char>| xs.to_set().contains(y) <==> xs.drop_last().to_set().insert(
                xs.last(),
            ).contains(y) by {
                if xs.contains(y) {
                    let k = choose|k: int| 0 <= k < xs.len() && xs[k] == y;
                    if k < xs.len() - 1 {
                        assert(xs.drop_last()[k] == y);
                    }
                }
                if xs.drop_last().contains(y) {
                    let k = choose|k: int| 0 <= k < xs.drop_last().len() && xs.drop_last()[k] == y;
                    assert(xs[k] == y);
                }
                if y == xs.last() {
                    assert(xs[xs.len() - 1] == y);
                }
            }
        }
        assert(s.to_set().union(xs.to_set()) =~= s.to_set().union(xs.drop_last().to_set()).insert(
            xs.last(),
        ));
    }
}

/// Adds every string of `items` to the set `v`, in order.
pub fn insert_strings(v: &mut Vec<String>, items: &Vec<String>)
    ensures
        texts(final(v)@) == insert_all(texts(old(v)@), texts(items@)),
{
    let ghost start = texts(v@);
    let ghost all = texts(items@);
    for i in 0..items.len()
        invariant
            all == texts(items@),
            texts(v@) == insert_all(start, all.take(i as int)),
    {
        let copy = crate::text::to_owned(items[i].as_str());
        insert_string(v, copy);
        assert(all.take(i + 1).drop_last() =~= all.take(i as int));
    }
    assert(all.take(all.len() as int) =~= all);
}

/// Sorts a set of texts by code point (`sort_by(|a, b| a.cmp(b))` on distinct strings).
pub fn sort_texts(v: &Vec<String>) -> (res: Vec<String>)
    requires
        texts(v@).no_duplicates(),
    ensures
        strictly_sorted(texts(res@)),
        texts(res@).to_set() == texts(v@).to_set(),
        res@.len() == v@.len(),
{
    let ghost all = texts(v@);
    let mut res: Vec<String> = Vec::new();
    for i in 0..v.len()
        invariant
            all == texts(v@),
            all.no_duplicates(),
            res@.len() == i,
            strictly_sorted(texts(res@)),
            texts(res@).to_set() == all.take(i as int).to_set(),
    {
        let x = crate::text::to_owned(v[i].as_str());
        let ghost r = texts(res@);
        proof {
            if r.contains(x@) {
                let k = choose|k: int| 0 <= k < r.len() && r[k] == x@;
                assert(r.to_set().contains(x@));
                assert(all.take(i as int).to_set().contains(x@));
                assert(all.take(i as int).contains(x@));
                let m = choose|m: int| 0 <= m < i && all.take(i as int)[m] == x@;
                assert(all[m] == all[i as int]);
            }
        }
        let mut pos: usize = 0;
        while pos < res.len() && !str_lt(x.as_str(), res[pos].as_str())
            invariant
                r == texts(res@),
                !r.contains(x@),
                pos <= r.len(),
                forall|k: int| 0 <= k < pos ==> text_lt(#[trigger] r[k], x@),
            decreases r.len() - pos,
        {
            proof {
                lemma_text_lt_total(r[pos as int], x@);
                if r[pos as int] == x@ {
                    assert(r.contains(x@));
                }
            }
            pos = pos + 1;
        }
        proof {
            if pos < r.len() {
                assert forall|k: int| pos <= k < r.len() implies text_lt(x@, #[trigger] r[k]) by {
                    if k > pos {
                        lemma_text_lt_transitive(x@, r[pos as int], r[k]);
                    }
                }
            }
        }
        res.insert(pos, x);
        proof {
            let r2 = texts(res@);
            assert(r2 =~= r.insert(pos as int, x@));
            assert forall|p: int, q: int| 0 <= p < q < r2.len() implies text_lt(
                #[trigger] r2[p],
                #[trigger] r2[q],
            ) by {
                if p < pos && q < pos {
                } else if p < pos && q == pos {
                } else if p < pos && q > pos {
                    assert(r2[q] == r[q - 1]);
                } else if p == pos {
                    assert(r2[q] == r[q - 1]);
                } else {
                    assert(r2[p] == r[p - 1]);
                    assert(r2[q] == r[q - 1]);
                }
            }
            assert(all.take(i + 1) =~= all.take(i as int).push(x@));
            assert(r2.to_set() =~= r.to_set().insert(x@)) by {
                assert forall|y: Seq<char>| r2.to_set().contains(y) <==> r.to_set().insert(x@).contains(y) by {
                    if r2.contains(y) {
                        let k = choose|k: int| 0 <= k < r2.len() && r2[k] == y;
                        if k < pos {
                            assert(r[k] == y);
                        } else if k > pos {
                            assert(r[k - 1] == y);
                        }
                    }
                    if r.contains(y) {
                        let k = choose|k: int| 0 <= k < r.len() && r[k] == y;
                        if k < pos {
                            assert(r2[k] == y);
                        } else {
                            assert(r2[k + 1] == y);
                        }
                    }
                    if y == x@ {
                        assert(r2[pos as int] == y);
                    }
                }
            }
            assert(all.take(i as int).push(x@).to_set() =~= all.take(i as int).to_set().insert(x@)) by {
                let t = all.take(i as int);
                assert forall|y: Seq<char>| t.push(x@).to_set().contains(y) <==> t.to_set().insert(x@).contains(y) by {
                    if t.push(x@).contains(y) {
                        let k = choose|k: int| 0 <= k < t.push(x@).len() && t.push(x@)[k] == y;
                        if k < t.len() {
                            assert(t[k] == y);
                        }
                    }
                    if t.contains(y) {
                        let k = choose|k: int| 0 <= k < t.len() && t[k] == y;
                        assert(t.push(x@)[k] == y);
                    }
                    if y == x@ {
                        assert(t.push(x@)[t.len() as int] == y);
                    }
                }
            }
        }
    }
    assert(all.take(all.len() as int) =~= all);
    res
}

/// `insert_all` over a concatenation is two successive insertions.
pub proof fn lemma_insert_all_concat(s: Seq<Seq<char>>, a: Seq<Seq<char>>, b: Seq<Seq<char>>)
    ensures
        insert_all(s, a + b) == insert_all(insert_all(s, a), b),
    decreases b.len(),
{
    if b.len() == 0 {
        assert(a + b =~= a);
    } else {
        assert((a + b).drop_last() =~= a + b.drop_last());
        lemma_insert_all_concat(s, a, b.drop_last());
    }
}

} // verus!
