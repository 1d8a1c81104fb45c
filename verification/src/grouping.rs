//! Grouping items by a key, groups in the order their keys first appear.
use vstd::prelude::*;

verus! {

/// A key items are grouped by: a text, a number, or twenty raw bytes.
pub enum GroupKey {
    Text(Vec<char>),
    Number(u32),
    Bytes([u8; 20]),
}

/// The value of a key.
pub enum KeyView {
    Text(Seq<char>),
    Number(u32),
    Bytes(Seq<u8>),
}

impl View for GroupKey {
    type V = KeyView;

    open spec fn view(&self) -> KeyView {
        match self {
            GroupKey::Text(t) => KeyView::Text(t@),
            GroupKey::Number(n) => KeyView::Number(*n),
            GroupKey::Bytes(b) => KeyView::Bytes(b@),
        }
    }
}

/// A group: its key and the indices of its members, in order.
pub struct Group {
    pub key: GroupKey,
    pub members: Vec<usize>,
}

/// Indices as integers.
pub open spec fn ints(v: Seq<usize>) -> Seq<int> {
    v.map_values(|i: usize| i as int)
}

pub open spec fn group_view(g: Group) -> (KeyView, Seq<int>) {
    (g.key@, ints(g.members@))
}

/// Every index of the entries lies in `[0, n)`.
pub open spec fn entries_below(e: Seq<(KeyView, int)>, n: int) -> bool {
    forall|i: int| 0 <= i < e.len() ==> 0 <= #[trigger] e[i].1 < n
}

/// Every member of every group lies in `[0, n)`.
pub open spec fn groups_below(g: Seq<(KeyView, Seq<int>)>, n: int) -> bool {
    forall|i: int, m: int| 0 <= i < g.len() && 0 <= m < g[i].1.len() ==> 0 <= #[trigger] g[i].1[m] < n
}

/// Every group member satisfies what every entry's index satisfies.
pub proof fn lemma_groups_pred(e: Seq<(KeyView, int)>, p: spec_fn(int) -> bool)
    requires
        forall|k: int| 0 <= k < e.len() ==> p(#[trigger] e[k].1),
    ensures
        forall|i: int, m: int|
            0 <= i < spec_groups(e).len() && 0 <= m < spec_groups(e)[i].1.len() ==> p(#[trigger] spec_groups(e)[i].1[m]),
    decreases e.len(),
{
    if e.len() > 0 {
        let d = e.drop_last();
        assert forall|k: int| 0 <= k < d.len() implies p(#[trigger] d[k].1) by {
            assert(d[k] == e[k]);
        }
        lemma_groups_pred(d, p);
        let g = spec_groups(d);
        let (k, x) = e.last();
        assert(p(x)) by {
            assert(e[e.len() - 1] == e.last());
        }
        lemma_find_group(g, k);
        let j = find_group(g, k);
        let r = spec_groups(e);
        assert forall|i: int, m: int| 0 <= i < r.len() && 0 <= m < r[i].1.len() implies p(#[trigger] r[i].1[m]) by {
            if j >= 0 && i == j {
                if m < g[j].1.len() {
                    assert(r[i].1[m] == g[j].1[m]);
                }
            } else if i < g.len() {
                assert(r[i] == g[i]);
            }
        }
    }
}

pub proof fn lemma_groups_below(e: Seq<(KeyView, int)>, n: int)
    requires
        entries_below(e, n),
    ensures
        groups_below(spec_groups(e), n),
    decreases e.len(),
{
    if e.len() > 0 {
        let d = e.drop_last();
        assert forall|i: int| 0 <= i < d.len() implies 0 <= #[trigger] d[i].1 < n by {
            assert(d[i] == e[i]);
        }
        lemma_groups_below(d, n);
        let g = spec_groups(d);
        let (k, x) = e.last();
        assert(0 <= x < n) by {
            assert(e[e.len() - 1] == e.last());
        }
        lemma_find_group(g, k);
        let j = find_group(g, k);
        let r = spec_groups(e);
        if j >= 0 {
            assert forall|i: int, m: int| 0 <= i < r.len() && 0 <= m < r[i].1.len() implies 0 <= #[trigger] r[i].1[m] < n by {
                if i == j {
                    if m < g[j].1.len() {
                        assert(r[i].1[m] == g[j].1[m]);
                    }
                } else {
                    assert(r[i] == g[i]);
                }
            }
        } else {
            assert forall|i: int, m: int| 0 <= i < r.len() && 0 <= m < r[i].1.len() implies 0 <= #[trigger] r[i].1[m] < n by {
                if i < g.len() {
                    assert(r[i] == g[i]);
                }
            }
        }
    }
}

pub open spec fn groups_view(gs: Seq<Group>) -> Seq<(KeyView, Seq<int>)> {
    gs.map_values(|g: Group| group_view(g))
}

/// The position of the group with key `k`, or -1.
pub open spec fn find_group(g: Seq<(KeyView, Seq<int>)>, k: KeyView) -> int
    decreases g.len(),
{
    if g.len() == 0 {
        -1
    } else if g[0].0 == k {
        0
    } else {
        let r = find_group(g.drop_first(), k);
        if r < 0 {
            -1
        } else {
            r + 1
        }
    }
}

/// The groups of keyed indices: one per distinct key, in order of first appearance, each
/// listing its indices in order.
pub open spec fn spec_groups(entries: Seq<(KeyView, int)>) -> Seq<(KeyView, Seq<int>)>
    decreases entries.len(),
{
    if entries.len() == 0 {
        Seq::empty()
    } else {
        let g = spec_groups(entries.drop_last());
        let (k, i) = entries.last();
        let j = find_group(g, k);
        if j >= 0 {
            g.update(j, (k, g[j].1.push(i)))
        } else {
            g.push((k, seq![i]))
        }
    }
}

pub proof fn lemma_find_group(g: Seq<(KeyView, Seq<int>)>, k: KeyView)
    ensures
        -1 <= find_group(g, k) < g.len(),
        find_group(g, k) >= 0 ==> g[find_group(g, k)].0 == k,
        find_group(g, k) < 0 ==> forall|j: int| 0 <= j < g.len() ==> g[j].0 != k,
    decreases g.len(),
{
    if g.len() > 0 && g[0].0 != k {
        lemma_find_group(g.drop_first(), k);
        if find_group(g, k) < 0 {
            assert forall|j: int| 0 <= j < g.len() implies g[j].0 != k by {
                if j > 0 {
                    assert(g[j] == g.drop_first()[j - 1]);
                }
            }
        }
    }
}

proof fn lemma_find_group_first(g: Seq<(KeyView, Seq<int>)>, k: KeyView, j: int)
    requires
        0 <= j < g.len(),
        g[j].0 == k,
        forall|m: int| 0 <= m < j ==> g[m].0 != k,
    ensures
        find_group(g, k) == j,
    decreases g.len(),
{
    if j > 0 {
        assert forall|m: int| 0 <= m < j - 1 implies g.drop_first()[m].0 != k by {
            assert(g.drop_first()[m] == g[m + 1]);
        }
        lemma_find_group_first(g.drop_first(), k, j - 1);
    }
}

/// Equality of keys.
pub fn key_eq(a: &GroupKey, b: &GroupKey) -> (res: bool)
    ensures
        res == (a@ == b@),
{
    match (a, b) {
        (GroupKey::Text(x), GroupKey::Text(y)) => {
            let r = crate::text::slice_eq(x.as_slice(), y.as_slice());
            r
        },
        (GroupKey::Number(x), GroupKey::Number(y)) => *x == *y,
        (GroupKey::Bytes(x), GroupKey::Bytes(y)) => {
            let mut i: usize = 0;
            while i < 20
                invariant
                    i <= 20,
                    a@ == KeyView::Bytes(x@),
                    b@ == KeyView::Bytes(y@),
                    x@.len() == 20,
                    y@.len() == 20,
                    forall|m: int| 0 <= m < i ==> x@[m] == y@[m],
                decreases 20 - i,
            {
                if x[i] != y[i] {
                    assert(x@[i as int] != y@[i as int]);
                    assert(x@ != y@);
                    return false;
                }
                i = i + 1;
            }
            assert(x@ =~= y@);
            true
        },
        _ => false,
    }
}

/// A copy of a key.
pub fn key_clone(k: &GroupKey) -> (res: GroupKey)
    ensures
        res@ == k@,
{
    match k {
        GroupKey::Text(t) => {
            let mut v: Vec<char> = Vec::new();
            for i in 0..t.len()
                invariant
                    v@ == t@.take(i as int),
            {
                v.push(t[i]);
                assert(t@.take(i + 1) =~= t@.take(i as int).push(t@[i as int]));
            }
            assert(t@.take(t@.len() as int) =~= t@);
            GroupKey::Text(v)
        },
        GroupKey::Number(n) => GroupKey::Number(*n),
        GroupKey::Bytes(b) => GroupKey::Bytes(*b),
    }
}

pub open spec fn entries_view(e: Seq<(GroupKey, usize)>) -> Seq<(KeyView, int)> {
    e.map_values(|p: (GroupKey, usize)| (p.0@, p.1 as int))
}

/// Groups keyed indices by key, groups in order of first appearance.
pub fn group_entries(entries: &Vec<(GroupKey, usize)>) -> (res: Vec<Group>)
    ensures
        groups_view(res@) == spec_groups(entries_view(entries@)),
{
    let ghost ev = entries_view(entries@);
    let mut groups: Vec<Group> = Vec::new();
    for n in 0..entries.len()
        invariant
            ev == entries_view(entries@),
            groups_view(groups@) == spec_groups(ev.take(n as int)),
    {
        let ghost g = groups_view(groups@);
        assert(ev.take(n + 1).drop_last() =~= ev.take(n as int));
        assert(ev.take(n + 1).last() == ev[n as int]);
        let key = &entries[n].0;
        let index = entries[n].1;
        let mut j: usize = 0;
        while j < groups.len() && !key_eq(&groups[j].key, key)
            invariant
                g == groups_view(groups@),
                j <= g.len(),
                forall|m: int| 0 <= m < j ==> g[m].0 != key@,
            decreases g.len() - j,
        {
            j = j + 1;
        }
        proof {
            lemma_find_group(g, key@);
        }
        if j < groups.len() {
            proof {
                lemma_find_group_first(g, key@, j as int);
            }
            let mut group = groups.remove(j);
            let ghost before = group.members@;
            group.members.push(index);
            assert(ints(group.members@) =~= ints(before).push(index as int));
            groups.insert(j, group);
            assert(groups_view(groups@) =~= g.update(j as int, (key@, g[j as int].1.push(index as int))));
        } else {
            let mut members: Vec<usize> = Vec::new();
            members.push(index);
            let k2 = key_clone(key);
            let group = Group { key: k2, members };
            assert(ints(group.members@) =~= seq![index as int]);
            groups.push(group);
            assert(groups_view(groups@) =~= g.push((key@, seq![index as int])));
        }
    }
    assert(ev.take(ev.len() as int) =~= ev);
    groups
}

} // verus!
