//! What holds of every conflict report: each file's entry lists the conflicts it is in, only
//! enabled files are ever involved, and the kinds of conflict each folder can show.
use vstd::prelude::*;

use crate::conflicts::{
    add_to_items, apply_conflict, dedup_by_hash, enabled_of, group_conflict, groups_conflicts,
    hash_position, hashes_of, lemma_hash_position, keyed, keyed_conflicts, mismatch_conflicts, report_of, spec_all_conflicts,
    target_entries, field_key, GroupCheck, KeyField, MessageView,
};
use crate::grouping::{find_group, lemma_find_group, lemma_groups_pred, spec_groups, KeyView};
use crate::model::{ContentFolder, InstanceContentSummary, Loader};

verus! {

/// How often a hash occurs.
pub open spec fn count_in(hs: Seq<u64>, h: u64) -> nat
    decreases hs.len(),
{
    if hs.len() == 0 {
        0
    } else {
        count_in(hs.drop_last(), h) + if hs.last() == h {
            1nat
        } else {
            0nat
        }
    }
}

/// A message repeated `n` times.
pub open spec fn repeat(m: MessageView, n: nat) -> Seq<MessageView> {
    Seq::new(n, |i: int| m)
}

/// The entry of a hash in the per-file map, empty when it has none.
pub open spec fn lookup(m: Map<u64, Seq<MessageView>>, h: u64) -> Seq<MessageView> {
    if m.contains_key(h) {
        m[h]
    } else {
        Seq::empty()
    }
}

/// The messages of the conflicts a file is in, in order, once per time it is involved.
pub open spec fn entry_of(cs: Seq<(MessageView, Seq<u64>)>, h: u64) -> Seq<MessageView>
    decreases cs.len(),
{
    if cs.len() == 0 {
        Seq::empty()
    } else {
        entry_of(cs.drop_last(), h) + repeat(cs.last().0, count_in(cs.last().1, h))
    }
}

/// No file has an empty entry.
pub open spec fn entries_nonempty(m: Map<u64, Seq<MessageView>>) -> bool {
    forall|h: u64| m.contains_key(h) ==> #[trigger] m[h].len() > 0
}

proof fn lemma_add_to_items(m: Map<u64, Seq<MessageView>>, hs: Seq<u64>, msg: MessageView, h: u64)
    ensures
        lookup(add_to_items(m, hs, msg), h) == lookup(m, h) + repeat(msg, count_in(hs, h)),
        add_to_items(m, hs, msg).contains_key(h) <==> (m.contains_key(h) || count_in(hs, h) > 0),
        entries_nonempty(m) ==> entries_nonempty(add_to_items(m, hs, msg)),
    decreases hs.len(),
{
    if hs.len() == 0 {
        assert(repeat(msg, 0) =~= Seq::<MessageView>::empty());
        assert(lookup(m, h) + repeat(msg, 0) =~= lookup(m, h));
    } else {
        let m2 = add_to_items(m, hs.drop_last(), msg);
        lemma_add_to_items(m, hs.drop_last(), msg, h);
        let last = hs.last();
        lemma_add_to_items(m, hs.drop_last(), msg, last);
        let c = count_in(hs.drop_last(), h);
        if last == h {
            assert(repeat(msg, c + 1) =~= repeat(msg, c).push(msg));
            assert(lookup(m, h) + repeat(msg, c + 1) =~= (lookup(m, h) + repeat(msg, c)).push(msg));
        }
        if entries_nonempty(m) {
            let r = add_to_items(m, hs, msg);
            assert forall|k: u64| r.contains_key(k) implies #[trigger] r[k].len() > 0 by {
                if k != last {
                    assert(r[k] == m2[k]);
                }
            }
        }
    }
}

/// The report of a sequence of conflicts lists every message in order, and gives each file
/// exactly the messages of the conflicts it is involved in, in order (once per time it is
/// involved); a file in no conflict has no entry.
pub proof fn law_report_entries(cs: Seq<(MessageView, Seq<u64>)>, h: u64)
    ensures
        report_of(cs).0 == cs.map_values(|x: (MessageView, Seq<u64>)| x.0),
        lookup(report_of(cs).1, h) == entry_of(cs, h),
        report_of(cs).1.contains_key(h) <==> entry_of(cs, h).len() > 0,
        entries_nonempty(report_of(cs).1),
    decreases cs.len(),
{
    if cs.len() == 0 {
        assert(cs.map_values(|x: (MessageView, Seq<u64>)| x.0) =~= Seq::<MessageView>::empty());
        assert(lookup(Map::<u64, Seq<MessageView>>::empty(), h) =~= Seq::<MessageView>::empty());
    } else {
        law_report_entries(cs.drop_last(), h);
        let r = report_of(cs.drop_last());
        let x = cs.last();
        assert(report_of(cs) == apply_conflict(r, x));
        lemma_add_to_items(r.1, x.1, x.0, h);
        assert(cs.map_values(|y: (MessageView, Seq<u64>)| y.0) =~= cs.drop_last().map_values(
            |y: (MessageView, Seq<u64>)| y.0,
        ).push(x.0));
        if report_of(cs).1.contains_key(h) {
            assert(report_of(cs).1[h].len() > 0);
        }
        if entry_of(cs, h).len() > 0 {
            if !r.1.contains_key(h) {
                assert(entry_of(cs.drop_last(), h).len() == 0);
                assert(count_in(x.1, h) > 0);
            }
        }
    }
}

/// A filename hash belongs to an enabled content file.
pub open spec fn enabled_hash(c: Seq<InstanceContentSummary>, h: u64) -> bool {
    exists|i: int| 0 <= i < c.len() && c[i].enabled && #[trigger] c[i].filename_hash == h
}

/// Every hash belongs to an enabled content file.
pub open spec fn all_enabled_hashes(c: Seq<InstanceContentSummary>, hs: Seq<u64>) -> bool {
    forall|j: int| 0 <= j < hs.len() ==> #[trigger] enabled_hash(c, hs[j])
}

/// Every conflict involves only enabled content files.
pub open spec fn only_enabled(c: Seq<InstanceContentSummary>, cs: Seq<(MessageView, Seq<u64>)>) -> bool {
    forall|k: int| 0 <= k < cs.len() ==> #[trigger] all_enabled_hashes(c, cs[k].1)
}

/// An index of an enabled content file.
pub open spec fn good_index(c: Seq<InstanceContentSummary>, i: int) -> bool {
    0 <= i < c.len() && c[i].enabled
}

/// An index of a content file.
pub open spec fn in_range(c: Seq<InstanceContentSummary>, i: int) -> bool {
    0 <= i < c.len()
}

proof fn lemma_hashes_enabled(c: Seq<InstanceContentSummary>, idx: Seq<int>)
    requires
        forall|k: int| 0 <= k < idx.len() ==> good_index(c, #[trigger] idx[k]),
    ensures
        all_enabled_hashes(c, hashes_of(c, idx)),
{
    assert forall|j: int| 0 <= j < hashes_of(c, idx).len() implies #[trigger] enabled_hash(c, hashes_of(c, idx)[j]) by {
        let i = idx[j];
        assert(good_index(c, i));
        assert(c[i].filename_hash == hashes_of(c, idx)[j]);
    }
}

proof fn lemma_enabled_of_good(c: Seq<InstanceContentSummary>, idx: Seq<int>)
    requires
        forall|k: int| 0 <= k < idx.len() ==> in_range(c, #[trigger] idx[k]),
    ensures
        forall|k: int| 0 <= k < enabled_of(c, idx).len() ==> good_index(c, #[trigger] enabled_of(c, idx)[k]),
    decreases idx.len(),
{
    if idx.len() > 0 {
        let d = idx.drop_last();
        assert forall|k: int| 0 <= k < d.len() implies in_range(c, #[trigger] d[k]) by {
            assert(d[k] == idx[k]);
        }
        lemma_enabled_of_good(c, d);
        assert(in_range(c, idx[idx.len() - 1]));
        let rest = enabled_of(c, d);
        let r = enabled_of(c, idx);
        assert forall|k: int| 0 <= k < r.len() implies good_index(c, #[trigger] r[k]) by {
            if k < rest.len() {
                assert(r[k] == rest[k]);
            }
        }
    }
}

proof fn lemma_dedup_members(c: Seq<InstanceContentSummary>, idx: Seq<int>)
    requires
        forall|k: int| 0 <= k < idx.len() ==> good_index(c, #[trigger] idx[k]),
    ensures
        forall|k: int| 0 <= k < dedup_by_hash(c, idx).len() ==> good_index(c, #[trigger] dedup_by_hash(c, idx)[k]),
    decreases idx.len(),
{
    if idx.len() > 0 {
        let d = idx.drop_last();
        assert forall|k: int| 0 <= k < d.len() implies good_index(c, #[trigger] d[k]) by {
            assert(d[k] == idx[k]);
        }
        lemma_dedup_members(c, d);
        let i = idx.last();
        assert(good_index(c, idx[idx.len() - 1]));
        let dd = dedup_by_hash(c, d);
        let r = dedup_by_hash(c, idx);
        lemma_hash_position(c, dd, c[i].filename_hash);
        let j = hash_position(c, dd, c[i].filename_hash);
        assert forall|k: int| 0 <= k < r.len() implies good_index(c, #[trigger] r[k]) by {
            if j >= 0 {
                if k != j {
                    assert(r[k] == dd[k]);
                }
            } else if k < dd.len() {
                assert(r[k] == dd[k]);
            }
        }
    }
}

proof fn lemma_keyed_good(c: Seq<InstanceContentSummary>, n: int, field: KeyField)
    requires
        0 <= n <= c.len(),
    ensures
        forall|k: int| 0 <= k < keyed(c, n, field).len() ==> in_range(c, #[trigger] keyed(c, n, field)[k].1),
        field == KeyField::Hash || field == KeyField::Name ==> forall|k: int|
            0 <= k < keyed(c, n, field).len() ==> good_index(c, #[trigger] keyed(c, n, field)[k].1),
    decreases n,
{
    if n > 0 {
        lemma_keyed_good(c, n - 1, field);
        let rest = keyed(c, n - 1, field);
        match field_key(field, c[n - 1]) {
            Some(key) => {
                let r = rest.push((key, n - 1));
                assert forall|k: int| 0 <= k < r.len() implies in_range(c, #[trigger] r[k].1) by {
                    if k < rest.len() {
                        assert(r[k] == rest[k]);
                    }
                }
                if field == KeyField::Hash || field == KeyField::Name {
                    assert forall|k: int| 0 <= k < r.len() implies good_index(c, #[trigger] r[k].1) by {
                        if k < rest.len() {
                            assert(r[k] == rest[k]);
                        }
                    }
                }
            },
            None => {},
        }
    }
}

proof fn lemma_targets_good(c: Seq<InstanceContentSummary>, n: int)
    requires
        0 <= n <= c.len(),
    ensures
        forall|k: int| 0 <= k < target_entries(c, n).len() ==> good_index(c, #[trigger] target_entries(c, n)[k].1),
    decreases n,
{
    if n > 0 {
        lemma_targets_good(c, n - 1);
        let rest = target_entries(c, n - 1);
        let s = c[n - 1];
        if s.enabled {
            let add = s.content_summary.mixin_targets@.map_values(|t: String| (KeyView::Text(t@), n - 1));
            let r = rest + add;
            assert forall|k: int| 0 <= k < r.len() implies good_index(c, #[trigger] r[k].1) by {
                if k < rest.len() {
                    assert(r[k] == rest[k]);
                } else {
                    assert(r[k] == add[k - rest.len()]);
                }
            }
        }
    }
}

proof fn lemma_groups_conflicts_enabled(
    c: Seq<InstanceContentSummary>,
    check: GroupCheck,
    g: Seq<(KeyView, Seq<int>)>,
)
    requires
        forall|i: int, m: int| 0 <= i < g.len() && 0 <= m < g[i].1.len() ==> in_range(c, #[trigger] g[i].1[m]),
        check == GroupCheck::File || check == GroupCheck::Name || check == GroupCheck::MixinTarget ==> forall|
            i: int,
            m: int,
        | 0 <= i < g.len() && 0 <= m < g[i].1.len() ==> good_index(c, #[trigger] g[i].1[m]),
    ensures
        only_enabled(c, groups_conflicts(c, check, g)),
    decreases g.len(),
{
    if g.len() > 0 {
        let d = g.drop_last();
        assert forall|i: int, m: int| 0 <= i < d.len() && 0 <= m < d[i].1.len() implies in_range(c, #[trigger] d[i].1[m]) by {
            assert(d[i] == g[i]);
        }
        if check == GroupCheck::File || check == GroupCheck::Name || check == GroupCheck::MixinTarget {
            assert forall|i: int, m: int| 0 <= i < d.len() && 0 <= m < d[i].1.len() implies good_index(
                c,
                #[trigger] d[i].1[m],
            ) by {
                assert(d[i] == g[i]);
            }
        }
        lemma_groups_conflicts_enabled(c, check, d);
        let rest = groups_conflicts(c, check, d);
        let (key, idx) = g.last();
        let last = g.len() - 1;
        assert(g[last] == g.last());
        assert forall|k: int| 0 <= k < idx.len() implies in_range(c, #[trigger] idx[k]) by {
            assert(in_range(c, g[last].1[k]));
        }
        match group_conflict(c, check, key, idx) {
            Some(x) => {
                match check {
                    GroupCheck::File | GroupCheck::Name => {
                        assert forall|k: int| 0 <= k < idx.len() implies good_index(c, #[trigger] idx[k]) by {
                            assert(good_index(c, g[last].1[k]));
                        }
                        lemma_hashes_enabled(c, idx);
                    },
                    GroupCheck::MixinTarget => {
                        assert forall|k: int| 0 <= k < idx.len() implies good_index(c, #[trigger] idx[k]) by {
                            assert(good_index(c, g[last].1[k]));
                        }
                        lemma_dedup_members(c, idx);
                        lemma_hashes_enabled(c, dedup_by_hash(c, idx));
                    },
                    _ => {
                        lemma_enabled_of_good(c, idx);
                        lemma_hashes_enabled(c, enabled_of(c, idx));
                    },
                }
                let r = rest.push(x);
                assert forall|k: int| 0 <= k < r.len() implies #[trigger] all_enabled_hashes(c, r[k].1) by {
                    if k < rest.len() {
                        assert(r[k] == rest[k]);
                    }
                }
            },
            None => {},
        }
    }
}

proof fn lemma_mismatch_enabled(c: Seq<InstanceContentSummary>, n: int, l: Loader)
    requires
        0 <= n <= c.len(),
    ensures
        only_enabled(c, mismatch_conflicts(c, n, l)),
    decreases n,
{
    if n > 0 {
        lemma_mismatch_enabled(c, n - 1, l);
        let rest = mismatch_conflicts(c, n - 1, l);
        let r = mismatch_conflicts(c, n, l);
        if r.len() > rest.len() {
            let hs = r[r.len() - 1].1;
            assert(hs == seq![c[n - 1].filename_hash]);
            assert forall|j: int| 0 <= j < hs.len() implies #[trigger] enabled_hash(c, hs[j]) by {
                assert(c[n - 1].filename_hash == hs[j]);
            }
            assert forall|k: int| 0 <= k < r.len() implies #[trigger] all_enabled_hashes(c, r[k].1) by {
                if k < rest.len() {
                    assert(r[k] == rest[k]);
                }
            }
        }
    }
}

proof fn lemma_only_enabled_concat(
    c: Seq<InstanceContentSummary>,
    a: Seq<(MessageView, Seq<u64>)>,
    b: Seq<(MessageView, Seq<u64>)>,
)
    requires
        only_enabled(c, a),
        only_enabled(c, b),
    ensures
        only_enabled(c, a + b),
{
    assert forall|k: int| 0 <= k < (a + b).len() implies #[trigger] all_enabled_hashes(c, (a + b)[k].1) by {
        if k < a.len() {
            assert((a + b)[k] == a[k]);
        } else {
            assert((a + b)[k] == b[k - a.len()]);
        }
    }
}

proof fn lemma_keyed_conflicts_enabled(c: Seq<InstanceContentSummary>, check: GroupCheck, field: KeyField)
    requires
        check == GroupCheck::File ==> field == KeyField::Hash,
        check == GroupCheck::Name ==> field == KeyField::Name,
        check != GroupCheck::MixinTarget,
    ensures
        only_enabled(c, keyed_conflicts(c, check, field)),
{
    let e = keyed(c, c.len() as int, field);
    lemma_keyed_good(c, c.len() as int, field);
    lemma_groups_pred(e, |i: int| in_range(c, i));
    if field == KeyField::Hash || field == KeyField::Name {
        lemma_groups_pred(e, |i: int| good_index(c, i));
    }
    lemma_groups_conflicts_enabled(c, check, spec_groups(e));
}

/// Only enabled content files are ever involved in a conflict.
pub proof fn law_only_enabled_conflict(c: Seq<InstanceContentSummary>, folder: ContentFolder, l: Loader)
    ensures
        only_enabled(c, spec_all_conflicts(c, folder, l)),
{
    let empty = Seq::<(MessageView, Seq<u64>)>::empty();
    let a = if folder == ContentFolder::Mods {
        keyed_conflicts(c, GroupCheck::ModId, KeyField::ModId)
    } else {
        empty
    };
    if folder == ContentFolder::Mods {
        lemma_keyed_conflicts_enabled(c, GroupCheck::ModId, KeyField::ModId);
    }
    let b = keyed_conflicts(c, GroupCheck::ModrinthProject, KeyField::ModrinthProject);
    lemma_keyed_conflicts_enabled(c, GroupCheck::ModrinthProject, KeyField::ModrinthProject);
    let d = keyed_conflicts(c, GroupCheck::CurseforgeProject, KeyField::CurseforgeProject);
    lemma_keyed_conflicts_enabled(c, GroupCheck::CurseforgeProject, KeyField::CurseforgeProject);
    let f = keyed_conflicts(c, GroupCheck::File, KeyField::Hash);
    lemma_keyed_conflicts_enabled(c, GroupCheck::File, KeyField::Hash);
    let n = keyed_conflicts(c, GroupCheck::Name, KeyField::Name);
    lemma_keyed_conflicts_enabled(c, GroupCheck::Name, KeyField::Name);
    lemma_only_enabled_concat(c, a, b);
    lemma_only_enabled_concat(c, a + b, d);
    lemma_only_enabled_concat(c, a + b + d, f);
    lemma_only_enabled_concat(c, a + b + d + f, n);
    if folder == ContentFolder::Mods {
        let m = mismatch_conflicts(c, c.len() as int, l);
        lemma_mismatch_enabled(c, c.len() as int, l);
        let x = if l == Loader::Fabric {
            let e = target_entries(c, c.len() as int);
            lemma_targets_good(c, c.len() as int);
            lemma_groups_pred(e, |i: int| in_range(c, i));
            lemma_groups_pred(e, |i: int| good_index(c, i));
            lemma_groups_conflicts_enabled(c, GroupCheck::MixinTarget, spec_groups(e));
            groups_conflicts(c, GroupCheck::MixinTarget, spec_groups(e))
        } else {
            empty
        };
        lemma_only_enabled_concat(c, m, x);
        lemma_only_enabled_concat(c, a + b + d + f + n, m + x);
    } else {
        lemma_only_enabled_concat(c, a + b + d + f + n, empty);
    }
}

/// The message kind a group check reports.
pub open spec fn check_kind(check: GroupCheck, m: MessageView) -> bool {
    match check {
        GroupCheck::ModId => m is DuplicateModId,
        GroupCheck::ModrinthProject => m is DuplicateModrinthProject,
        GroupCheck::CurseforgeProject => m is DuplicateCurseforgeProject,
        GroupCheck::File => m is DuplicateFile,
        GroupCheck::Name => m is DuplicateName,
        GroupCheck::MixinTarget => m is MixinTarget,
    }
}

/// The shape of a reported conflict: a loader mismatch involves its one file, every other
/// conflict at least two; mixin conflicts involve different files.
pub open spec fn shape_ok(x: (MessageView, Seq<u64>)) -> bool {
    &&& x.0 is LoaderMismatch ==> x.1.len() == 1
    &&& !(x.0 is LoaderMismatch) ==> x.1.len() >= 2
    &&& x.0 is MixinTarget ==> x.1.no_duplicates()
}

/// Which conflicts a folder and loader can show: mod ids, loaders and mixins only in the mods
/// folder, and mixins only on Fabric.
pub open spec fn kind_allowed(folder: ContentFolder, l: Loader, m: MessageView) -> bool {
    &&& folder != ContentFolder::Mods ==> !(m is DuplicateModId || m is LoaderMismatch || m is MixinTarget)
    &&& l != Loader::Fabric ==> !(m is MixinTarget)
}

pub open spec fn all_shaped(folder: ContentFolder, l: Loader, cs: Seq<(MessageView, Seq<u64>)>) -> bool {
    forall|k: int| 0 <= k < cs.len() ==> (#[trigger] shape_ok(cs[k])) && kind_allowed(folder, l, cs[k].0)
}

proof fn lemma_dedup_distinct(c: Seq<InstanceContentSummary>, idx: Seq<int>)
    ensures
        forall|a: int, b: int|
            0 <= a < b < dedup_by_hash(c, idx).len() ==> c[#[trigger] dedup_by_hash(c, idx)[a]].filename_hash
                != c[#[trigger] dedup_by_hash(c, idx)[b]].filename_hash,
    decreases idx.len(),
{
    if idx.len() > 0 {
        let d = idx.drop_last();
        lemma_dedup_distinct(c, d);
        let dd = dedup_by_hash(c, d);
        let i = idx.last();
        let h = c[i].filename_hash;
        lemma_hash_position(c, dd, h);
        let j = hash_position(c, dd, h);
        let r = dedup_by_hash(c, idx);
        assert forall|a: int, b: int| 0 <= a < b < r.len() implies c[#[trigger] r[a]].filename_hash
            != c[#[trigger] r[b]].filename_hash by {
            if j >= 0 {
                assert(c[dd[j]].filename_hash == h);
                if a == j {
                    assert(r[b] == dd[b]);
                } else if b == j {
                    assert(r[a] == dd[a]);
                } else {
                    assert(r[a] == dd[a] && r[b] == dd[b]);
                }
            } else {
                assert(r[a] == dd[a]);
                if b < dd.len() {
                    assert(r[b] == dd[b]);
                } else {
                    assert(c[dd[a]].filename_hash != h);
                }
            }
        }
    }
}

proof fn lemma_enabled_of_len(c: Seq<InstanceContentSummary>, idx: Seq<int>)
    ensures
        enabled_of(c, idx).len() <= idx.len(),
    decreases idx.len(),
{
    if idx.len() > 0 {
        lemma_enabled_of_len(c, idx.drop_last());
    }
}

proof fn lemma_groups_conflicts_shape(
    c: Seq<InstanceContentSummary>,
    check: GroupCheck,
    g: Seq<(KeyView, Seq<int>)>,
)
    ensures
        forall|k: int|
            #![trigger groups_conflicts(c, check, g)[k]]
            0 <= k < groups_conflicts(c, check, g).len() ==> shape_ok(groups_conflicts(c, check, g)[k])
                && check_kind(check, groups_conflicts(c, check, g)[k].0),
    decreases g.len(),
{
    if g.len() > 0 {
        lemma_groups_conflicts_shape(c, check, g.drop_last());
        let rest = groups_conflicts(c, check, g.drop_last());
        let (key, idx) = g.last();
        match group_conflict(c, check, key, idx) {
            Some(x) => {
                if check == GroupCheck::MixinTarget {
                    lemma_dedup_distinct(c, idx);
                    let u = dedup_by_hash(c, idx);
                    let hs = hashes_of(c, u);
                    assert forall|a: int, b: int| 0 <= a < hs.len() && 0 <= b < hs.len() && a != b implies hs[a]
                        != hs[b] by {
                        if a < b {
                            assert(c[u[a]].filename_hash != c[u[b]].filename_hash);
                        } else {
                            assert(c[u[b]].filename_hash != c[u[a]].filename_hash);
                        }
                    }
                }
                match check {
                    GroupCheck::ModId | GroupCheck::ModrinthProject | GroupCheck::CurseforgeProject => {
                        assert(x.1 == hashes_of(c, enabled_of(c, idx)));
                        assert(x.1.len() == enabled_of(c, idx).len());
                    },
                    GroupCheck::File | GroupCheck::Name => {
                        assert(x.1.len() == idx.len());
                    },
                    GroupCheck::MixinTarget => {
                        assert(x.1 == hashes_of(c, dedup_by_hash(c, idx)));
                        assert(x.1.len() == dedup_by_hash(c, idx).len());
                    },
                }
                assert(shape_ok(x));
                assert(check_kind(check, x.0));
                let r = rest.push(x);
                assert forall|k: int| 0 <= k < r.len() implies (#[trigger] shape_ok(r[k])) && check_kind(check, r[k].0) by {
                    if k < rest.len() {
                        assert(r[k] == rest[k]);
                        assert(shape_ok(rest[k]) && check_kind(check, rest[k].0));
                    }
                }
            },
            None => {},
        }
    }
}

proof fn lemma_mismatch_shape(c: Seq<InstanceContentSummary>, n: int, l: Loader)
    ensures
        forall|k: int| 0 <= k < mismatch_conflicts(c, n, l).len() ==> (#[trigger] shape_ok(mismatch_conflicts(c, n, l)[k]))
            && mismatch_conflicts(c, n, l)[k].0 is LoaderMismatch,
    decreases n,
{
    if n > 0 {
        lemma_mismatch_shape(c, n - 1, l);
        let rest = mismatch_conflicts(c, n - 1, l);
        let r = mismatch_conflicts(c, n, l);
        assert forall|k: int| 0 <= k < r.len() implies (#[trigger] shape_ok(r[k])) && r[k].0 is LoaderMismatch by {
            if k < rest.len() {
                assert(r[k] == rest[k]);
            }
        }
    }
}

proof fn lemma_shaped_concat(
    folder: ContentFolder,
    l: Loader,
    a: Seq<(MessageView, Seq<u64>)>,
    b: Seq<(MessageView, Seq<u64>)>,
)
    requires
        all_shaped(folder, l, a),
        all_shaped(folder, l, b),
    ensures
        all_shaped(folder, l, a + b),
{
    assert forall|k: int| 0 <= k < (a + b).len() implies (#[trigger] shape_ok((a + b)[k])) && kind_allowed(
        folder,
        l,
        (a + b)[k].0,
    ) by {
        if k < a.len() {
            assert((a + b)[k] == a[k]);
            assert(shape_ok(a[k]) && kind_allowed(folder, l, a[k].0));
        } else {
            assert((a + b)[k] == b[k - a.len()]);
            assert(shape_ok(b[k - a.len()]) && kind_allowed(folder, l, b[k - a.len()].0));
        }
    }
}

proof fn lemma_keyed_shaped(
    c: Seq<InstanceContentSummary>,
    folder: ContentFolder,
    l: Loader,
    check: GroupCheck,
    field: KeyField,
)
    requires
        check != GroupCheck::MixinTarget,
        check == GroupCheck::ModId ==> folder == ContentFolder::Mods,
    ensures
        all_shaped(folder, l, keyed_conflicts(c, check, field)),
{
    let g = spec_groups(keyed(c, c.len() as int, field));
    lemma_groups_conflicts_shape(c, check, g);
    let cs = keyed_conflicts(c, check, field);
    assert(cs == groups_conflicts(c, check, g));
    assert forall|k: int| 0 <= k < cs.len() implies (#[trigger] shape_ok(cs[k])) && kind_allowed(folder, l, cs[k].0) by {
        assert(shape_ok(cs[k]) && check_kind(check, cs[k].0));
    }
}

/// Every reported conflict has its shape (a loader mismatch involves its one file, any other
/// conflict at least two, a mixin conflict different files), and a folder shows only its kinds
/// of conflict: duplicate mod ids, loader mismatches and mixin conflicts only in the mods
/// folder, mixin conflicts only on Fabric.
pub proof fn law_conflict_shapes(c: Seq<InstanceContentSummary>, folder: ContentFolder, l: Loader)
    ensures
        all_shaped(folder, l, spec_all_conflicts(c, folder, l)),
{
    let empty = Seq::<(MessageView, Seq<u64>)>::empty();
    let a = if folder == ContentFolder::Mods {
        lemma_keyed_shaped(c, folder, l, GroupCheck::ModId, KeyField::ModId);
        keyed_conflicts(c, GroupCheck::ModId, KeyField::ModId)
    } else {
        empty
    };
    lemma_keyed_shaped(c, folder, l, GroupCheck::ModrinthProject, KeyField::ModrinthProject);
    lemma_keyed_shaped(c, folder, l, GroupCheck::CurseforgeProject, KeyField::CurseforgeProject);
    lemma_keyed_shaped(c, folder, l, GroupCheck::File, KeyField::Hash);
    lemma_keyed_shaped(c, folder, l, GroupCheck::Name, KeyField::Name);
    let b = keyed_conflicts(c, GroupCheck::ModrinthProject, KeyField::ModrinthProject);
    let d = keyed_conflicts(c, GroupCheck::CurseforgeProject, KeyField::CurseforgeProject);
    let f = keyed_conflicts(c, GroupCheck::File, KeyField::Hash);
    let n = keyed_conflicts(c, GroupCheck::Name, KeyField::Name);
    lemma_shaped_concat(folder, l, a, b);
    lemma_shaped_concat(folder, l, a + b, d);
    lemma_shaped_concat(folder, l, a + b + d, f);
    lemma_shaped_concat(folder, l, a + b + d + f, n);
    if folder == ContentFolder::Mods {
        let m = mismatch_conflicts(c, c.len() as int, l);
        lemma_mismatch_shape(c, c.len() as int, l);
        assert forall|k: int| 0 <= k < m.len() implies (#[trigger] shape_ok(m[k])) && kind_allowed(folder, l, m[k].0) by {
            assert(shape_ok(m[k]) && m[k].0 is LoaderMismatch);
        }
        let x = if l == Loader::Fabric {
            let g = spec_groups(target_entries(c, c.len() as int));
            lemma_groups_conflicts_shape(c, GroupCheck::MixinTarget, g);
            let xs = groups_conflicts(c, GroupCheck::MixinTarget, g);
            assert forall|k: int| 0 <= k < xs.len() implies (#[trigger] shape_ok(xs[k])) && kind_allowed(folder, l, xs[k].0) by {
                assert(shape_ok(xs[k]) && check_kind(GroupCheck::MixinTarget, xs[k].0));
            }
            xs
        } else {
            empty
        };
        lemma_shaped_concat(folder, l, m, x);
        lemma_shaped_concat(folder, l, a + b + d + f + n, m + x);
    } else {
        lemma_shaped_concat(folder, l, a + b + d + f + n, empty);
    }
}

/// No content gives no conflicts, and so an empty report: no messages, and no file with an
/// entry.
pub proof fn law_no_content_no_conflicts(c: Seq<InstanceContentSummary>, folder: ContentFolder, l: Loader)
    requires
        c.len() == 0,
    ensures
        spec_all_conflicts(c, folder, l) == Seq::<(MessageView, Seq<u64>)>::empty(),
        report_of(spec_all_conflicts(c, folder, l)).0 == Seq::<MessageView>::empty(),
        report_of(spec_all_conflicts(c, folder, l)).1 == Map::<u64, Seq<MessageView>>::empty(),
{
    assert(keyed(c, 0, KeyField::ModId) =~= Seq::empty());
    assert(keyed(c, 0, KeyField::ModrinthProject) =~= Seq::empty());
    assert(keyed(c, 0, KeyField::CurseforgeProject) =~= Seq::empty());
    assert(keyed(c, 0, KeyField::Hash) =~= Seq::empty());
    assert(keyed(c, 0, KeyField::Name) =~= Seq::empty());
    assert(target_entries(c, 0) =~= Seq::empty());
    assert(spec_groups(Seq::<(KeyView, int)>::empty()) =~= Seq::empty());
    assert(mismatch_conflicts(c, 0, l) =~= Seq::empty());
    assert(spec_all_conflicts(c, folder, l) =~= Seq::empty());
}

/// Outside the mods folder the instance's loader plays no part: every loader gives the same
/// conflicts, and so the same report.
pub proof fn law_loader_only_matters_for_mods(
    c: Seq<InstanceContentSummary>,
    folder: ContentFolder,
    l1: Loader,
    l2: Loader,
)
    requires
        folder != ContentFolder::Mods,
    ensures
        spec_all_conflicts(c, folder, l1) == spec_all_conflicts(c, folder, l2),
        report_of(spec_all_conflicts(c, folder, l1)) == report_of(spec_all_conflicts(c, folder, l2)),
{
}

/// The groups have distinct keys, each the key of some entry.
proof fn lemma_groups_keys(e: Seq<(KeyView, int)>)
    ensures
        forall|i: int, j: int|
            0 <= i < j < spec_groups(e).len() ==> #[trigger] spec_groups(e)[i].0 != #[trigger] spec_groups(e)[j].0,
        forall|i: int|
            0 <= i < spec_groups(e).len() ==> exists|k: int| 0 <= k < e.len() && #[trigger] e[k].0 == (
            #[trigger] spec_groups(e)[i]).0,
    decreases e.len(),
{
    if e.len() > 0 {
        let d = e.drop_last();
        lemma_groups_keys(d);
        let g = spec_groups(d);
        let (k, x) = e.last();
        lemma_find_group(g, k);
        let j = find_group(g, k);
        let r = spec_groups(e);
        assert forall|a: int| 0 <= a < r.len() implies exists|m: int| 0 <= m < e.len() && #[trigger] e[m].0 == (
            #[trigger] r[a]).0 by {
            if a < g.len() && !(j >= 0 && a == j) {
                assert(r[a] == g[a]);
                let m = choose|m: int| 0 <= m < d.len() && #[trigger] d[m].0 == g[a].0;
                assert(e[m] == d[m]);
            } else {
                assert(r[a].0 == k);
                assert(e[e.len() - 1].0 == k);
            }
        }
        assert forall|a: int, b: int| 0 <= a < b < r.len() implies #[trigger] r[a].0 != #[trigger] r[b].0 by {
            if j >= 0 {
                assert(r[a].0 == g[a].0);
                assert(r[b].0 == g[b].0);
            } else if b < g.len() {
                assert(r[a] == g[a]);
                assert(r[b] == g[b]);
            } else {
                assert(r[a] == g[a]);
                assert(r[b].0 == k);
            }
        }
    }
}

proof fn lemma_modrinth_keys_text(c: Seq<InstanceContentSummary>, n: int)
    requires
        n <= c.len(),
    ensures
        forall|k: int|
            0 <= k < keyed(c, n, KeyField::ModrinthProject).len() ==> (#[trigger] keyed(c, n, KeyField::ModrinthProject)[k]).0 is Text,
    decreases n,
{
    if n > 0 {
        lemma_modrinth_keys_text(c, n - 1);
        let rest = keyed(c, n - 1, KeyField::ModrinthProject);
        let r = keyed(c, n, KeyField::ModrinthProject);
        assert forall|k: int| 0 <= k < r.len() implies (#[trigger] r[k]).0 is Text by {
            if k < rest.len() {
                assert(r[k] == rest[k]);
            }
        }
    }
}

/// The project a duplicate-Modrinth-project message names (empty for other messages).
pub open spec fn message_project(m: MessageView) -> Seq<char> {
    match m {
        MessageView::DuplicateModrinthProject { project_id, .. } => project_id,
        _ => Seq::empty(),
    }
}

proof fn lemma_project_conflicts(c: Seq<InstanceContentSummary>, g: Seq<(KeyView, Seq<int>)>)
    requires
        forall|i: int, j: int| 0 <= i < j < g.len() ==> #[trigger] g[i].0 != #[trigger] g[j].0,
        forall|i: int| 0 <= i < g.len() ==> (#[trigger] g[i]).0 is Text,
    ensures
        forall|i: int|
            0 <= i < groups_conflicts(c, GroupCheck::ModrinthProject, g).len() ==> exists|a: int|
                0 <= a < g.len() && (#[trigger] g[a]).0 == KeyView::Text(
                    message_project((#[trigger] groups_conflicts(c, GroupCheck::ModrinthProject, g)[i]).0),
                ),
        forall|i: int, j: int|
            0 <= i < j < groups_conflicts(c, GroupCheck::ModrinthProject, g).len() ==> message_project(
                (#[trigger] groups_conflicts(c, GroupCheck::ModrinthProject, g)[i]).0,
            ) != message_project((#[trigger] groups_conflicts(c, GroupCheck::ModrinthProject, g)[j]).0),
    decreases g.len(),
{
    if g.len() > 0 {
        let d = g.drop_last();
        lemma_project_conflicts(c, d);
        let rest = groups_conflicts(c, GroupCheck::ModrinthProject, d);
        let r = groups_conflicts(c, GroupCheck::ModrinthProject, g);
        let last = g[g.len() - 1];
        assert(g.last() == last);
        assert forall|i: int| 0 <= i < r.len() implies exists|a: int|
            0 <= a < g.len() && (#[trigger] g[a]).0 == KeyView::Text(message_project((#[trigger] r[i]).0)) by {
            if i < rest.len() {
                assert(r[i] == rest[i]);
                let a = choose|a: int| 0 <= a < d.len() && (#[trigger] d[a]).0 == KeyView::Text(message_project(rest[i].0));
                assert(g[a] == d[a]);
            } else {
                assert(g[g.len() - 1].0 == KeyView::Text(message_project(r[i].0)));
            }
        }
        assert forall|i: int, j: int| 0 <= i < j < r.len() implies message_project((#[trigger] r[i]).0)
            != message_project((#[trigger] r[j]).0) by {
            if j < rest.len() {
                assert(r[i] == rest[i]);
                assert(r[j] == rest[j]);
            } else {
                assert(r[i] == rest[i]);
                let a = choose|a: int| 0 <= a < d.len() && (#[trigger] d[a]).0 == KeyView::Text(message_project(rest[i].0));
                assert(g[a] == d[a]);
                assert(g[a].0 != g[g.len() - 1].0);
            }
        }
    }
}

/// One message per duplicated Modrinth project: no two conflicts of duplicate Modrinth
/// projects name the same project.
pub proof fn law_one_message_per_project(c: Seq<InstanceContentSummary>)
    ensures
        forall|i: int, j: int|
            0 <= i < j < keyed_conflicts(c, GroupCheck::ModrinthProject, KeyField::ModrinthProject).len()
                ==> message_project(
                (#[trigger] keyed_conflicts(c, GroupCheck::ModrinthProject, KeyField::ModrinthProject)[i]).0,
            ) != message_project(
                (#[trigger] keyed_conflicts(c, GroupCheck::ModrinthProject, KeyField::ModrinthProject)[j]).0,
            ),
{
    let e = keyed(c, c.len() as int, KeyField::ModrinthProject);
    lemma_groups_keys(e);
    lemma_modrinth_keys_text(c, c.len() as int);
    let g = spec_groups(e);
    assert forall|i: int| 0 <= i < g.len() implies (#[trigger] g[i]).0 is Text by {
        let k = choose|k: int| 0 <= k < e.len() && #[trigger] e[k].0 == g[i].0;
    }
    lemma_project_conflicts(c, g);
}

proof fn lemma_mismatch_has(c: Seq<InstanceContentSummary>, n: int, l: Loader, m: int)
    requires
        0 <= m < n <= c.len(),
        c[m].enabled,
        !crate::conflicts::spec_loader_compatible(l, c[m].content_summary.extra),
    ensures
        mismatch_conflicts(c, n, l).contains(
            (
                MessageView::LoaderMismatch {
                    filename: c[m].filename@,
                    expected_loader: crate::conflicts::spec_expected_loader_name(c[m].content_summary.extra),
                    instance_loader: crate::model::spec_pretty_name(l),
                },
                seq![c[m].filename_hash],
            ),
        ),
    decreases n,
{
    let r = mismatch_conflicts(c, n, l);
    if m == n - 1 {
        assert(r[r.len() - 1].0 is LoaderMismatch);
    } else {
        lemma_mismatch_has(c, n - 1, l, m);
        let rest = mismatch_conflicts(c, n - 1, l);
        let x = (
            MessageView::LoaderMismatch {
                filename: c[m].filename@,
                expected_loader: crate::conflicts::spec_expected_loader_name(c[m].content_summary.extra),
                instance_loader: crate::model::spec_pretty_name(l),
            },
            seq![c[m].filename_hash],
        );
        let k = choose|k: int| 0 <= k < rest.len() && rest[k] == x;
        assert(r[k] == rest[k]);
    }
}

/// In the mods folder, an enabled file built for another loader than the instance's is
/// reported as a loader mismatch naming the file, the loader it was built for and the
/// instance's loader, and involving that file alone: NeoForge content suits only a NeoForge
/// instance, Fabric content (or a Java module) only a Fabric one, and Forge content a Forge or
/// NeoForge one.
pub proof fn law_loader_mismatch(c: Seq<InstanceContentSummary>, l: Loader, m: int, expected: Seq<char>)
    requires
        0 <= m < c.len(),
        c[m].enabled,
        (c[m].content_summary.extra is NeoForge && l != Loader::NeoForge && expected == "NeoForge"@) || ((
        c[m].content_summary.extra is Fabric || c[m].content_summary.extra is JavaModule) && l != Loader::Fabric
            && expected == "Fabric"@) || ((c[m].content_summary.extra is Forge || c[m].content_summary.extra is LegacyForge)
            && l != Loader::Forge && l != Loader::NeoForge && expected == "Forge"@),
    ensures
        spec_all_conflicts(c, ContentFolder::Mods, l).contains(
            (
                MessageView::LoaderMismatch {
                    filename: c[m].filename@,
                    expected_loader: expected,
                    instance_loader: crate::model::spec_pretty_name(l),
                },
                seq![c[m].filename_hash],
            ),
        ),
{
    let n = c.len() as int;
    lemma_mismatch_has(c, n, l, m);
    let x = (
        MessageView::LoaderMismatch {
            filename: c[m].filename@,
            expected_loader: expected,
            instance_loader: crate::model::spec_pretty_name(l),
        },
        seq![c[m].filename_hash],
    );
    let mm = mismatch_conflicts(c, n, l);
    let k = choose|k: int| 0 <= k < mm.len() && mm[k] == x;
    let a = keyed_conflicts(c, GroupCheck::ModId, KeyField::ModId) + keyed_conflicts(
        c,
        GroupCheck::ModrinthProject,
        KeyField::ModrinthProject,
    ) + keyed_conflicts(c, GroupCheck::CurseforgeProject, KeyField::CurseforgeProject) + keyed_conflicts(
        c,
        GroupCheck::File,
        KeyField::Hash,
    ) + keyed_conflicts(c, GroupCheck::Name, KeyField::Name);
    let tail = if l == Loader::Fabric {
        groups_conflicts(c, GroupCheck::MixinTarget, spec_groups(target_entries(c, n)))
    } else {
        Seq::empty()
    };
    let all = spec_all_conflicts(c, ContentFolder::Mods, l);
    assert(all =~= a + (mm + tail));
    assert(all[a.len() + k] == x);
}

proof fn lemma_groups_no_mismatch(c: Seq<InstanceContentSummary>, check: GroupCheck, g: Seq<(KeyView, Seq<int>)>)
    ensures
        forall|i: int|
            0 <= i < groups_conflicts(c, check, g).len() ==> !((#[trigger] groups_conflicts(c, check, g)[i]).0 is LoaderMismatch),
    decreases g.len(),
{
    if g.len() > 0 {
        lemma_groups_no_mismatch(c, check, g.drop_last());
        let rest = groups_conflicts(c, check, g.drop_last());
        let r = groups_conflicts(c, check, g);
        assert forall|i: int| 0 <= i < r.len() implies !((#[trigger] r[i]).0 is LoaderMismatch) by {
            if i < rest.len() {
                assert(r[i] == rest[i]);
            }
        }
    }
}

/// Whether content of a kind does not suit an instance's loader: NeoForge content needs
/// NeoForge; Fabric content and Java modules need Fabric; Forge content (old or new) needs
/// Forge or NeoForge; other content suits every loader.
pub open spec fn unsuited(kind: crate::model::ContentKind, l: Loader) -> bool {
    ||| (kind is NeoForge && l != Loader::NeoForge)
    ||| ((kind is Fabric || kind is JavaModule) && l != Loader::Fabric)
    ||| ((kind is Forge || kind is LegacyForge) && l != Loader::Forge && l != Loader::NeoForge)
}

/// A mismatch conflict comes from an enabled file of the first `n`, one that does not suit the
/// loader, and involves that file alone.
pub open spec fn mismatch_from(c: Seq<InstanceContentSummary>, n: int, l: Loader, x: (MessageView, Seq<u64>)) -> bool {
    exists|m: int|
        0 <= m < n && #[trigger] c[m].enabled && unsuited(c[m].content_summary.extra, l)
            && x.0->LoaderMismatch_filename == c[m].filename@ && x.1 == seq![c[m].filename_hash]
}

proof fn lemma_mismatch_only(c: Seq<InstanceContentSummary>, n: int, l: Loader)
    requires
        0 <= n <= c.len(),
    ensures
        forall|i: int|
            0 <= i < mismatch_conflicts(c, n, l).len() ==> (#[trigger] mismatch_conflicts(c, n, l)[i]).0 is LoaderMismatch
                && mismatch_from(c, n, l, mismatch_conflicts(c, n, l)[i]),
    decreases n,
{
    if n > 0 {
        lemma_mismatch_only(c, n - 1, l);
        let rest = mismatch_conflicts(c, n - 1, l);
        let r = mismatch_conflicts(c, n, l);
        assert forall|i: int| 0 <= i < r.len() implies (#[trigger] r[i]).0 is LoaderMismatch && mismatch_from(
            c,
            n,
            l,
            r[i],
        ) by {
            if i < rest.len() {
                assert(r[i] == rest[i]);
                let m = choose|m: int|
                    0 <= m < n - 1 && #[trigger] c[m].enabled && unsuited(c[m].content_summary.extra, l)
                        && rest[i].0->LoaderMismatch_filename == c[m].filename@ && rest[i].1 == seq![c[m].filename_hash];
            } else {
                let m = n - 1;
                assert(c[m].enabled);
                assert(unsuited(c[m].content_summary.extra, l));
            }
        }
    }
}

/// A loader mismatch is reported only in the mods folder, only for an enabled file that does not
/// suit the instance's loader (so never for NeoForge content in a NeoForge instance, Forge
/// content in a Forge or NeoForge one, Fabric content in a Fabric one, or content of no
/// loader), and it involves that file alone.
pub proof fn law_mismatch_only_when_unsuited(c: Seq<InstanceContentSummary>, folder: ContentFolder, l: Loader)
    ensures
        forall|i: int|
            0 <= i < spec_all_conflicts(c, folder, l).len() && (#[trigger] spec_all_conflicts(c, folder, l)[i]).0 is LoaderMismatch
                ==> folder == ContentFolder::Mods && mismatch_from(c, c.len() as int, l, spec_all_conflicts(c, folder, l)[i]),
{
    let n = c.len() as int;
    lemma_mismatch_only(c, n, l);
    let k1 = keyed_conflicts(c, GroupCheck::ModId, KeyField::ModId);
    let k2 = keyed_conflicts(c, GroupCheck::ModrinthProject, KeyField::ModrinthProject);
    let k3 = keyed_conflicts(c, GroupCheck::CurseforgeProject, KeyField::CurseforgeProject);
    let k4 = keyed_conflicts(c, GroupCheck::File, KeyField::Hash);
    let k5 = keyed_conflicts(c, GroupCheck::Name, KeyField::Name);
    let mt = groups_conflicts(c, GroupCheck::MixinTarget, spec_groups(target_entries(c, n)));
    lemma_groups_no_mismatch(c, GroupCheck::ModId, spec_groups(keyed(c, n, KeyField::ModId)));
    lemma_groups_no_mismatch(c, GroupCheck::ModrinthProject, spec_groups(keyed(c, n, KeyField::ModrinthProject)));
    lemma_groups_no_mismatch(c, GroupCheck::CurseforgeProject, spec_groups(keyed(c, n, KeyField::CurseforgeProject)));
    lemma_groups_no_mismatch(c, GroupCheck::File, spec_groups(keyed(c, n, KeyField::Hash)));
    lemma_groups_no_mismatch(c, GroupCheck::Name, spec_groups(keyed(c, n, KeyField::Name)));
    lemma_groups_no_mismatch(c, GroupCheck::MixinTarget, spec_groups(target_entries(c, n)));
    let mm = mismatch_conflicts(c, n, l);
    let all = spec_all_conflicts(c, folder, l);
    let front = k2 + k3 + k4 + k5;
    assert forall|i: int| 0 <= i < front.len() implies !((#[trigger] front[i]).0 is LoaderMismatch) by {
        if i < k2.len() {
            assert(front[i] == k2[i]);
        } else if i < k2.len() + k3.len() {
            assert(front[i] == k3[i - k2.len()]);
        } else if i < k2.len() + k3.len() + k4.len() {
            assert(front[i] == k4[i - k2.len() - k3.len()]);
        } else {
            assert(front[i] == k5[i - k2.len() - k3.len() - k4.len()]);
        }
    }
    if folder == ContentFolder::Mods {
        let tail = if l == Loader::Fabric {
            mt
        } else {
            Seq::empty()
        };
        assert(all =~= k1 + front + (mm + tail));
        assert forall|i: int| 0 <= i < all.len() && (#[trigger] all[i]).0 is LoaderMismatch implies mismatch_from(
            c,
            n,
            l,
            all[i],
        ) by {
            let a = k1.len() as int;
            let b = a + front.len();
            if i < a {
                assert(all[i] == k1[i]);
            } else if i < b {
                assert(all[i] == front[i - a]);
            } else if i < b + mm.len() {
                assert(all[i] == mm[i - b]);
            } else {
                assert(all[i] == tail[i - b - mm.len()]);
            }
        }
    } else {
        assert(all =~= front);
    }
}

} // verus!
