//! Conflicts among the content installed in an instance folder: duplicate mod ids, projects,
//! files and names, content built for another loader, and mixins that target the same class.
use vstd::prelude::*;

use crate::grouping::{
    entries_below, entries_view, group_entries, groups_below, groups_view, ints, lemma_groups_below,
    spec_groups, Group, GroupKey, KeyView,
};
use crate::model::{
    spec_pretty_name, ContentFolder, ContentKind, ContentSource, InstanceContentSummary, Loader,
};
use crate::names::texts;
use crate::text::{chars_of, join, join_strings, str_eq, string_of, to_owned};

verus! {

/// A conflict, as shown to the user.
#[allow(inconsistent_fields)]
pub enum ConflictMessage {
    DuplicateModId { mod_id: String, filenames: String },
    DuplicateModrinthProject { project_id: String, filenames: String },
    DuplicateCurseforgeProject { project_id: u32, filenames: String },
    DuplicateFile { filenames: String },
    DuplicateName { name: String, filenames: String },
    LoaderMismatch { filename: String, expected_loader: String, instance_loader: String },
    MixinTarget { target: String, filenames: String },
}

/// The content of a conflict message.
#[allow(inconsistent_fields)]
pub enum MessageView {
    DuplicateModId { mod_id: Seq<char>, filenames: Seq<char> },
    DuplicateModrinthProject { project_id: Seq<char>, filenames: Seq<char> },
    DuplicateCurseforgeProject { project_id: u32, filenames: Seq<char> },
    DuplicateFile { filenames: Seq<char> },
    DuplicateName { name: Seq<char>, filenames: Seq<char> },
    LoaderMismatch { filename: Seq<char>, expected_loader: Seq<char>, instance_loader: Seq<char> },
    MixinTarget { target: Seq<char>, filenames: Seq<char> },
}

impl View for ConflictMessage {
    type V = MessageView;

    open spec fn view(&self) -> MessageView {
        match self {
            ConflictMessage::DuplicateModId { mod_id, filenames } => MessageView::DuplicateModId {
                mod_id: mod_id@,
                filenames: filenames@,
            },
            ConflictMessage::DuplicateModrinthProject { project_id, filenames } =>
                MessageView::DuplicateModrinthProject { project_id: project_id@, filenames: filenames@ },
            ConflictMessage::DuplicateCurseforgeProject { project_id, filenames } =>
                MessageView::DuplicateCurseforgeProject { project_id: *project_id, filenames: filenames@ },
            ConflictMessage::DuplicateFile { filenames } => MessageView::DuplicateFile {
                filenames: filenames@,
            },
            ConflictMessage::DuplicateName { name, filenames } => MessageView::DuplicateName {
                name: name@,
                filenames: filenames@,
            },
            ConflictMessage::LoaderMismatch { filename, expected_loader, instance_loader } =>
                MessageView::LoaderMismatch {
                filename: filename@,
                expected_loader: expected_loader@,
                instance_loader: instance_loader@,
            },
            ConflictMessage::MixinTarget { target, filenames } => MessageView::MixinTarget {
                target: target@,
                filenames: filenames@,
            },
        }
    }
}

impl ConflictMessage {
    /// A copy of the message.
    pub fn duplicate(&self) -> (res: ConflictMessage)
        ensures
            res@ == self@,
    {
        match self {
            ConflictMessage::DuplicateModId { mod_id, filenames } => ConflictMessage::DuplicateModId {
                mod_id: to_owned(mod_id.as_str()),
                filenames: to_owned(filenames.as_str()),
            },
            ConflictMessage::DuplicateModrinthProject { project_id, filenames } =>
                ConflictMessage::DuplicateModrinthProject {
                project_id: to_owned(project_id.as_str()),
                filenames: to_owned(filenames.as_str()),
            },
            ConflictMessage::DuplicateCurseforgeProject { project_id, filenames } =>
                ConflictMessage::DuplicateCurseforgeProject {
                project_id: *project_id,
                filenames: to_owned(filenames.as_str()),
            },
            ConflictMessage::DuplicateFile { filenames } => ConflictMessage::DuplicateFile {
                filenames: to_owned(filenames.as_str()),
            },
            ConflictMessage::DuplicateName { name, filenames } => ConflictMessage::DuplicateName {
                name: to_owned(name.as_str()),
                filenames: to_owned(filenames.as_str()),
            },
            ConflictMessage::LoaderMismatch { filename, expected_loader, instance_loader } =>
                ConflictMessage::LoaderMismatch {
                filename: to_owned(filename.as_str()),
                expected_loader: to_owned(expected_loader.as_str()),
                instance_loader: to_owned(instance_loader.as_str()),
            },
            ConflictMessage::MixinTarget { target, filenames } => ConflictMessage::MixinTarget {
                target: to_owned(target.as_str()),
                filenames: to_owned(filenames.as_str()),
            },
        }
    }
}

/// A conflict: its message and the filename hashes of the content involved.
pub struct Conflict {
    pub message: ConflictMessage,
    pub involved: Vec<u64>,
}

pub open spec fn conflict_view(c: Conflict) -> (MessageView, Seq<u64>) {
    (c.message@, c.involved@)
}

/// The conflicts of one content file.
pub struct ItemConflicts {
    pub filename_hash: u64,
    pub messages: Vec<ConflictMessage>,
}

/// Every conflict found, and for each content file (by filename hash) the conflicts it is in.
pub struct ContentConflictReport {
    pub messages: Vec<ConflictMessage>,
    pub per_item: Vec<ItemConflicts>,
}

pub open spec fn messages_view(ms: Seq<ConflictMessage>) -> Seq<MessageView> {
    ms.map_values(|m: ConflictMessage| m@)
}

/// The per-file conflicts as a map from filename hash to messages in order.
pub open spec fn items_map(items: Seq<ItemConflicts>) -> Map<u64, Seq<MessageView>>
    decreases items.len(),
{
    if items.len() == 0 {
        Map::empty()
    } else {
        items_map(items.drop_last()).insert(items.last().filename_hash, messages_view(items.last().messages@))
    }
}

pub open spec fn items_distinct(items: Seq<ItemConflicts>) -> bool {
    forall|i: int, j: int|
        0 <= i < j < items.len() ==> #[trigger] items[i].filename_hash != #[trigger] items[j].filename_hash
}

impl ContentConflictReport {
    /// The report's content: every message in order, and each file's messages in order.
    pub open spec fn spec_view(&self) -> (Seq<MessageView>, Map<u64, Seq<MessageView>>) {
        (messages_view(self.messages@), items_map(self.per_item@))
    }

    pub open spec fn wf(&self) -> bool {
        items_distinct(self.per_item@)
    }
}

/// `msg` added to the entry of each hash in `hs`, in order (once per occurrence).
pub open spec fn add_to_items(m: Map<u64, Seq<MessageView>>, hs: Seq<u64>, msg: MessageView) -> Map<
    u64,
    Seq<MessageView>,
>
    decreases hs.len(),
{
    if hs.len() == 0 {
        m
    } else {
        let m2 = add_to_items(m, hs.drop_last(), msg);
        let h = hs.last();
        let prev = if m2.contains_key(h) {
            m2[h]
        } else {
            Seq::empty()
        };
        m2.insert(h, prev.push(msg))
    }
}

/// The report after one more conflict (`add_conflict`): its message is appended to the list
/// and to the entry of each file involved.
pub open spec fn apply_conflict(
    r: (Seq<MessageView>, Map<u64, Seq<MessageView>>),
    x: (MessageView, Seq<u64>),
) -> (Seq<MessageView>, Map<u64, Seq<MessageView>>) {
    (r.0.push(x.0), add_to_items(r.1, x.1, x.0))
}

/// The report after a sequence of conflicts, added in order.
pub open spec fn apply_all(
    r: (Seq<MessageView>, Map<u64, Seq<MessageView>>),
    cs: Seq<(MessageView, Seq<u64>)>,
) -> (Seq<MessageView>, Map<u64, Seq<MessageView>>)
    decreases cs.len(),
{
    if cs.len() == 0 {
        r
    } else {
        apply_conflict(apply_all(r, cs.drop_last()), cs.last())
    }
}

/// The report built from a sequence of conflicts, starting from an empty one.
pub open spec fn report_of(cs: Seq<(MessageView, Seq<u64>)>) -> (Seq<MessageView>, Map<u64, Seq<MessageView>>) {
    apply_all((Seq::empty(), Map::empty()), cs)
}

pub proof fn lemma_apply_all_concat(
    r: (Seq<MessageView>, Map<u64, Seq<MessageView>>),
    a: Seq<(MessageView, Seq<u64>)>,
    b: Seq<(MessageView, Seq<u64>)>,
)
    ensures
        apply_all(r, a + b) == apply_all(apply_all(r, a), b),
    decreases b.len(),
{
    if b.len() == 0 {
        assert(a + b =~= a);
    } else {
        assert((a + b).drop_last() =~= a + b.drop_last());
        assert((a + b).last() == b.last());
        lemma_apply_all_concat(r, a, b.drop_last());
    }
}

// ---------------------------------------------------------------------------
// What each detector finds
// ---------------------------------------------------------------------------

/// Indices of `idx` whose content is enabled.
pub open spec fn enabled_of(c: Seq<InstanceContentSummary>, idx: Seq<int>) -> Seq<int>
    decreases idx.len(),
{
    if idx.len() == 0 {
        Seq::empty()
    } else {
        let rest = enabled_of(c, idx.drop_last());
        if c[idx.last()].enabled {
            rest.push(idx.last())
        } else {
            rest
        }
    }
}

pub open spec fn filenames_of(c: Seq<InstanceContentSummary>, idx: Seq<int>) -> Seq<Seq<char>> {
    idx.map_values(|i: int| c[i].filename@)
}

pub open spec fn hashes_of(c: Seq<InstanceContentSummary>, idx: Seq<int>) -> Seq<u64> {
    idx.map_values(|i: int| c[i].filename_hash)
}

/// `format_filenames`: the file names joined by `", "`.
pub open spec fn joined(c: Seq<InstanceContentSummary>, idx: Seq<int>) -> Seq<char> {
    join(filenames_of(c, idx), ", "@)
}

/// What content is grouped by.
#[derive(Clone, Copy, PartialEq, Eq, Structural)]
pub enum KeyField {
    ModId,
    ModrinthProject,
    CurseforgeProject,
    Hash,
    Name,
}

/// The key of an item for a field, if it has one.
pub open spec fn field_key(field: KeyField, s: InstanceContentSummary) -> Option<KeyView> {
    match field {
        KeyField::ModId => mod_id_key(s),
        KeyField::ModrinthProject => modrinth_key(s),
        KeyField::CurseforgeProject => curseforge_key(s),
        KeyField::Hash => hash_key(s),
        KeyField::Name => name_key(s),
    }
}

/// Keyed indices of the first `n` items (items without a key are left out).
pub open spec fn keyed(c: Seq<InstanceContentSummary>, n: int, field: KeyField) -> Seq<(KeyView, int)>
    decreases n,
{
    if n <= 0 {
        Seq::empty()
    } else {
        let rest = keyed(c, n - 1, field);
        match field_key(field, c[n - 1]) {
            Some(k) => rest.push((k, n - 1)),
            None => rest,
        }
    }
}

/// A non-empty mod id.
pub open spec fn mod_id_key(s: InstanceContentSummary) -> Option<KeyView> {
    match s.content_summary.id {
        Some(id) => if id@.len() > 0 {
            Some(KeyView::Text(id@))
        } else {
            None
        },
        None => None,
    }
}

/// A Modrinth project id.
pub open spec fn modrinth_key(s: InstanceContentSummary) -> Option<KeyView> {
    match s.content_source {
        ContentSource::ModrinthProject { project_id } => Some(KeyView::Text(project_id@)),
        _ => None,
    }
}

/// A CurseForge project id.
pub open spec fn curseforge_key(s: InstanceContentSummary) -> Option<KeyView> {
    match s.content_source {
        ContentSource::CurseforgeProject { project_id } => Some(KeyView::Number(project_id)),
        _ => None,
    }
}

/// The content hash of an enabled file whose contents are known.
pub open spec fn hash_key(s: InstanceContentSummary) -> Option<KeyView> {
    if s.enabled && s.content_summary.hash@ != Seq::new(20, |i: int| 0u8) && !s.content_summary.is_unknown {
        Some(KeyView::Bytes(s.content_summary.hash@))
    } else {
        None
    }
}

/// The non-empty name of an enabled file.
pub open spec fn name_key(s: InstanceContentSummary) -> Option<KeyView> {
    if s.enabled {
        match s.content_summary.name {
            Some(n) => if n@.len() > 0 {
                Some(KeyView::Text(n@))
            } else {
                None
            },
            None => None,
        }
    } else {
        None
    }
}

/// Every mixin target of every enabled file, keyed by target, in order.
pub open spec fn target_entries(c: Seq<InstanceContentSummary>, n: int) -> Seq<(KeyView, int)>
    decreases n,
{
    if n <= 0 {
        Seq::empty()
    } else {
        let rest = target_entries(c, n - 1);
        let s = c[n - 1];
        if s.enabled {
            rest + s.content_summary.mixin_targets@.map_values(|t: String| (KeyView::Text(t@), n - 1))
        } else {
            rest
        }
    }
}

/// The indices of `idx` with one per filename hash: the last with that hash, at the position
/// where the hash first occurs.
pub open spec fn dedup_by_hash(c: Seq<InstanceContentSummary>, idx: Seq<int>) -> Seq<int>
    decreases idx.len(),
{
    if idx.len() == 0 {
        Seq::empty()
    } else {
        let d = dedup_by_hash(c, idx.drop_last());
        let i = idx.last();
        let j = hash_position(c, d, c[i].filename_hash);
        if j >= 0 {
            d.update(j, i)
        } else {
            d.push(i)
        }
    }
}

/// The position in `d` of an index with filename hash `h`, or -1.
pub open spec fn hash_position(c: Seq<InstanceContentSummary>, d: Seq<int>, h: u64) -> int
    decreases d.len(),
{
    if d.len() == 0 {
        -1
    } else if c[d[0]].filename_hash == h {
        0
    } else {
        let r = hash_position(c, d.drop_first(), h);
        if r < 0 {
            -1
        } else {
            r + 1
        }
    }
}

/// Whether the files at `idx` have at least two different names.
pub open spec fn two_filenames(c: Seq<InstanceContentSummary>, idx: Seq<int>) -> bool {
    exists|a: int, b: int|
        0 <= a < idx.len() && 0 <= b < idx.len() && c[idx[a]].filename@ != c[idx[b]].filename@
}

/// The detectors that work on groups.
#[derive(Clone, Copy, PartialEq, Eq, Structural)]
pub enum GroupCheck {
    ModId,
    ModrinthProject,
    CurseforgeProject,
    File,
    Name,
    MixinTarget,
}

pub open spec fn key_text(k: KeyView) -> Seq<char> {
    match k {
        KeyView::Text(t) => t,
        _ => Seq::empty(),
    }
}

pub open spec fn key_number(k: KeyView) -> u32 {
    match k {
        KeyView::Number(n) => n,
        _ => 0,
    }
}

/// The conflict one group makes, if any.
pub open spec fn group_conflict(
    c: Seq<InstanceContentSummary>,
    check: GroupCheck,
    k: KeyView,
    idx: Seq<int>,
) -> Option<(MessageView, Seq<u64>)> {
    match check {
        GroupCheck::ModId => {
            let en = enabled_of(c, idx);
            if en.len() >= 2 {
                Some(
                    (
                        MessageView::DuplicateModId { mod_id: key_text(k), filenames: joined(c, en) },
                        hashes_of(c, en),
                    ),
                )
            } else {
                None
            }
        },
        GroupCheck::ModrinthProject => {
            let en = enabled_of(c, idx);
            if en.len() >= 2 {
                Some(
                    (
                        MessageView::DuplicateModrinthProject {
                            project_id: key_text(k),
                            filenames: joined(c, en),
                        },
                        hashes_of(c, en),
                    ),
                )
            } else {
                None
            }
        },
        GroupCheck::CurseforgeProject => {
            let en = enabled_of(c, idx);
            if en.len() >= 2 {
                Some(
                    (
                        MessageView::DuplicateCurseforgeProject {
                            project_id: key_number(k),
                            filenames: joined(c, en),
                        },
                        hashes_of(c, en),
                    ),
                )
            } else {
                None
            }
        },
        GroupCheck::File => {
            if idx.len() >= 2 {
                Some((MessageView::DuplicateFile { filenames: joined(c, idx) }, hashes_of(c, idx)))
            } else {
                None
            }
        },
        GroupCheck::Name => {
            if idx.len() >= 2 && two_filenames(c, idx) {
                Some(
                    (
                        MessageView::DuplicateName { name: key_text(k), filenames: joined(c, idx) },
                        hashes_of(c, idx),
                    ),
                )
            } else {
                None
            }
        },
        GroupCheck::MixinTarget => {
            let u = dedup_by_hash(c, idx);
            if u.len() >= 2 {
                Some(
                    (
                        MessageView::MixinTarget { target: key_text(k), filenames: joined(c, u) },
                        hashes_of(c, u),
                    ),
                )
            } else {
                None
            }
        },
    }
}

/// The conflicts a sequence of groups makes, in group order.
pub open spec fn groups_conflicts(
    c: Seq<InstanceContentSummary>,
    check: GroupCheck,
    g: Seq<(KeyView, Seq<int>)>,
) -> Seq<(MessageView, Seq<u64>)>
    decreases g.len(),
{
    if g.len() == 0 {
        Seq::empty()
    } else {
        let rest = groups_conflicts(c, check, g.drop_last());
        match group_conflict(c, check, g.last().0, g.last().1) {
            Some(x) => rest.push(x),
            None => rest,
        }
    }
}

/// `loader_compatible`.
pub open spec fn spec_loader_compatible(l: Loader, k: ContentKind) -> bool {
    match k {
        ContentKind::Fabric | ContentKind::JavaModule => l == Loader::Fabric,
        ContentKind::Forge | ContentKind::LegacyForge => l == Loader::Forge || l == Loader::NeoForge,
        ContentKind::NeoForge => l == Loader::NeoForge,
        _ => true,
    }
}

/// `expected_loader_name`.
pub open spec fn spec_expected_loader_name(k: ContentKind) -> Seq<char> {
    match k {
        ContentKind::Fabric | ContentKind::JavaModule => "Fabric"@,
        ContentKind::Forge | ContentKind::LegacyForge => "Forge"@,
        ContentKind::NeoForge => "NeoForge"@,
        _ => "Unknown"@,
    }
}

/// Enabled files among the first `n` built for a loader other than the instance's.
pub open spec fn mismatch_conflicts(c: Seq<InstanceContentSummary>, n: int, l: Loader) -> Seq<
    (MessageView, Seq<u64>),
>
    decreases n,
{
    if n <= 0 {
        Seq::empty()
    } else {
        let rest = mismatch_conflicts(c, n - 1, l);
        let s = c[n - 1];
        if s.enabled && !spec_loader_compatible(l, s.content_summary.extra) {
            rest.push(
                (
                    MessageView::LoaderMismatch {
                        filename: s.filename@,
                        expected_loader: spec_expected_loader_name(s.content_summary.extra),
                        instance_loader: spec_pretty_name(l),
                    },
                    seq![s.filename_hash],
                ),
            )
        } else {
            rest
        }
    }
}

pub open spec fn keyed_conflicts(c: Seq<InstanceContentSummary>, check: GroupCheck, field: KeyField) -> Seq<
    (MessageView, Seq<u64>),
> {
    groups_conflicts(c, check, spec_groups(keyed(c, c.len() as int, field)))
}

/// Every conflict `detect_conflicts` finds, in the order it reports them: duplicate mod ids (mods
/// only), Modrinth then CurseForge projects, files, names, and for mods loader mismatches and
/// (on Fabric) shared mixin targets.
pub open spec fn spec_all_conflicts(c: Seq<InstanceContentSummary>, folder: ContentFolder, l: Loader) -> Seq<
    (MessageView, Seq<u64>),
> {
    let mods = folder == ContentFolder::Mods;
    (if mods {
        keyed_conflicts(c, GroupCheck::ModId, KeyField::ModId)
    } else {
        Seq::empty()
    }) + keyed_conflicts(c, GroupCheck::ModrinthProject, KeyField::ModrinthProject)
        + keyed_conflicts(c, GroupCheck::CurseforgeProject, KeyField::CurseforgeProject)
        + keyed_conflicts(c, GroupCheck::File, KeyField::Hash)
        + keyed_conflicts(c, GroupCheck::Name, KeyField::Name) + (if mods {
        mismatch_conflicts(c, c.len() as int, l) + (if l == Loader::Fabric {
            groups_conflicts(c, GroupCheck::MixinTarget, spec_groups(target_entries(c, c.len() as int)))
        } else {
            Seq::empty()
        })
    } else {
        Seq::empty()
    })
}


// ---------------------------------------------------------------------------
// Building the report
// ---------------------------------------------------------------------------

proof fn lemma_items_distinct_drop_last(items: Seq<ItemConflicts>)
    requires
        items_distinct(items),
        items.len() > 0,
    ensures
        items_distinct(items.drop_last()),
{
    let d = items.drop_last();
    assert forall|i: int, j: int| 0 <= i < j < d.len() implies #[trigger] d[i].filename_hash
        != #[trigger] d[j].filename_hash by {
        assert(d[i] == items[i] && d[j] == items[j]);
    }
}

proof fn lemma_items_map_lookup(items: Seq<ItemConflicts>, j: int)
    requires
        items_distinct(items),
        0 <= j < items.len(),
    ensures
        items_map(items).contains_key(items[j].filename_hash),
        items_map(items)[items[j].filename_hash] == messages_view(items[j].messages@),
    decreases items.len(),
{
    if j < items.len() - 1 {
        let d = items.drop_last();
        lemma_items_distinct_drop_last(items);
        assert(d[j] == items[j]);
        lemma_items_map_lookup(d, j);
        assert(items[j].filename_hash != items[items.len() - 1].filename_hash);
    }
}

proof fn lemma_items_map_absent(items: Seq<ItemConflicts>, h: u64)
    requires
        forall|j: int| 0 <= j < items.len() ==> #[trigger] items[j].filename_hash != h,
    ensures
        !items_map(items).contains_key(h),
    decreases items.len(),
{
    if items.len() > 0 {
        let d = items.drop_last();
        assert forall|j: int| 0 <= j < d.len() implies #[trigger] d[j].filename_hash != h by {
            assert(d[j] == items[j]);
        }
        lemma_items_map_absent(d, h);
        assert(items[items.len() - 1].filename_hash != h);
    }
}

proof fn lemma_items_map_update(items: Seq<ItemConflicts>, j: int, x: ItemConflicts)
    requires
        items_distinct(items),
        0 <= j < items.len(),
        x.filename_hash == items[j].filename_hash,
    ensures
        items_map(items.update(j, x)) == items_map(items).insert(
            x.filename_hash,
            messages_view(x.messages@),
        ),
    decreases items.len(),
{
    let u = items.update(j, x);
    let h = x.filename_hash;
    if j == items.len() - 1 {
        assert(u.drop_last() =~= items.drop_last());
        assert(items_map(u) =~= items_map(items).insert(h, messages_view(x.messages@)));
    } else {
        let d = items.drop_last();
        assert(u.drop_last() =~= d.update(j, x));
        lemma_items_distinct_drop_last(items);
        lemma_items_map_update(d, j, x);
        assert(items[j].filename_hash != items[items.len() - 1].filename_hash);
        assert(items_map(u) =~= items_map(items).insert(h, messages_view(x.messages@)));
    }
}

/// The position of the entry for filename hash `h`, or the number of entries.
fn item_position(items: &Vec<ItemConflicts>, h: u64) -> (res: usize)
    ensures
        res <= items.len(),
        res < items.len() ==> items@[res as int].filename_hash == h,
        res == items.len() ==> forall|j: int| 0 <= j < items.len() ==> #[trigger] items@[j].filename_hash != h,
{
    let mut j: usize = 0;
    while j < items.len()
        invariant
            j <= items.len(),
            forall|m: int| 0 <= m < j ==> #[trigger] items@[m].filename_hash != h,
        decreases items.len() - j,
    {
        if items[j].filename_hash == h {
            return j;
        }
        j = j + 1;
    }
    j
}

/// Records a conflict: its message in the list, and in the entry of each file involved.
fn add_conflict(report: &mut ContentConflictReport, conflict: Conflict)
    requires
        old(report).wf(),
    ensures
        final(report).wf(),
        final(report).spec_view() == apply_conflict(old(report).spec_view(), conflict_view(conflict)),
{
    let ghost start = report.spec_view();
    let Conflict { message, involved } = conflict;
    let ghost msg = message@;
    let ghost hs = involved@;
    for k in 0..involved.len()
        invariant
            report.wf(),
            msg == message@,
            hs == involved@,
            messages_view(report.messages@) == start.0,
            items_map(report.per_item@) == add_to_items(start.1, hs.take(k as int), msg),
    {
        let h = involved[k];
        let ghost s0 = report.per_item@;
        assert(hs.take(k + 1).drop_last() =~= hs.take(k as int));
        assert(hs.take(k + 1).last() == h);
        let j = item_position(&report.per_item, h);
        if j < report.per_item.len() {
            proof {
                lemma_items_map_lookup(s0, j as int);
            }
            let mut item = report.per_item.remove(j);
            let ghost before = item.messages@;
            item.messages.push(message.duplicate());
            assert(messages_view(item.messages@) =~= messages_view(before).push(msg));
            report.per_item.insert(j, item);
            proof {
                assert(report.per_item@ =~= s0.update(j as int, item));
                lemma_items_map_update(s0, j as int, item);
                assert forall|a: int, b: int| 0 <= a < b < report.per_item@.len() implies
                    #[trigger] report.per_item@[a].filename_hash
                    != #[trigger] report.per_item@[b].filename_hash by {
                    assert(s0[a].filename_hash != s0[b].filename_hash);
                }
            }
        } else {
            proof {
                lemma_items_map_absent(s0, h);
            }
            let mut msgs: Vec<ConflictMessage> = Vec::new();
            msgs.push(message.duplicate());
            assert(messages_view(msgs@) =~= seq![msg]);
            report.per_item.push(ItemConflicts { filename_hash: h, messages: msgs });
            proof {
                let s1 = report.per_item@;
                assert(s1.drop_last() =~= s0);
                assert forall|a: int, b: int| 0 <= a < b < s1.len() implies #[trigger] s1[a].filename_hash
                    != #[trigger] s1[b].filename_hash by {
                    if b == s1.len() - 1 {
                        assert(s1[a] == s0[a]);
                    } else {
                        assert(s1[a] == s0[a] && s1[b] == s0[b]);
                    }
                }
                assert(Seq::<MessageView>::empty().push(msg) =~= seq![msg]);
            }
        }
    }
    let ghost m0 = report.messages@;
    report.messages.push(message);
    assert(messages_view(report.messages@) =~= messages_view(m0).push(msg));
    assert(hs.take(hs.len() as int) =~= hs);
}

// ---------------------------------------------------------------------------
// Keys and groups
// ---------------------------------------------------------------------------

pub open spec fn key_opt_view(o: Option<GroupKey>) -> Option<KeyView> {
    match o {
        Some(k) => Some(k@),
        None => None,
    }
}

/// Whether all twenty bytes of a hash are zero.
fn hash_is_zero(h: &[u8; 20]) -> (res: bool)
    ensures
        res == (h@ == Seq::new(20, |i: int| 0u8)),
{
    let ghost zero = Seq::new(20, |i: int| 0u8);
    let mut i: usize = 0;
    while i < 20
        invariant
            i <= 20,
            h@.len() == 20,
            zero == Seq::new(20, |i: int| 0u8),
            forall|m: int| 0 <= m < i ==> h@[m] == 0u8,
        decreases 20 - i,
    {
        if h[i] != 0 {
            assert(h@[i as int] != zero[i as int]);
            return false;
        }
        i = i + 1;
    }
    assert(h@ =~= zero);
    true
}

/// The key of an item for a field, if it has one.
fn item_key(field: KeyField, s: &InstanceContentSummary) -> (res: Option<GroupKey>)
    ensures
        key_opt_view(res) == field_key(field, *s),
{
    match field {
        KeyField::ModId => match &s.content_summary.id {
            Some(id) => if id.as_str().is_empty() {
                None
            } else {
                Some(GroupKey::Text(chars_of(id.as_str())))
            },
            None => None,
        },
        KeyField::ModrinthProject => match &s.content_source {
            ContentSource::ModrinthProject { project_id } => Some(
                GroupKey::Text(chars_of(project_id.as_str())),
            ),
            _ => None,
        },
        KeyField::CurseforgeProject => match &s.content_source {
            ContentSource::CurseforgeProject { project_id } => Some(GroupKey::Number(*project_id)),
            _ => None,
        },
        KeyField::Hash => {
            if s.enabled && !hash_is_zero(&s.content_summary.hash) && !s.content_summary.is_unknown {
                Some(GroupKey::Bytes(s.content_summary.hash))
            } else {
                None
            }
        },
        KeyField::Name => {
            if s.enabled {
                match &s.content_summary.name {
                    Some(n) => if n.as_str().is_empty() {
                        None
                    } else {
                        Some(GroupKey::Text(chars_of(n.as_str())))
                    },
                    None => None,
                }
            } else {
                None
            }
        },
    }
}

proof fn lemma_keyed_below(c: Seq<InstanceContentSummary>, n: int, field: KeyField)
    requires
        0 <= n <= c.len(),
    ensures
        entries_below(keyed(c, n, field), c.len() as int),
    decreases n,
{
    if n > 0 {
        lemma_keyed_below(c, n - 1, field);
        let rest = keyed(c, n - 1, field);
        match field_key(field, c[n - 1]) {
            Some(k) => {
                let r = rest.push((k, n - 1));
                assert forall|i: int| 0 <= i < r.len() implies 0 <= #[trigger] r[i].1 < c.len() by {
                    if i < rest.len() {
                        assert(r[i] == rest[i]);
                    }
                }
            },
            None => {},
        }
    }
}

proof fn lemma_targets_below(c: Seq<InstanceContentSummary>, n: int)
    requires
        0 <= n <= c.len(),
    ensures
        entries_below(target_entries(c, n), c.len() as int),
    decreases n,
{
    if n > 0 {
        lemma_targets_below(c, n - 1);
        let rest = target_entries(c, n - 1);
        let s = c[n - 1];
        if s.enabled {
            let add = s.content_summary.mixin_targets@.map_values(|t: String| (KeyView::Text(t@), n - 1));
            let r = rest + add;
            assert forall|i: int| 0 <= i < r.len() implies 0 <= #[trigger] r[i].1 < c.len() by {
                if i < rest.len() {
                    assert(r[i] == rest[i]);
                } else {
                    assert(r[i] == add[i - rest.len()]);
                }
            }
        }
    }
}

/// The keyed indices of all items for a field.
fn keyed_entries(content: &[InstanceContentSummary], field: KeyField) -> (res: Vec<(GroupKey, usize)>)
    ensures
        entries_view(res@) == keyed(content@, content@.len() as int, field),
{
    let mut res: Vec<(GroupKey, usize)> = Vec::new();
    for n in 0..content.len()
        invariant
            entries_view(res@) == keyed(content@, n as int, field),
    {
        let ghost before = res@;
        match item_key(field, &content[n]) {
            Some(k) => {
                res.push((k, n));
                assert(entries_view(res@) =~= entries_view(before).push((k@, n as int)));
            },
            None => {},
        }
    }
    res
}

/// Every mixin target of every enabled item, keyed by target.
fn mixin_target_entries(content: &[InstanceContentSummary]) -> (res: Vec<(GroupKey, usize)>)
    ensures
        entries_view(res@) == target_entries(content@, content@.len() as int),
{
    let mut res: Vec<(GroupKey, usize)> = Vec::new();
    for n in 0..content.len()
        invariant
            entries_view(res@) == target_entries(content@, n as int),
    {
        let s = &content[n];
        if s.enabled {
            let ghost before = entries_view(res@);
            let targets = &s.content_summary.mixin_targets;
            let ghost all = targets@.map_values(|t: String| (KeyView::Text(t@), n as int));
            for t in 0..targets.len()
                invariant
                    all == targets@.map_values(|x: String| (KeyView::Text(x@), n as int)),
                    entries_view(res@) == before + all.take(t as int),
            {
                let ghost r0 = res@;
                res.push((GroupKey::Text(chars_of(targets[t].as_str())), n));
                assert(entries_view(res@) =~= entries_view(r0).push(all[t as int]));
                assert(all.take(t + 1) =~= all.take(t as int).push(all[t as int]));
            }
            assert(all.take(all.len() as int) =~= all);
        }
    }
    res
}

/// The members of `idx` whose item is enabled.
fn enabled_members(content: &[InstanceContentSummary], idx: &Vec<usize>) -> (res: Vec<usize>)
    requires
        forall|m: int| 0 <= m < idx.len() ==> #[trigger] idx@[m] < content.len(),
    ensures
        ints(res@) == enabled_of(content@, ints(idx@)),
        forall|m: int| 0 <= m < res.len() ==> #[trigger] res@[m] < content.len(),
{
    let mut res: Vec<usize> = Vec::new();
    for k in 0..idx.len()
        invariant
            forall|m: int| 0 <= m < idx.len() ==> #[trigger] idx@[m] < content.len(),
            ints(res@) == enabled_of(content@, ints(idx@).take(k as int)),
            forall|m: int| 0 <= m < res.len() ==> #[trigger] res@[m] < content.len(),
    {
        let ghost before = res@;
        assert(ints(idx@).take(k + 1).drop_last() =~= ints(idx@).take(k as int));
        let i = idx[k];
        if content[i].enabled {
            res.push(i);
            assert(ints(res@) =~= ints(before).push(i as int));
        }
    }
    assert(ints(idx@).take(idx@.len() as int) =~= ints(idx@));
    res
}

/// The file names of the items at `idx`.
fn member_filenames(content: &[InstanceContentSummary], idx: &Vec<usize>) -> (res: Vec<String>)
    requires
        forall|m: int| 0 <= m < idx.len() ==> #[trigger] idx@[m] < content.len(),
    ensures
        texts(res@) == filenames_of(content@, ints(idx@)),
{
    let mut res: Vec<String> = Vec::new();
    for k in 0..idx.len()
        invariant
            forall|m: int| 0 <= m < idx.len() ==> #[trigger] idx@[m] < content.len(),
            texts(res@) == filenames_of(content@, ints(idx@).take(k as int)),
    {
        let ghost before = res@;
        let f = to_owned(content[idx[k]].filename.as_str());
        res.push(f);
        assert(texts(res@) =~= texts(before).push(f@));
        assert(filenames_of(content@, ints(idx@).take(k + 1)) =~= filenames_of(
            content@,
            ints(idx@).take(k as int),
        ).push(content@[idx@[k as int] as int].filename@));
    }
    assert(ints(idx@).take(idx@.len() as int) =~= ints(idx@));
    res
}

/// The filename hashes of the items at `idx`.
fn member_hashes(content: &[InstanceContentSummary], idx: &Vec<usize>) -> (res: Vec<u64>)
    requires
        forall|m: int| 0 <= m < idx.len() ==> #[trigger] idx@[m] < content.len(),
    ensures
        res@ == hashes_of(content@, ints(idx@)),
{
    let mut res: Vec<u64> = Vec::new();
    for k in 0..idx.len()
        invariant
            forall|m: int| 0 <= m < idx.len() ==> #[trigger] idx@[m] < content.len(),
            res@ == hashes_of(content@, ints(idx@).take(k as int)),
    {
        res.push(content[idx[k]].filename_hash);
        assert(hashes_of(content@, ints(idx@).take(k + 1)) =~= hashes_of(
            content@,
            ints(idx@).take(k as int),
        ).push(content@[idx@[k as int] as int].filename_hash));
    }
    assert(ints(idx@).take(idx@.len() as int) =~= ints(idx@));
    res
}

/// The file names joined by `", "`.
pub fn format_filenames(filenames: &[String]) -> (res: String)
    ensures
        res@ == join(texts(filenames@), ", "@),
{
    join_strings(filenames, ", ")
}

pub proof fn lemma_hash_position(c: Seq<InstanceContentSummary>, d: Seq<int>, h: u64)
    ensures
        -1 <= hash_position(c, d, h) < d.len(),
        hash_position(c, d, h) >= 0 ==> c[d[hash_position(c, d, h)]].filename_hash == h,
        forall|m: int| 0 <= m < d.len() && m < hash_position(c, d, h) ==> c[#[trigger] d[m]].filename_hash != h,
        hash_position(c, d, h) < 0 ==> forall|m: int| 0 <= m < d.len() ==> c[#[trigger] d[m]].filename_hash != h,
    decreases d.len(),
{
    if d.len() > 0 && c[d[0]].filename_hash != h {
        let t = d.drop_first();
        lemma_hash_position(c, t, h);
        assert forall|m: int| 0 < m < d.len() implies d[m] == t[m - 1] by {}
    }
}

/// One member per filename hash: the last with that hash, at the position where the hash
/// first occurs.
fn dedup_members(content: &[InstanceContentSummary], idx: &Vec<usize>) -> (res: Vec<usize>)
    requires
        forall|m: int| 0 <= m < idx.len() ==> #[trigger] idx@[m] < content.len(),
    ensures
        ints(res@) == dedup_by_hash(content@, ints(idx@)),
        forall|m: int| 0 <= m < res.len() ==> #[trigger] res@[m] < content.len(),
{
    let mut res: Vec<usize> = Vec::new();
    for k in 0..idx.len()
        invariant
            forall|m: int| 0 <= m < idx.len() ==> #[trigger] idx@[m] < content.len(),
            ints(res@) == dedup_by_hash(content@, ints(idx@).take(k as int)),
            forall|m: int| 0 <= m < res.len() ==> #[trigger] res@[m] < content.len(),
    {
        let ghost d = ints(res@);
        assert(ints(idx@).take(k + 1).drop_last() =~= ints(idx@).take(k as int));
        let i = idx[k];
        let h = content[i].filename_hash;
        let mut p: usize = 0;
        while p < res.len() && content[res[p]].filename_hash != h
            invariant
                p <= res.len(),
                d == ints(res@),
                forall|m: int| 0 <= m < res.len() ==> #[trigger] res@[m] < content.len(),
                forall|m: int| 0 <= m < p ==> content@[#[trigger] d[m]].filename_hash != h,
            decreases res.len() - p,
        {
            p = p + 1;
        }
        proof {
            lemma_hash_position(content@, d, h);
            let r = hash_position(content@, d, h);
            if p < res.len() {
                assert(content@[d[p as int]].filename_hash == h);
                if r >= 0 && r < p {
                    assert(content@[d[r]].filename_hash != h);
                }
                assert(r == p);
            } else {
                if r >= 0 {
                    assert(content@[d[r]].filename_hash != h);
                }
            }
        }
        if p < res.len() {
            res.set(p, i);
            assert(ints(res@) =~= d.update(p as int, i as int));
        } else {
            res.push(i);
            assert(ints(res@) =~= d.push(i as int));
        }
    }
    assert(ints(idx@).take(idx@.len() as int) =~= ints(idx@));
    res
}

/// Whether the items at `idx` have at least two different file names.
fn has_two_filenames(content: &[InstanceContentSummary], idx: &Vec<usize>) -> (res: bool)
    requires
        forall|m: int| 0 <= m < idx.len() ==> #[trigger] idx@[m] < content.len(),
    ensures
        res == two_filenames(content@, ints(idx@)),
{
    let ghost t = ints(idx@);
    if idx.len() == 0 {
        return false;
    }
    let first = content[idx[0]].filename.as_str();
    for k in 1..idx.len()
        invariant
            forall|m: int| 0 <= m < idx.len() ==> #[trigger] idx@[m] < content.len(),
            t == ints(idx@),
            idx.len() > 0,
            first@ == content@[t[0]].filename@,
            forall|m: int| 0 <= m < k ==> #[trigger] content@[t[m]].filename@ == first@,
    {
        if !str_eq(content[idx[k]].filename.as_str(), first) {
            assert(content@[t[0]].filename@ != content@[t[k as int]].filename@);
            return true;
        }
    }
    assert forall|a: int, b: int| 0 <= a < t.len() && 0 <= b < t.len() implies content@[t[a]].filename@
        == content@[t[b]].filename@ by {
        assert(content@[t[a]].filename@ == first@);
        assert(content@[t[b]].filename@ == first@);
    }
    false
}

/// The text of a key (empty for other keys).
fn key_string(k: &GroupKey) -> (res: String)
    ensures
        res@ == key_text(k@),
{
    match k {
        GroupKey::Text(t) => string_of(t.as_slice()),
        _ => String::new(),
    }
}

/// The number of a key (zero for other keys).
fn key_value(k: &GroupKey) -> (res: u32)
    ensures
        res == key_number(k@),
{
    match k {
        GroupKey::Number(n) => *n,
        _ => 0,
    }
}

pub open spec fn conflict_opt_view(o: Option<Conflict>) -> Option<(MessageView, Seq<u64>)> {
    match o {
        Some(x) => Some(conflict_view(x)),
        None => None,
    }
}

/// The conflict one group makes, if any.
fn conflict_of_group(content: &[InstanceContentSummary], check: GroupCheck, group: &Group) -> (res: Option<
    Conflict,
>)
    requires
        forall|m: int| 0 <= m < group.members.len() ==> #[trigger] group.members@[m] < content.len(),
    ensures
        conflict_opt_view(res) == group_conflict(content@, check, group.key@, ints(group.members@)),
{
    let idx = &group.members;
    match check {
        GroupCheck::ModId | GroupCheck::ModrinthProject | GroupCheck::CurseforgeProject => {
            let en = enabled_members(content, idx);
            if en.len() >= 2 {
                let names = member_filenames(content, &en);
                let filenames = format_filenames(names.as_slice());
                let involved = member_hashes(content, &en);
                let message = match check {
                    GroupCheck::ModId => ConflictMessage::DuplicateModId {
                        mod_id: key_string(&group.key),
                        filenames,
                    },
                    GroupCheck::ModrinthProject => ConflictMessage::DuplicateModrinthProject {
                        project_id: key_string(&group.key),
                        filenames,
                    },
                    _ => ConflictMessage::DuplicateCurseforgeProject {
                        project_id: key_value(&group.key),
                        filenames,
                    },
                };
                Some(Conflict { message, involved })
            } else {
                None
            }
        },
        GroupCheck::File => {
            if idx.len() >= 2 {
                let names = member_filenames(content, idx);
                let filenames = format_filenames(names.as_slice());
                let involved = member_hashes(content, idx);
                Some(Conflict { message: ConflictMessage::DuplicateFile { filenames }, involved })
            } else {
                None
            }
        },
        GroupCheck::Name => {
            if idx.len() >= 2 && has_two_filenames(content, idx) {
                let names = member_filenames(content, idx);
                let filenames = format_filenames(names.as_slice());
                let involved = member_hashes(content, idx);
                Some(
                    Conflict {
                        message: ConflictMessage::DuplicateName { name: key_string(&group.key), filenames },
                        involved,
                    },
                )
            } else {
                None
            }
        },
        GroupCheck::MixinTarget => {
            let u = dedup_members(content, idx);
            if u.len() >= 2 {
                let names = member_filenames(content, &u);
                let filenames = format_filenames(names.as_slice());
                let involved = member_hashes(content, &u);
                Some(
                    Conflict {
                        message: ConflictMessage::MixinTarget { target: key_string(&group.key), filenames },
                        involved,
                    },
                )
            } else {
                None
            }
        },
    }
}

/// Records the conflicts of each group, in group order.
fn report_groups(
    content: &[InstanceContentSummary],
    check: GroupCheck,
    groups: &Vec<Group>,
    report: &mut ContentConflictReport,
)
    requires
        old(report).wf(),
        groups_below(groups_view(groups@), content@.len() as int),
    ensures
        final(report).wf(),
        final(report).spec_view() == apply_all(
            old(report).spec_view(),
            groups_conflicts(content@, check, groups_view(groups@)),
        ),
{
    let ghost start = report.spec_view();
    let ghost gv = groups_view(groups@);
    for i in 0..groups.len()
        invariant
            report.wf(),
            gv == groups_view(groups@),
            groups_below(gv, content@.len() as int),
            report.spec_view() == apply_all(start, groups_conflicts(content@, check, gv.take(i as int))),
    {
        assert(gv.take(i + 1).drop_last() =~= gv.take(i as int));
        assert(gv.take(i + 1).last() == gv[i as int]);
        let group = &groups[i];
        assert forall|m: int| 0 <= m < group.members.len() implies #[trigger] group.members@[m] < content.len() by {
            assert(gv[i as int].1[m] == group.members@[m] as int);
        }
        let ghost prev = groups_conflicts(content@, check, gv.take(i as int));
        match conflict_of_group(content, check, group) {
            Some(x) => {
                let ghost xv = conflict_view(x);
                add_conflict(report, x);
                assert(groups_conflicts(content@, check, gv.take(i + 1)) == prev.push(xv));
                assert(prev.push(xv).drop_last() =~= prev);
            },
            None => {},
        }
    }
    assert(gv.take(gv.len() as int) =~= gv);
}

/// Records the conflicts of items grouped by a field.
fn report_keyed(
    content: &[InstanceContentSummary],
    check: GroupCheck,
    field: KeyField,
    report: &mut ContentConflictReport,
)
    requires
        old(report).wf(),
    ensures
        final(report).wf(),
        final(report).spec_view() == apply_all(old(report).spec_view(), keyed_conflicts(content@, check, field)),
{
    let entries = keyed_entries(content, field);
    let groups = group_entries(&entries);
    proof {
        lemma_keyed_below(content@, content@.len() as int, field);
        lemma_groups_below(entries_view(entries@), content@.len() as int);
    }
    report_groups(content, check, &groups, report);
}

/// Whether content of a kind runs on a loader.
fn loader_compatible(instance_loader: Loader, content_type: &ContentKind) -> (res: bool)
    ensures
        res == spec_loader_compatible(instance_loader, *content_type),
{
    match content_type {
        ContentKind::Unknown | ContentKind::ResourcePack | ContentKind::ShaderPack => true,
        ContentKind::ModrinthModpack { .. } | ContentKind::CurseforgeModpack { .. } => true,
        ContentKind::Fabric | ContentKind::JavaModule => instance_loader == Loader::Fabric,
        ContentKind::Forge | ContentKind::LegacyForge => {
            instance_loader == Loader::Forge || instance_loader == Loader::NeoForge
        },
        ContentKind::NeoForge => instance_loader == Loader::NeoForge,
    }
}

/// The name of the loader content of a kind is built for.
fn expected_loader_name(content_type: &ContentKind) -> (res: &'static str)
    ensures
        res@ == spec_expected_loader_name(*content_type),
{
    match content_type {
        ContentKind::Fabric | ContentKind::JavaModule => Loader::Fabric.pretty_name(),
        ContentKind::Forge | ContentKind::LegacyForge => Loader::Forge.pretty_name(),
        ContentKind::NeoForge => Loader::NeoForge.pretty_name(),
        _ => "Unknown",
    }
}

/// Records each enabled item built for another loader.
fn report_loader_mismatches(
    content: &[InstanceContentSummary],
    instance_loader: Loader,
    report: &mut ContentConflictReport,
)
    requires
        old(report).wf(),
    ensures
        final(report).wf(),
        final(report).spec_view() == apply_all(
            old(report).spec_view(),
            mismatch_conflicts(content@, content@.len() as int, instance_loader),
        ),
{
    let ghost start = report.spec_view();
    for n in 0..content.len()
        invariant
            report.wf(),
            report.spec_view() == apply_all(start, mismatch_conflicts(content@, n as int, instance_loader)),
    {
        let s = &content[n];
        if s.enabled && !loader_compatible(instance_loader, &s.content_summary.extra) {
            let message = ConflictMessage::LoaderMismatch {
                filename: to_owned(s.filename.as_str()),
                expected_loader: to_owned(expected_loader_name(&s.content_summary.extra)),
                instance_loader: to_owned(instance_loader.pretty_name()),
            };
            let mut involved: Vec<u64> = Vec::new();
            involved.push(s.filename_hash);
            assert(involved@ =~= seq![s.filename_hash]);
            let ghost prev = mismatch_conflicts(content@, n as int, instance_loader);
            let x = Conflict { message, involved };
            let ghost xv = conflict_view(x);
            add_conflict(report, x);
            assert(mismatch_conflicts(content@, n + 1, instance_loader) == prev.push(xv));
            assert(prev.push(xv).drop_last() =~= prev);
        }
    }
}

/// Every conflict among the content of an instance folder: duplicate mod ids (in the mods
/// folder), Modrinth and CurseForge projects installed twice, identical files, files with the
/// same name, and in the mods folder content built for another loader and (on Fabric) mixins
/// that target the same class.
pub fn detect_conflicts(
    content: &[InstanceContentSummary],
    folder: ContentFolder,
    instance_loader: Loader,
) -> (report: ContentConflictReport)
    ensures
        report.wf(),
        report.spec_view() == report_of(spec_all_conflicts(content@, folder, instance_loader)),
{
    let ghost c = content@;
    let ghost e = (Seq::<MessageView>::empty(), Map::<u64, Seq<MessageView>>::empty());
    let mut report = ContentConflictReport { messages: Vec::new(), per_item: Vec::new() };
    assert(messages_view(report.messages@) =~= Seq::<MessageView>::empty());
    let ghost mut acc: Seq<(MessageView, Seq<u64>)> = Seq::empty();
    let mods = folder == ContentFolder::Mods;
    if mods {
        report_keyed(content, GroupCheck::ModId, KeyField::ModId, &mut report);
        proof {
            lemma_apply_all_concat(e, acc, keyed_conflicts(c, GroupCheck::ModId, KeyField::ModId));
            acc = acc + keyed_conflicts(c, GroupCheck::ModId, KeyField::ModId);
        }
    }
    let ghost a1 = acc;
    report_keyed(content, GroupCheck::ModrinthProject, KeyField::ModrinthProject, &mut report);
    proof {
        let x = keyed_conflicts(c, GroupCheck::ModrinthProject, KeyField::ModrinthProject);
        lemma_apply_all_concat(e, acc, x);
        acc = acc + x;
    }
    report_keyed(content, GroupCheck::CurseforgeProject, KeyField::CurseforgeProject, &mut report);
    proof {
        let x = keyed_conflicts(c, GroupCheck::CurseforgeProject, KeyField::CurseforgeProject);
        lemma_apply_all_concat(e, acc, x);
        acc = acc + x;
    }
    report_keyed(content, GroupCheck::File, KeyField::Hash, &mut report);
    proof {
        let x = keyed_conflicts(c, GroupCheck::File, KeyField::Hash);
        lemma_apply_all_concat(e, acc, x);
        acc = acc + x;
    }
    report_keyed(content, GroupCheck::Name, KeyField::Name, &mut report);
    proof {
        let x = keyed_conflicts(c, GroupCheck::Name, KeyField::Name);
        lemma_apply_all_concat(e, acc, x);
        acc = acc + x;
    }
    let ghost a5 = acc;
    if mods {
        report_loader_mismatches(content, instance_loader, &mut report);
        proof {
            let x = mismatch_conflicts(c, c.len() as int, instance_loader);
            lemma_apply_all_concat(e, acc, x);
            acc = acc + x;
        }
        if instance_loader == Loader::Fabric {
            let entries = mixin_target_entries(content);
            let groups = group_entries(&entries);
            proof {
                lemma_targets_below(c, c.len() as int);
                lemma_groups_below(entries_view(entries@), c.len() as int);
            }
            report_groups(content, GroupCheck::MixinTarget, &groups, &mut report);
            proof {
                let x = groups_conflicts(c, GroupCheck::MixinTarget, spec_groups(target_entries(c, c.len() as int)));
                lemma_apply_all_concat(e, acc, x);
                acc = acc + x;
            }
        }
    }
    assert(acc =~= spec_all_conflicts(c, folder, instance_loader));
    report
}

/// The count the conflicts panel shows; no panel when there is no conflict.
pub fn conflict_panel_count(report: &ContentConflictReport) -> (res: Option<usize>)
    ensures
        report.messages@.len() == 0 ==> res is None,
        report.messages@.len() > 0 ==> res == Some(report.messages@.len() as usize),
{
    if report.messages.len() == 0 {
        None
    } else {
        Some(report.messages.len())
    }
}

} // verus!
