//! Recommending Modrinth content: what to search for, given what is installed, and how to rank
//! what comes back.
use vstd::prelude::*;

use crate::model::{
    spec_modrinth_loader_id, spec_project_type_str, ContentFolder, HitView, InstanceContentSummary,
    Loader, ModrinthHit, ModrinthProjectType, ModrinthSearchIndex, ModrinthSearchRequest, opt_text,
};
use crate::names::{insert_all, insert_string, lemma_insert_all_concat, lemma_insert_all_distinct, texts};
use crate::text::{append_str, ascii_lower, contains, str_ascii_lower, to_owned};

verus! {

/// The kinds of content the launcher recommends.
#[derive(Clone, Copy, PartialEq, Eq, Structural, Debug)]
pub enum RecommendedContentKind {
    Mod,
    Modpack,
    ResourcePack,
    Shader,
}

pub open spec fn spec_kind_project_type(k: RecommendedContentKind) -> ModrinthProjectType {
    match k {
        RecommendedContentKind::Mod => ModrinthProjectType::Mod,
        RecommendedContentKind::Modpack => ModrinthProjectType::Modpack,
        RecommendedContentKind::ResourcePack => ModrinthProjectType::Resourcepack,
        RecommendedContentKind::Shader => ModrinthProjectType::Shader,
    }
}

impl RecommendedContentKind {
    /// The Modrinth project type of the kind.
    pub fn modrinth_project_type(self) -> (res: ModrinthProjectType)
        ensures
            res == spec_kind_project_type(self),
    {
        match self {
            RecommendedContentKind::Mod => ModrinthProjectType::Mod,
            RecommendedContentKind::Modpack => ModrinthProjectType::Modpack,
            RecommendedContentKind::ResourcePack => ModrinthProjectType::Resourcepack,
            RecommendedContentKind::Shader => ModrinthProjectType::Shader,
        }
    }

    /// The instance folder content of the kind goes in; modpacks have none.
    pub fn content_folder(self) -> (res: Option<ContentFolder>)
        ensures
            res == match self {
                RecommendedContentKind::Mod => Some(ContentFolder::Mods),
                RecommendedContentKind::ResourcePack => Some(ContentFolder::ResourcePacks),
                RecommendedContentKind::Shader => Some(ContentFolder::Shaders),
                RecommendedContentKind::Modpack => None::<ContentFolder>,
            },
    {
        match self {
            RecommendedContentKind::Mod => Some(ContentFolder::Mods),
            RecommendedContentKind::ResourcePack => Some(ContentFolder::ResourcePacks),
            RecommendedContentKind::Shader => Some(ContentFolder::Shaders),
            RecommendedContentKind::Modpack => None,
        }
    }
}

/// What recommendations are made for: how much is installed, the names of what is installed
/// (each once), and the projects not to recommend.
pub struct RecommendationContext {
    pub total_items: usize,
    pub installed_names: Vec<String>,
    pub exclude_project_ids: Vec<String>,
}

impl RecommendationContext {
    /// The installed names hold no text twice.
    pub open spec fn wf(&self) -> bool {
        texts(self.installed_names@).no_duplicates()
    }
}

/// The names a content file is known by: its file name, then its name when it has one.
pub open spec fn names_of(s: InstanceContentSummary) -> Seq<Seq<char>> {
    match s.content_summary.name {
        Some(n) => seq![s.filename@, n@],
        None => seq![s.filename@],
    }
}

/// The names of the first `n` content files, in order.
pub open spec fn content_names(c: Seq<InstanceContentSummary>, n: int) -> Seq<Seq<char>>
    decreases n,
{
    if n <= 0 {
        Seq::empty()
    } else {
        content_names(c, n - 1) + names_of(c[n - 1])
    }
}

/// Adds the names of one content file to a set of names.
fn insert_names_of(names: &mut Vec<String>, s: &InstanceContentSummary)
    ensures
        texts(final(names)@) == insert_all(texts(old(names)@), names_of(*s)),
{
    let ghost start = texts(names@);
    insert_string(names, to_owned(s.filename.as_str()));
    let ghost one = seq![s.filename@];
    assert(one.drop_last() =~= Seq::<Seq<char>>::empty());
    assert(insert_all(start, one) == crate::names::insert_text(insert_all(start, one.drop_last()), one.last()));
    match &s.content_summary.name {
        Some(n) => {
            insert_string(names, to_owned(n.as_str()));
            let ghost two = seq![s.filename@, n@];
            assert(two.drop_last() =~= one);
            assert(insert_all(start, two) == crate::names::insert_text(insert_all(start, two.drop_last()), two.last()));
        },
        None => {},
    }
}

/// A copy of a list of strings.
fn copy_ids(ids: &[String]) -> (res: Vec<String>)
    ensures
        texts(res@) == texts(ids@),
{
    let mut res: Vec<String> = Vec::new();
    for i in 0..ids.len()
        invariant
            texts(res@) == texts(ids@.take(i as int)),
    {
        let ghost before = res@;
        let c = to_owned(ids[i].as_str());
        res.push(c);
        assert(texts(res@) =~= texts(before).push(c@));
        assert(texts(ids@.take(i + 1)) =~= texts(ids@.take(i as int)).push(ids@[i as int]@));
    }
    assert(ids@.take(ids@.len() as int) =~= ids@);
    res
}

impl RecommendationContext {
    /// The context of one instance folder: every file name and content name installed there,
    /// counted once each.
    pub fn from_installed_content(content: &[InstanceContentSummary], exclude_project_ids: &[String]) -> (res:
        Self)
        ensures
            res.wf(),
            texts(res.installed_names@).to_set() == content_names(content@, content@.len() as int).to_set(),
            res.total_items == res.installed_names@.len(),
            texts(res.exclude_project_ids@) == texts(exclude_project_ids@),
    {
        let mut names: Vec<String> = Vec::new();
        for n in 0..content.len()
            invariant
                texts(names@) == insert_all(Seq::empty(), content_names(content@, n as int)),
        {
            let ghost before = texts(names@);
            insert_names_of(&mut names, &content[n]);
            proof {
                lemma_insert_all_concat(Seq::empty(), content_names(content@, n as int), names_of(content@[n as int]));
            }
        }
        proof {
            let all = content_names(content@, content@.len() as int);
            lemma_insert_all_distinct(Seq::empty(), all);
            assert(Seq::<Seq<char>>::empty().to_set().union(all.to_set()) =~= all.to_set());
        }
        let total = names.len();
        RecommendationContext {
            total_items: total,
            installed_names: names,
            exclude_project_ids: copy_ids(exclude_project_ids),
        }
    }
}

/// An instance as modpack recommendations see it: its name and the content of its mods folder.
pub struct InstanceMods {
    pub name: String,
    pub mods: Vec<InstanceContentSummary>,
}

/// The number of mods in the first `n` instances.
pub open spec fn total_mods(insts: Seq<InstanceMods>, n: int) -> int
    decreases n,
{
    if n <= 0 {
        0
    } else {
        total_mods(insts, n - 1) + insts[n - 1].mods@.len()
    }
}

/// The names of the first `n` instances: each instance's name, then the names of its mods.
pub open spec fn instance_names(insts: Seq<InstanceMods>, n: int) -> Seq<Seq<char>>
    decreases n,
{
    if n <= 0 {
        Seq::empty()
    } else {
        let i = insts[n - 1];
        instance_names(insts, n - 1) + seq![i.name@] + content_names(i.mods@, i.mods@.len() as int)
    }
}

proof fn lemma_total_mods_mono(insts: Seq<InstanceMods>, a: int, b: int)
    requires
        0 <= a <= b <= insts.len(),
    ensures
        0 <= total_mods(insts, a) <= total_mods(insts, b),
    decreases b,
{
    if a < b {
        lemma_total_mods_mono(insts, a, b - 1);
    } else if a > 0 {
        lemma_total_mods_mono(insts, a - 1, a - 1);
    }
}

impl RecommendationContext {
    /// The context of modpack recommendations: every instance name, file name and content name
    /// of the instances' mods, counted once each, and as many items as there are mods or
    /// instances, whichever is more.
    pub fn for_modpacks(instances: &[InstanceMods], exclude_project_ids: &[String]) -> (res: Self)
        requires
            total_mods(instances@, instances@.len() as int) <= usize::MAX,
        ensures
            res.wf(),
            texts(res.installed_names@).to_set() == instance_names(instances@, instances@.len() as int).to_set(),
            res.total_items == if total_mods(instances@, instances@.len() as int) > instances@.len() {
                total_mods(instances@, instances@.len() as int)
            } else {
                instances@.len() as int
            },
            texts(res.exclude_project_ids@) == texts(exclude_project_ids@),
    {
        let mut names: Vec<String> = Vec::new();
        let mut count: usize = 0;
        for k in 0..instances.len()
            invariant
                total_mods(instances@, instances@.len() as int) <= usize::MAX,
                count == total_mods(instances@, k as int),
                texts(names@) == insert_all(Seq::empty(), instance_names(instances@, k as int)),
        {
            let inst = &instances[k];
            let ghost before = instance_names(instances@, k as int);
            insert_string(&mut names, to_owned(inst.name.as_str()));
            proof {
                let one = seq![inst.name@];
                assert(one.drop_last() =~= Seq::<Seq<char>>::empty());
                assert(insert_all(Seq::empty(), before + one) == crate::names::insert_text(
                    insert_all(Seq::empty(), (before + one).drop_last()),
                    (before + one).last(),
                ));
                assert((before + one).drop_last() =~= before);
            }
            let ghost mid = before + seq![inst.name@];
            proof {
                lemma_total_mods_mono(instances@, k + 1, instances@.len() as int);
            }
            for n in 0..inst.mods.len()
                invariant
                    inst == instances@[k as int],
                    total_mods(instances@, k + 1) <= usize::MAX,
                    count == total_mods(instances@, k as int) + n,
                    texts(names@) == insert_all(Seq::empty(), mid + content_names(inst.mods@, n as int)),
            {
                count = count + 1;
                insert_names_of(&mut names, &inst.mods[n]);
                proof {
                    lemma_insert_all_concat(
                        Seq::empty(),
                        mid + content_names(inst.mods@, n as int),
                        names_of(inst.mods@[n as int]),
                    );
                    assert(mid + content_names(inst.mods@, n + 1) =~= mid + content_names(inst.mods@, n as int)
                        + names_of(inst.mods@[n as int]));
                }
            }
            assert(instance_names(instances@, k + 1) =~= mid + content_names(inst.mods@, inst.mods@.len() as int));
        }
        proof {
            let all = instance_names(instances@, instances@.len() as int);
            lemma_insert_all_distinct(Seq::empty(), all);
            assert(Seq::<Seq<char>>::empty().to_set().union(all.to_set()) =~= all.to_set());
        }
        let total = if count > instances.len() {
            count
        } else {
            instances.len()
        };
        RecommendationContext {
            total_items: total,
            installed_names: names,
            exclude_project_ids: copy_ids(exclude_project_ids),
        }
    }
}

/// The search terms for mods, by loader and number of installed items.
pub open spec fn spec_mod_query(loader: Loader, total_mods: int) -> Option<Seq<char>> {
    match loader {
        Loader::Fabric => if total_mods > 35 {
            Some("performance optimization"@)
        } else if total_mods > 12 {
            Some("utility quality of life"@)
        } else {
            Some("library api"@)
        },
        Loader::Forge | Loader::NeoForge => if total_mods > 35 {
            Some("optimization"@)
        } else {
            Some("tech"@)
        },
        _ => if total_mods > 25 {
            Some("optimization"@)
        } else {
            None
        },
    }
}

/// The search terms for modpacks, by loader and number of installed items.
pub open spec fn spec_modpack_query(loader: Loader, signal: int) -> Option<Seq<char>> {
    match loader {
        Loader::Fabric => if signal > 80 {
            Some("kitchen sink"@)
        } else if signal > 35 {
            Some("questing adventure"@)
        } else if signal > 12 {
            Some("vanilla plus"@)
        } else {
            Some("lightweight survival"@)
        },
        Loader::Forge | Loader::NeoForge => if signal > 50 {
            Some("tech modpack"@)
        } else {
            Some("adventure quests"@)
        },
        Loader::Vanilla => Some("vanilla"@),
    }
}

/// The search terms for a kind of content.
pub open spec fn spec_query(loader: Loader, kind: RecommendedContentKind, total_items: int) -> Option<Seq<char>> {
    match kind {
        RecommendedContentKind::Modpack => spec_modpack_query(loader, total_items),
        RecommendedContentKind::Mod => spec_mod_query(loader, total_items),
        RecommendedContentKind::ResourcePack => Some("aesthetic"@),
        RecommendedContentKind::Shader => if total_items > 0 {
            Some("performance"@)
        } else {
            Some("realistic"@)
        },
    }
}

/// The search facets: the project type and game version, and the loader unless the instance
/// is vanilla and the search is not for modpacks.
pub open spec fn spec_facets(loader: Loader, minecraft_version: Seq<char>, kind: RecommendedContentKind) -> Seq<
    char,
> {
    let head = "[[\"project_type="@ + spec_project_type_str(spec_kind_project_type(kind)) + "\"],[\"versions="@
        + minecraft_version;
    if loader == Loader::Vanilla && kind != RecommendedContentKind::Modpack {
        head + "\"]]"@
    } else {
        head + "\"],[\"categories:"@ + spec_modrinth_loader_id(loader) + "\"]]"@
    }
}

/// The search terms for mods, by loader and number of installed items.
pub fn mod_recommendation_query(loader: Loader, total_mods: usize) -> (res: Option<String>)
    ensures
        opt_text(res) == spec_mod_query(loader, total_mods as int),
{
    match loader {
        Loader::Fabric => {
            if total_mods > 35 {
                Some(to_owned("performance optimization"))
            } else if total_mods > 12 {
                Some(to_owned("utility quality of life"))
            } else {
                Some(to_owned("library api"))
            }
        },
        Loader::Forge | Loader::NeoForge => {
            if total_mods > 35 {
                Some(to_owned("optimization"))
            } else {
                Some(to_owned("tech"))
            }
        },
        _ => {
            if total_mods > 25 {
                Some(to_owned("optimization"))
            } else {
                None
            }
        },
    }
}

/// The search terms for modpacks, by loader and number of installed items.
pub fn modpack_recommendation_query(loader: Loader, signal: usize) -> (res: Option<String>)
    ensures
        opt_text(res) == spec_modpack_query(loader, signal as int),
{
    match loader {
        Loader::Fabric => {
            if signal > 80 {
                Some(to_owned("kitchen sink"))
            } else if signal > 35 {
                Some(to_owned("questing adventure"))
            } else if signal > 12 {
                Some(to_owned("vanilla plus"))
            } else {
                Some(to_owned("lightweight survival"))
            }
        },
        Loader::Forge | Loader::NeoForge => {
            if signal > 50 {
                Some(to_owned("tech modpack"))
            } else {
                Some(to_owned("adventure quests"))
            }
        },
        Loader::Vanilla => Some(to_owned("vanilla")),
    }
}

/// The Modrinth search that finds recommendations of a kind for an instance: the kind's search
/// terms, its facets, sorted by downloads, the first twenty results.
pub fn build_search_request(
    loader: Loader,
    minecraft_version: &str,
    kind: RecommendedContentKind,
    ctx: &RecommendationContext,
) -> (res: ModrinthSearchRequest)
    ensures
        opt_text(res.query) == spec_query(loader, kind, ctx.total_items as int),
        opt_text(res.facets) == Some(spec_facets(loader, minecraft_version@, kind)),
        res.index == ModrinthSearchIndex::Downloads,
        res.offset == 0,
        res.limit == 20,
{
    let loader_id = loader.modrinth_loader_id();
    let project_type = kind.modrinth_project_type().as_str();
    let query = match kind {
        RecommendedContentKind::Modpack => modpack_recommendation_query(loader, ctx.total_items),
        RecommendedContentKind::Mod => mod_recommendation_query(loader, ctx.total_items),
        RecommendedContentKind::ResourcePack => Some(to_owned("aesthetic")),
        RecommendedContentKind::Shader => {
            if ctx.total_items > 0 {
                Some(to_owned("performance"))
            } else {
                Some(to_owned("realistic"))
            }
        },
    };
    let mut facets = String::new();
    append_str(&mut facets, "[[\"project_type=");
    append_str(&mut facets, project_type);
    append_str(&mut facets, "\"],[\"versions=");
    append_str(&mut facets, minecraft_version);
    if loader == Loader::Vanilla && kind != RecommendedContentKind::Modpack {
        append_str(&mut facets, "\"]]");
    } else {
        append_str(&mut facets, "\"],[\"categories:");
        append_str(&mut facets, loader_id);
        append_str(&mut facets, "\"]]");
    }
    ModrinthSearchRequest {
        query,
        facets: Some(facets),
        index: ModrinthSearchIndex::Downloads,
        offset: 0,
        limit: 20,
    }
}

/// Whether a category is `a` or `b`.
pub open spec fn is_either(c: Seq<char>, a: Seq<char>, b: Seq<char>) -> bool {
    c == a || c == b
}

/// Whether a list of categories includes `a` or `b`.
pub open spec fn list_has(cs: Seq<Seq<char>>, a: Seq<char>, b: Seq<char>) -> bool {
    exists|i: int| 0 <= i < cs.len() && #[trigger] is_either(cs[i], a, b)
}

/// Whether a hit's display categories include `a` or `b`.
pub open spec fn has_category(cats: Option<Seq<Seq<char>>>, a: Seq<char>, b: Seq<char>) -> bool {
    match cats {
        Some(cs) => list_has(cs, a, b),
        None => false,
    }
}

/// Whether a title names one of the big kitchen-sink modpacks (ASCII case ignored).
pub open spec fn big_pack_title(title: Option<Seq<char>>) -> bool {
    match title {
        Some(t) => {
            let lower = ascii_lower(t);
            contains(lower, "kitchen"@) || contains(lower, "atm"@) || contains(lower, "all the mods"@)
        },
        None => false,
    }
}

/// The part of a score that comes from downloads: one point per hundred thousand, at most
/// forty.
pub open spec fn download_points(downloads: u64) -> int {
    let d = if downloads > i32::MAX {
        i32::MAX as int
    } else {
        downloads as int
    };
    if d / 100_000 > 40 {
        40
    } else {
        d / 100_000
    }
}

/// How well a hit suits a kind of recommendation and what is installed.
pub open spec fn spec_score_hit(h: HitView, kind: RecommendedContentKind, total_items: int) -> int {
    let cats = h.display_categories;
    let kind_points = match kind {
        RecommendedContentKind::Mod => if total_items > 30 && has_category(cats, "optimization"@, "performance"@) {
            25int
        } else {
            0int
        },
        RecommendedContentKind::Modpack => (if has_category(cats, "quests"@, "adventure"@) {
            15int
        } else {
            0int
        }) + (if total_items > 40 && big_pack_title(h.title) {
            20int
        } else {
            0int
        }),
        RecommendedContentKind::Shader => if has_category(cats, "performance"@, "performance"@) {
            20int
        } else {
            0int
        },
        RecommendedContentKind::ResourcePack => if has_category(cats, "128x"@, "256x"@) {
            10int
        } else {
            0int
        },
    };
    download_points(h.downloads) + kind_points + if has_category(cats, "library"@, "api"@) {
        8int
    } else {
        0int
    }
}

/// Whether a hit's display categories include `a` or `b`.
fn categories_include(cats: &Option<Vec<String>>, a: &str, b: &str) -> (res: bool)
    ensures
        res == has_category(crate::model::opt_texts(*cats), a@, b@),
{
    match cats {
        Some(cs) => {
            let ghost v = cs@.map_values(|s: String| s@);
            assert(crate::model::opt_texts(*cats) == Some(v));
            for i in 0..cs.len()
                invariant
                    v == cs@.map_values(|s: String| s@),
                    crate::model::opt_texts(*cats) == Some(v),
                    forall|j: int| 0 <= j < i ==> !is_either(#[trigger] v[j], a@, b@),
            {
                if crate::text::str_eq(cs[i].as_str(), a) || crate::text::str_eq(cs[i].as_str(), b) {
                    assert(is_either(v[i as int], a@, b@));
                    return true;
                }
            }
            false
        },
        None => false,
    }
}

/// Whether a title names one of the big kitchen-sink modpacks (ASCII case ignored).
fn is_big_pack_title(title: &Option<String>) -> (res: bool)
    ensures
        res == big_pack_title(opt_text(*title)),
{
    match title {
        Some(t) => {
            let lower = str_ascii_lower(t.as_str());
            let k = crate::text::chars_of("kitchen");
            let a = crate::text::chars_of("atm");
            let m = crate::text::chars_of("all the mods");
            crate::text::slice_contains(lower.as_slice(), k.as_slice()) || crate::text::slice_contains(
                lower.as_slice(),
                a.as_slice(),
            ) || crate::text::slice_contains(lower.as_slice(), m.as_slice())
        },
        None => false,
    }
}

/// How well a hit suits a kind of recommendation and what is installed.
pub fn score_hit(hit: &ModrinthHit, kind: RecommendedContentKind, ctx: &RecommendationContext) -> (res: i32)
    ensures
        res == spec_score_hit(hit@, kind, ctx.total_items as int),
{
    let downloads: i32 = if hit.downloads > 2147483647u64 {
        2147483647i32
    } else {
        hit.downloads as i32
    };
    let mut score: i32 = if downloads / 100_000 > 40 {
        40
    } else {
        downloads / 100_000
    };
    let cats = &hit.display_categories;
    match kind {
        RecommendedContentKind::Mod => {
            if ctx.total_items > 30 && categories_include(cats, "optimization", "performance") {
                score = score + 25;
            }
        },
        RecommendedContentKind::Modpack => {
            if categories_include(cats, "quests", "adventure") {
                score = score + 15;
            }
            if ctx.total_items > 40 && is_big_pack_title(&hit.title) {
                score = score + 20;
            }
        },
        RecommendedContentKind::Shader => {
            if categories_include(cats, "performance", "performance") {
                score = score + 20;
            }
        },
        RecommendedContentKind::ResourcePack => {
            if categories_include(cats, "128x", "256x") {
                score = score + 10;
            }
        },
    }
    if categories_include(cats, "library", "api") {
        score = score + 8;
    }
    score
}

/// Whether a hit is already installed: its title and an installed name, ASCII case ignored,
/// one within the other. A hit without a title never is.
pub open spec fn spec_is_installed(h: HitView, installed: Seq<Seq<char>>) -> bool {
    let title = ascii_lower(
        match h.title {
            Some(t) => t,
            None => Seq::empty(),
        },
    );
    title.len() > 0 && exists|i: int|
        0 <= i < installed.len() && (contains(ascii_lower(installed[i]), title) || contains(
            title,
            ascii_lower(installed[i]),
        ))
}

/// Whether a hit is already installed: its title and an installed name, ASCII case ignored,
/// one within the other. A hit without a title never is.
pub fn is_already_installed(hit: &ModrinthHit, installed: &Vec<String>) -> (res: bool)
    ensures
        res == spec_is_installed(hit@, texts(installed@)),
{
    let title = match &hit.title {
        Some(t) => str_ascii_lower(t.as_str()),
        None => Vec::new(),
    };
    if title.len() == 0 {
        return false;
    }
    let ghost names = texts(installed@);
    assert(title@ == ascii_lower(
        match hit@.title {
            Some(t) => t,
            None => Seq::empty(),
        },
    ));
    for i in 0..installed.len()
        invariant
            names == texts(installed@),
            title@ == ascii_lower(
                match hit@.title {
                    Some(t) => t,
                    None => Seq::empty(),
                },
            ),
            title@.len() > 0,
            forall|j: int| 0 <= j < i ==> !(contains(ascii_lower(names[j]), title@) || contains(
                title@,
                ascii_lower(names[j]),
            )),
    {
        let lower = str_ascii_lower(installed[i].as_str());
        if crate::text::slice_contains(lower.as_slice(), title.as_slice()) || crate::text::slice_contains(
            title.as_slice(),
            lower.as_slice(),
        ) {
            assert(names[i as int] == installed@[i as int]@);
            assert(0 <= i < names.len() && (contains(ascii_lower(names[i as int]), title@) || contains(
                title@,
                ascii_lower(names[i as int]),
            )));
            return true;
        }
    }
    false
}

/// Whether an entry (score, downloads, index) ranks strictly ahead of another: a higher
/// score, or the same score and more downloads.
pub open spec fn ranks_before(a: (i32, u64, usize), b: (i32, u64, usize)) -> bool {
    a.0 > b.0 || (a.0 == b.0 && a.1 > b.1)
}

/// Where a new entry goes in a ranked list: before the first entry it ranks ahead of, so after
/// every entry that ranks level with it.
pub open spec fn first_after(s: Seq<(i32, u64, usize)>, x: (i32, u64, usize)) -> int
    decreases s.len(),
{
    if s.len() == 0 {
        0
    } else if ranks_before(x, s[0]) {
        0
    } else {
        1 + first_after(s.drop_first(), x)
    }
}

/// The entries ranked best first; entries that rank level keep their order (a stable sort).
pub open spec fn stable_rank(s: Seq<(i32, u64, usize)>) -> Seq<(i32, u64, usize)>
    decreases s.len(),
{
    if s.len() == 0 {
        s
    } else {
        let r = stable_rank(s.drop_last());
        r.insert(first_after(r, s.last()), s.last())
    }
}

/// No entry of the list ranks ahead of an earlier one.
pub open spec fn rank_sorted(s: Seq<(i32, u64, usize)>) -> bool {
    forall|i: int, j: int| 0 <= i < j < s.len() ==> !ranks_before(#[trigger] s[j], #[trigger] s[i])
}

/// Whether a hit is kept: of the kind's project type, not excluded, not already installed.
pub open spec fn keep_hit(
    h: HitView,
    kind: RecommendedContentKind,
    installed: Seq<Seq<char>>,
    exclude: Seq<Seq<char>>,
) -> bool {
    h.project_type == spec_kind_project_type(kind) && !exclude.contains(h.project_id) && !spec_is_installed(
        h,
        installed,
    )
}

/// The kept hits among the first `n`, as (score, downloads, index), in order.
pub open spec fn scored(
    hits: Seq<HitView>,
    kind: RecommendedContentKind,
    installed: Seq<Seq<char>>,
    exclude: Seq<Seq<char>>,
    total_items: int,
    n: int,
) -> Seq<(i32, u64, usize)>
    decreases n,
{
    if n <= 0 {
        Seq::empty()
    } else {
        let rest = scored(hits, kind, installed, exclude, total_items, n - 1);
        let h = hits[n - 1];
        if keep_hit(h, kind, installed, exclude) {
            rest.push((spec_score_hit(h, kind, total_items) as i32, h.downloads, (n - 1) as usize))
        } else {
            rest
        }
    }
}

pub open spec fn hits_view(s: Seq<ModrinthHit>) -> Seq<HitView> {
    s.map_values(|h: ModrinthHit| h@)
}

/// The recommendations: the kept hits ranked best first, at most `limit` of them.
pub open spec fn spec_rank(
    hits: Seq<HitView>,
    kind: RecommendedContentKind,
    installed: Seq<Seq<char>>,
    exclude: Seq<Seq<char>>,
    total_items: int,
    limit: int,
) -> Seq<HitView> {
    let r = stable_rank(scored(hits, kind, installed, exclude, total_items, hits.len() as int));
    let k = if limit < r.len() {
        limit
    } else {
        r.len() as int
    };
    r.take(k).map_values(|e: (i32, u64, usize)| hits[e.2 as int])
}

proof fn lemma_first_after(s: Seq<(i32, u64, usize)>, x: (i32, u64, usize))
    ensures
        0 <= first_after(s, x) <= s.len(),
        first_after(s, x) < s.len() ==> ranks_before(x, s[first_after(s, x)]),
        forall|m: int| 0 <= m < first_after(s, x) ==> !ranks_before(x, #[trigger] s[m]),
    decreases s.len(),
{
    if s.len() > 0 && !ranks_before(x, s[0]) {
        lemma_first_after(s.drop_first(), x);
        assert forall|m: int| 0 < m < s.len() implies s[m] == s.drop_first()[m - 1] by {}
    }
}

proof fn lemma_first_after_unique(s: Seq<(i32, u64, usize)>, x: (i32, u64, usize), j: int)
    requires
        0 <= j <= s.len(),
        j < s.len() ==> ranks_before(x, s[j]),
        forall|m: int| 0 <= m < j ==> !ranks_before(x, #[trigger] s[m]),
    ensures
        first_after(s, x) == j,
{
    lemma_first_after(s, x);
    let f = first_after(s, x);
    if f < j {
        assert(!ranks_before(x, s[f]));
    } else if j < f {
        assert(!ranks_before(x, s[j]));
    }
}

/// Ranking puts no entry ahead of one that ranks above it.
pub proof fn lemma_stable_rank_sorted(s: Seq<(i32, u64, usize)>)
    ensures
        rank_sorted(stable_rank(s)),
        stable_rank(s).len() == s.len(),
    decreases s.len(),
{
    if s.len() > 0 {
        let r = stable_rank(s.drop_last());
        let x = s.last();
        lemma_stable_rank_sorted(s.drop_last());
        lemma_first_after(r, x);
        let j = first_after(r, x);
        let t = r.insert(j, x);
        assert forall|a: int, b: int| 0 <= a < b < t.len() implies !ranks_before(
            #[trigger] t[b],
            #[trigger] t[a],
        ) by {
            if b < j {
                assert(t[a] == r[a] && t[b] == r[b]);
            } else if b == j {
                assert(t[a] == r[a] && t[b] == x);
            } else if a == j {
                assert(t[a] == x && t[b] == r[b - 1]);
                if j < r.len() {
                    assert(ranks_before(x, r[j]));
                    if b - 1 > j {
                        assert(!ranks_before(r[b - 1], r[j]));
                    }
                }
            } else if a < j {
                assert(t[a] == r[a] && t[b] == r[b - 1]);
            } else {
                assert(t[a] == r[a - 1] && t[b] == r[b - 1]);
            }
        }
    }
}

/// Ranking neither adds nor drops entries.
pub proof fn lemma_stable_rank_members(s: Seq<(i32, u64, usize)>)
    ensures
        stable_rank(s).to_multiset() == s.to_multiset(),
    decreases s.len(),
{
    if s.len() > 0 {
        let r = stable_rank(s.drop_last());
        lemma_stable_rank_members(s.drop_last());
        lemma_first_after(r, s.last());
        vstd::seq_lib::to_multiset_insert(r, first_after(r, s.last()), s.last());
        vstd::seq_lib::to_multiset_build(s.drop_last(), s.last());
        assert(s.drop_last().push(s.last()) =~= s);
    }
}

/// The recommendations among search hits: those of the kind's project type that are neither
/// excluded nor already installed, best score first (more downloads first among equal scores,
/// the search order among equal both), at most `limit` of them.
pub fn rank_recommendations(
    hits: &[ModrinthHit],
    kind: RecommendedContentKind,
    ctx: &RecommendationContext,
    limit: usize,
) -> (res: Vec<ModrinthHit>)
    ensures
        hits_view(res@) == spec_rank(
            hits_view(hits@),
            kind,
            texts(ctx.installed_names@),
            texts(ctx.exclude_project_ids@),
            ctx.total_items as int,
            limit as int,
        ),
{
    let ghost hv = hits_view(hits@);
    let ghost installed = texts(ctx.installed_names@);
    let ghost exclude = texts(ctx.exclude_project_ids@);
    let ghost total = ctx.total_items as int;
    let wanted = kind.modrinth_project_type();
    let mut entries: Vec<(i32, u64, usize)> = Vec::new();
    for n in 0..hits.len()
        invariant
            hv == hits_view(hits@),
            installed == texts(ctx.installed_names@),
            exclude == texts(ctx.exclude_project_ids@),
            total == ctx.total_items as int,
            wanted == spec_kind_project_type(kind),
            entries@ == scored(hv, kind, installed, exclude, total, n as int),
            forall|m: int| 0 <= m < entries.len() ==> #[trigger] entries@[m].2 < hits.len(),
    {
        let hit = &hits[n];
        assert(hv[n as int] == hit@);
        if hit.project_type == wanted && !crate::names::contains_text(
            &ctx.exclude_project_ids,
            hit.project_id.as_str(),
        ) && !is_already_installed(hit, &ctx.installed_names) {
            let score = score_hit(hit, kind, ctx);
            entries.push((score, hit.downloads, n));
        }
    }
    let mut ranked: Vec<(i32, u64, usize)> = Vec::new();
    for k in 0..entries.len()
        invariant
            ranked@ == stable_rank(entries@.take(k as int)),
            forall|m: int| 0 <= m < entries.len() ==> #[trigger] entries@[m].2 < hits.len(),
            forall|m: int| 0 <= m < ranked.len() ==> #[trigger] ranked@[m].2 < hits.len(),
    {
        let x = entries[k];
        assert(entries@.take(k + 1).drop_last() =~= entries@.take(k as int));
        assert(entries@.take(k + 1).last() == x);
        let mut j: usize = 0;
        while j < ranked.len() && !(x.0 > ranked[j].0 || (x.0 == ranked[j].0 && x.1 > ranked[j].1))
            invariant
                j <= ranked.len(),
                forall|m: int| 0 <= m < j ==> !ranks_before(x, #[trigger] ranked@[m]),
            decreases ranked.len() - j,
        {
            j = j + 1;
        }
        proof {
            lemma_first_after_unique(ranked@, x, j as int);
        }
        let ghost before = ranked@;
        ranked.insert(j, x);
        assert forall|m: int| 0 <= m < ranked.len() implies #[trigger] ranked@[m].2 < hits.len() by {
            if m < j {
                assert(ranked@[m] == before[m]);
            } else if m > j {
                assert(ranked@[m] == before[m - 1]);
            }
        }
    }
    assert(entries@.take(entries@.len() as int) =~= entries@);
    let ghost full = stable_rank(scored(hv, kind, installed, exclude, total, hv.len() as int));
    let ghost count = if (limit as int) < full.len() {
        limit as int
    } else {
        full.len() as int
    };
    let mut res: Vec<ModrinthHit> = Vec::new();
    let mut i: usize = 0;
    while i < ranked.len() && i < limit
        invariant
            ranked@ == full,
            hv == hits_view(hits@),
            i <= ranked.len(),
            i <= count,
            count == if (limit as int) < full.len() {
                limit as int
            } else {
                full.len() as int
            },
            forall|m: int| 0 <= m < ranked.len() ==> #[trigger] ranked@[m].2 < hits.len(),
            hits_view(res@) == full.take(i as int).map_values(|e: (i32, u64, usize)| hv[e.2 as int]),
        decreases ranked.len() - i,
    {
        let ghost before = res@;
        let h = hits[ranked[i].2].duplicate();
        res.push(h);
        assert(hits_view(res@) =~= hits_view(before).push(h@));
        assert(full.take(i + 1).map_values(|e: (i32, u64, usize)| hv[e.2 as int]) =~= full.take(
            i as int,
        ).map_values(|e: (i32, u64, usize)| hv[e.2 as int]).push(hv[full[i as int].2 as int]));
        i = i + 1;
    }
    res
}

proof fn lemma_score_bounds(h: HitView, kind: RecommendedContentKind, total_items: int)
    ensures
        0 <= spec_score_hit(h, kind, total_items) <= 83,
{
}

/// Whether a hit ranks strictly ahead of another: a higher score, or the same score and more
/// downloads.
pub open spec fn hit_ranks_before(a: HitView, b: HitView, kind: RecommendedContentKind, total_items: int) -> bool {
    spec_score_hit(a, kind, total_items) > spec_score_hit(b, kind, total_items) || (spec_score_hit(
        a,
        kind,
        total_items,
    ) == spec_score_hit(b, kind, total_items) && a.downloads > b.downloads)
}

/// An entry stands for a kept hit, with its score and downloads.
pub open spec fn entry_ok(
    hits: Seq<HitView>,
    kind: RecommendedContentKind,
    installed: Seq<Seq<char>>,
    exclude: Seq<Seq<char>>,
    total_items: int,
    e: (i32, u64, usize),
) -> bool {
    &&& e.2 < hits.len()
    &&& keep_hit(hits[e.2 as int], kind, installed, exclude)
    &&& e.0 == spec_score_hit(hits[e.2 as int], kind, total_items)
    &&& e.1 == hits[e.2 as int].downloads
}

proof fn lemma_scored_ok(
    hits: Seq<HitView>,
    kind: RecommendedContentKind,
    installed: Seq<Seq<char>>,
    exclude: Seq<Seq<char>>,
    total_items: int,
    n: int,
)
    requires
        0 <= n <= hits.len(),
        hits.len() <= usize::MAX,
    ensures
        forall|k: int|
            #![trigger scored(hits, kind, installed, exclude, total_items, n)[k]]
            0 <= k < scored(hits, kind, installed, exclude, total_items, n).len() ==> entry_ok(
                hits,
                kind,
                installed,
                exclude,
                total_items,
                scored(hits, kind, installed, exclude, total_items, n)[k],
            ),
    decreases n,
{
    if n > 0 {
        lemma_scored_ok(hits, kind, installed, exclude, total_items, n - 1);
        lemma_score_bounds(hits[n - 1], kind, total_items);
        let rest = scored(hits, kind, installed, exclude, total_items, n - 1);
        let r = scored(hits, kind, installed, exclude, total_items, n);
        assert forall|k: int| #![trigger r[k]] 0 <= k < r.len() implies entry_ok(
            hits,
            kind,
            installed,
            exclude,
            total_items,
            r[k],
        ) by {
            if k < rest.len() {
                assert(r[k] == rest[k]);
            } else {
                let sc = spec_score_hit(hits[n - 1], kind, total_items);
                assert(sc as i32 == sc);
                assert(((n - 1) as usize) as int == n - 1);
            }
        }
    }
}

/// How many of the first `n` hits are kept.
pub open spec fn kept_count(
    hits: Seq<HitView>,
    kind: RecommendedContentKind,
    installed: Seq<Seq<char>>,
    exclude: Seq<Seq<char>>,
    n: int,
) -> int
    decreases n,
{
    if n <= 0 {
        0
    } else {
        kept_count(hits, kind, installed, exclude, n - 1) + if keep_hit(hits[n - 1], kind, installed, exclude) {
            1int
        } else {
            0int
        }
    }
}

proof fn lemma_scored_len(
    hits: Seq<HitView>,
    kind: RecommendedContentKind,
    installed: Seq<Seq<char>>,
    exclude: Seq<Seq<char>>,
    total_items: int,
    n: int,
)
    ensures
        scored(hits, kind, installed, exclude, total_items, n).len() == kept_count(hits, kind, installed, exclude, n),
    decreases n,
{
    if n > 0 {
        lemma_scored_len(hits, kind, installed, exclude, total_items, n - 1);
    }
}

/// The recommendations are kept hits of the search (of the kind's project type, neither
/// excluded nor already installed), as many as `limit` allows of all the kept hits, no one
/// ranking ahead of an earlier one.
pub proof fn law_recommendations(
    hits: Seq<HitView>,
    kind: RecommendedContentKind,
    installed: Seq<Seq<char>>,
    exclude: Seq<Seq<char>>,
    total_items: int,
    limit: int,
)
    requires
        limit >= 0,
        hits.len() <= usize::MAX,
    ensures
        spec_rank(hits, kind, installed, exclude, total_items, limit).len() <= limit,
        spec_rank(hits, kind, installed, exclude, total_items, limit).len() == if limit < kept_count(
            hits,
            kind,
            installed,
            exclude,
            hits.len() as int,
        ) {
            limit
        } else {
            kept_count(hits, kind, installed, exclude, hits.len() as int)
        },
        forall|i: int|
            #![trigger spec_rank(hits, kind, installed, exclude, total_items, limit)[i]]
            0 <= i < spec_rank(hits, kind, installed, exclude, total_items, limit).len() ==> keep_hit(
                spec_rank(hits, kind, installed, exclude, total_items, limit)[i],
                kind,
                installed,
                exclude,
            ),
        forall|i: int, j: int|
            0 <= i < j < spec_rank(hits, kind, installed, exclude, total_items, limit).len() ==> !hit_ranks_before(
                #[trigger] spec_rank(hits, kind, installed, exclude, total_items, limit)[j],
                #[trigger] spec_rank(hits, kind, installed, exclude, total_items, limit)[i],
                kind,
                total_items,
            ),
{
    let s = scored(hits, kind, installed, exclude, total_items, hits.len() as int);
    let r = stable_rank(s);
    lemma_scored_ok(hits, kind, installed, exclude, total_items, hits.len() as int);
    lemma_stable_rank_sorted(s);
    lemma_stable_rank_members(s);
    lemma_scored_len(hits, kind, installed, exclude, total_items, hits.len() as int);
    let res = spec_rank(hits, kind, installed, exclude, total_items, limit);
    let k = if limit < r.len() {
        limit
    } else {
        r.len() as int
    };
    assert forall|i: int| 0 <= i < r.len() implies entry_ok(hits, kind, installed, exclude, total_items, #[trigger] r[i]) by {
        vstd::seq_lib::to_multiset_contains(r, r[i]);
        vstd::seq_lib::to_multiset_contains(s, r[i]);
        assert(r.contains(r[i]));
        let m = choose|m: int| 0 <= m < s.len() && s[m] == r[i];
        assert(entry_ok(hits, kind, installed, exclude, total_items, s[m]));
    }
    assert forall|i: int| #![trigger res[i]] 0 <= i < res.len() implies keep_hit(res[i], kind, installed, exclude) by {
        assert(res[i] == hits[r[i].2 as int]);
        assert(entry_ok(hits, kind, installed, exclude, total_items, r[i]));
    }
    assert forall|i: int, j: int| 0 <= i < j < res.len() implies !hit_ranks_before(
        #[trigger] res[j],
        #[trigger] res[i],
        kind,
        total_items,
    ) by {
        assert(res[i] == hits[r[i].2 as int]);
        assert(res[j] == hits[r[j].2 as int]);
        assert(entry_ok(hits, kind, installed, exclude, total_items, r[i]));
        assert(entry_ok(hits, kind, installed, exclude, total_items, r[j]));
        assert(!ranks_before(r[j], r[i]));
    }
}

proof fn lemma_scored_has(
    hits: Seq<HitView>,
    kind: RecommendedContentKind,
    installed: Seq<Seq<char>>,
    exclude: Seq<Seq<char>>,
    total_items: int,
    n: int,
    m: int,
)
    requires
        0 <= m < n <= hits.len(),
        hits.len() <= usize::MAX,
        keep_hit(hits[m], kind, installed, exclude),
    ensures
        exists|k: int|
            0 <= k < scored(hits, kind, installed, exclude, total_items, n).len() && (#[trigger] scored(
                hits,
                kind,
                installed,
                exclude,
                total_items,
                n,
            )[k]).2 == m,
    decreases n,
{
    let r = scored(hits, kind, installed, exclude, total_items, n);
    if m == n - 1 {
        let rest = scored(hits, kind, installed, exclude, total_items, n - 1);
        assert(r == rest.push((spec_score_hit(hits[m], kind, total_items) as i32, hits[m].downloads, m as usize)));
        assert(r[r.len() - 1].2 == m);
    } else {
        lemma_scored_has(hits, kind, installed, exclude, total_items, n - 1, m);
        let rest = scored(hits, kind, installed, exclude, total_items, n - 1);
        let k = choose|k: int| 0 <= k < rest.len() && (#[trigger] rest[k]).2 == m;
        assert(r[k] == rest[k]);
    }
}

/// Nothing kept is passed over for a worse hit: every hit that is kept is recommended, or the
/// `limit` recommendations all rank at least as well as it.
pub proof fn law_recommendations_complete(
    hits: Seq<HitView>,
    kind: RecommendedContentKind,
    installed: Seq<Seq<char>>,
    exclude: Seq<Seq<char>>,
    total_items: int,
    limit: int,
    m: int,
)
    requires
        limit >= 0,
        hits.len() <= usize::MAX,
        0 <= m < hits.len(),
        keep_hit(hits[m], kind, installed, exclude),
    ensures
        (exists|i: int|
            0 <= i < spec_rank(hits, kind, installed, exclude, total_items, limit).len() && #[trigger] spec_rank(
                hits,
                kind,
                installed,
                exclude,
                total_items,
                limit,
            )[i] == hits[m]) || (spec_rank(hits, kind, installed, exclude, total_items, limit).len() == limit
            && forall|i: int|
            0 <= i < spec_rank(hits, kind, installed, exclude, total_items, limit).len() ==> !hit_ranks_before(
                hits[m],
                #[trigger] spec_rank(hits, kind, installed, exclude, total_items, limit)[i],
                kind,
                total_items,
            )),
{
    let s = scored(hits, kind, installed, exclude, total_items, hits.len() as int);
    let r = stable_rank(s);
    let res = spec_rank(hits, kind, installed, exclude, total_items, limit);
    lemma_scored_ok(hits, kind, installed, exclude, total_items, hits.len() as int);
    lemma_stable_rank_sorted(s);
    lemma_stable_rank_members(s);
    lemma_scored_has(hits, kind, installed, exclude, total_items, hits.len() as int, m);
    let q = choose|q: int| 0 <= q < s.len() && (#[trigger] s[q]).2 == m;
    let e = s[q];
    assert(entry_ok(hits, kind, installed, exclude, total_items, e));
    vstd::seq_lib::to_multiset_contains(s, e);
    assert(s.contains(e));
    vstd::seq_lib::to_multiset_contains(r, e);
    let p = choose|p: int| 0 <= p < r.len() && r[p] == e;
    let k = if limit < r.len() {
        limit
    } else {
        r.len() as int
    };
    assert forall|i: int| 0 <= i < r.len() implies entry_ok(hits, kind, installed, exclude, total_items, #[trigger] r[i]) by {
        vstd::seq_lib::to_multiset_contains(r, r[i]);
        vstd::seq_lib::to_multiset_contains(s, r[i]);
        assert(r.contains(r[i]));
        let j = choose|j: int| 0 <= j < s.len() && s[j] == r[i];
        assert(entry_ok(hits, kind, installed, exclude, total_items, s[j]));
    }
    if p < k {
        assert(res[p] == hits[r[p].2 as int]);
    } else {
        assert forall|i: int| 0 <= i < res.len() implies !hit_ranks_before(
            hits[m],
            #[trigger] res[i],
            kind,
            total_items,
        ) by {
            assert(res[i] == hits[r[i].2 as int]);
            assert(entry_ok(hits, kind, installed, exclude, total_items, r[i]));
            assert(!ranks_before(r[p], r[i]));
        }
    }
}

proof fn lemma_list_has_push(cs: Seq<Seq<char>>, x: Seq<char>, a: Seq<char>, b: Seq<char>)
    requires
        x != a && x != b,
    ensures
        list_has(cs.push(x), a, b) == list_has(cs, a, b),
{
    if list_has(cs, a, b) {
        let i = choose|i: int| 0 <= i < cs.len() && #[trigger] is_either(cs[i], a, b);
        assert(cs.push(x)[i] == cs[i]);
        assert(is_either(cs.push(x)[i], a, b));
    }
    if list_has(cs.push(x), a, b) {
        let i = choose|i: int| 0 <= i < cs.push(x).len() && #[trigger] is_either(cs.push(x)[i], a, b);
        assert(i < cs.len());
        assert(is_either(cs[i], a, b));
    }
}

/// A modpack about quests or adventure gets fifteen points: adding the category `adventure`
/// (or `quests`) to a modpack hit that had neither raises its score by exactly fifteen.
pub proof fn law_modpack_adventure_bonus(h: HitView, cs: Seq<Seq<char>>, added: Seq<char>, total_items: int)
    requires
        h.display_categories == Some(cs),
        added == "adventure"@ || added == "quests"@,
        forall|i: int| 0 <= i < cs.len() ==> #[trigger] cs[i] != "adventure"@ && cs[i] != "quests"@,
    ensures
        spec_score_hit(
            HitView { display_categories: Some(cs.push(added)), ..h },
            RecommendedContentKind::Modpack,
            total_items,
        ) == spec_score_hit(h, RecommendedContentKind::Modpack, total_items) + 15,
{
    reveal_strlit("adventure");
    reveal_strlit("quests");
    reveal_strlit("library");
    reveal_strlit("api");
    assert("adventure"@.len() != "library"@.len() && "adventure"@.len() != "api"@.len());
    assert("quests"@.len() != "library"@.len() && "quests"@.len() != "api"@.len());
    lemma_list_has_push(cs, added, "library"@, "api"@);
    assert(!list_has(cs, "quests"@, "adventure"@)) by {
        if list_has(cs, "quests"@, "adventure"@) {
            let i = choose|i: int| 0 <= i < cs.len() && #[trigger] is_either(cs[i], "quests"@, "adventure"@);
            assert(cs[i] != "adventure"@ && cs[i] != "quests"@);
        }
    }
    let n = cs.len() as int;
    assert(cs.push(added)[n] == added);
    assert(is_either(cs.push(added)[n], "quests"@, "adventure"@));
}

proof fn lemma_push_has(cs: Seq<Seq<char>>, x: Seq<char>, a: Seq<char>, b: Seq<char>)
    requires
        x == a || x == b,
    ensures
        list_has(cs.push(x), a, b),
{
    assert(is_either(cs.push(x)[cs.len() as int], a, b));
}

proof fn lemma_lacks(cs: Seq<Seq<char>>, a: Seq<char>, b: Seq<char>)
    requires
        forall|i: int| 0 <= i < cs.len() ==> #[trigger] cs[i] != a && cs[i] != b,
    ensures
        !list_has(cs, a, b),
{
    if list_has(cs, a, b) {
        let i = choose|i: int| 0 <= i < cs.len() && #[trigger] is_either(cs[i], a, b);
        assert(cs[i] != a && cs[i] != b);
    }
}

proof fn lemma_category_words()
    ensures
        "quests"@.len() == 6,
        "adventure"@.len() == 9,
        "optimization"@.len() == 12,
        "performance"@.len() == 11,
        "128x"@.len() == 4,
        "256x"@.len() == 4,
        "library"@.len() == 7,
        "api"@.len() == 3,
{
    reveal_strlit("quests");
    reveal_strlit("adventure");
    reveal_strlit("optimization");
    reveal_strlit("performance");
    reveal_strlit("128x");
    reveal_strlit("256x");
    reveal_strlit("library");
    reveal_strlit("api");
}

/// Adding a category to a hit, its other parts as they were.
pub open spec fn with_category(h: HitView, cs: Seq<Seq<char>>, added: Seq<char>) -> HitView {
    HitView { display_categories: Some(cs.push(added)), ..h }
}

/// What each category is worth. For mods, `optimization` or `performance` gives twenty-five
/// points once the instance holds more than thirty items, and nothing before; for shaders,
/// `performance` gives twenty; for resource packs, `128x` or `256x` gives ten; for every kind,
/// `library` or `api` gives eight. Adding such a category to a hit that had neither of its pair
/// raises the score by exactly that much.
pub proof fn law_category_bonuses(h: HitView, cs: Seq<Seq<char>>, added: Seq<char>, total_items: int)
    requires
        h.display_categories == Some(cs),
    ensures
        ((added == "optimization"@ || added == "performance"@) && forall|i: int|
            0 <= i < cs.len() ==> #[trigger] cs[i] != "optimization"@ && cs[i] != "performance"@) ==> spec_score_hit(
            with_category(h, cs, added),
            RecommendedContentKind::Mod,
            total_items,
        ) == spec_score_hit(h, RecommendedContentKind::Mod, total_items) + (if total_items > 30 {
            25int
        } else {
            0int
        }),
        (added == "performance"@ && forall|i: int| 0 <= i < cs.len() ==> #[trigger] cs[i] != "performance"@)
            ==> spec_score_hit(with_category(h, cs, added), RecommendedContentKind::Shader, total_items)
            == spec_score_hit(h, RecommendedContentKind::Shader, total_items) + 20,
        ((added == "128x"@ || added == "256x"@) && forall|i: int|
            0 <= i < cs.len() ==> #[trigger] cs[i] != "128x"@ && cs[i] != "256x"@) ==> spec_score_hit(
            with_category(h, cs, added),
            RecommendedContentKind::ResourcePack,
            total_items,
        ) == spec_score_hit(h, RecommendedContentKind::ResourcePack, total_items) + 10,
        ((added == "library"@ || added == "api"@) && forall|i: int|
            0 <= i < cs.len() ==> #[trigger] cs[i] != "library"@ && cs[i] != "api"@) ==> forall|
            kind: RecommendedContentKind,
        |
            #[trigger] spec_score_hit(with_category(h, cs, added), kind, total_items) == spec_score_hit(
                h,
                kind,
                total_items,
            ) + 8,
{
    lemma_category_words();
    if (added == "optimization"@ || added == "performance"@) && forall|i: int|
        0 <= i < cs.len() ==> #[trigger] cs[i] != "optimization"@ && cs[i] != "performance"@ {
        lemma_lacks(cs, "optimization"@, "performance"@);
        lemma_push_has(cs, added, "optimization"@, "performance"@);
        lemma_list_has_push(cs, added, "library"@, "api"@);
    }
    if added == "performance"@ && forall|i: int| 0 <= i < cs.len() ==> #[trigger] cs[i] != "performance"@ {
        lemma_lacks(cs, "performance"@, "performance"@);
        lemma_push_has(cs, added, "performance"@, "performance"@);
        lemma_list_has_push(cs, added, "library"@, "api"@);
    }
    if (added == "128x"@ || added == "256x"@) && forall|i: int|
        0 <= i < cs.len() ==> #[trigger] cs[i] != "128x"@ && cs[i] != "256x"@ {
        lemma_lacks(cs, "128x"@, "256x"@);
        lemma_push_has(cs, added, "128x"@, "256x"@);
        lemma_list_has_push(cs, added, "library"@, "api"@);
    }
    if (added == "library"@ || added == "api"@) && forall|i: int|
        0 <= i < cs.len() ==> #[trigger] cs[i] != "library"@ && cs[i] != "api"@ {
        lemma_lacks(cs, "library"@, "api"@);
        lemma_push_has(cs, added, "library"@, "api"@);
        lemma_list_has_push(cs, added, "optimization"@, "performance"@);
        lemma_list_has_push(cs, added, "quests"@, "adventure"@);
        lemma_list_has_push(cs, added, "performance"@, "performance"@);
        lemma_list_has_push(cs, added, "128x"@, "256x"@);
    }
}

/// Downloads count one point per hundred thousand, at most forty: a hit with `d` downloads
/// scores that many points more than the same hit with none.
pub proof fn law_download_points(h: HitView, kind: RecommendedContentKind, total_items: int, d: u64)
    ensures
        spec_score_hit(HitView { downloads: d, ..h }, kind, total_items) == spec_score_hit(
            HitView { downloads: 0, ..h },
            kind,
            total_items,
        ) + if d >= 4_000_000 {
            40int
        } else {
            d as int / 100_000
        },
{
}

/// A big kitchen-sink modpack (one whose title, ASCII case ignored, holds `kitchen`, `atm` or
/// `all the mods`) gets twenty more points than the same hit without a title once the instances
/// hold more than forty items, and none before.
pub proof fn law_big_pack_bonus(h: HitView, t: Seq<char>, total_items: int)
    requires
        crate::text::contains(crate::text::ascii_lower(t), "kitchen"@) || crate::text::contains(
            crate::text::ascii_lower(t),
            "atm"@,
        ) || crate::text::contains(crate::text::ascii_lower(t), "all the mods"@),
    ensures
        spec_score_hit(HitView { title: Some(t), ..h }, RecommendedContentKind::Modpack, total_items)
            == spec_score_hit(HitView { title: None, ..h }, RecommendedContentKind::Modpack, total_items) + (
        if total_items > 40 {
            20int
        } else {
            0int
        }),
{
}

} // verus!
