//! What the home page shows: totals over all instances, the favorite and recommended project
//! cards, the recent skins, and the quick-play panel.
use vstd::prelude::*;

use crate::model::{opt_text, spec_pretty_name, HitView, Loader, ModrinthHit};
use crate::recommendations::RecommendedContentKind;
use crate::text::{append_str, str_eq, to_owned};

verus! {

/// The totals over all instances.
pub struct HomeStats {
    pub instance_count: usize,
    pub total_playtime_secs: u64,
    pub total_mods: usize,
}

/// What the totals read of one instance: its play time and how many mods it has.
pub struct InstanceStats {
    pub playtime_secs: u64,
    pub mod_count: usize,
}

/// The play time of the first `n` instances.
pub open spec fn total_playtime(s: Seq<InstanceStats>, n: int) -> int
    decreases n,
{
    if n <= 0 {
        0
    } else {
        total_playtime(s, n - 1) + s[n - 1].playtime_secs
    }
}

/// The mods of the first `n` instances.
pub open spec fn total_mod_count(s: Seq<InstanceStats>, n: int) -> int
    decreases n,
{
    if n <= 0 {
        0
    } else {
        total_mod_count(s, n - 1) + s[n - 1].mod_count
    }
}

proof fn lemma_totals_mono(s: Seq<InstanceStats>, a: int, b: int)
    requires
        0 <= a <= b <= s.len(),
    ensures
        0 <= total_playtime(s, a) <= total_playtime(s, b),
        0 <= total_mod_count(s, a) <= total_mod_count(s, b),
    decreases b,
{
    if a < b {
        lemma_totals_mono(s, a, b - 1);
    } else if a > 0 {
        lemma_totals_mono(s, a - 1, a - 1);
    }
}

/// The totals over all instances: how many, their play time, their mods.
pub fn aggregate_stats(instances: &[InstanceStats]) -> (res: HomeStats)
    requires
        total_playtime(instances@, instances@.len() as int) <= u64::MAX,
        total_mod_count(instances@, instances@.len() as int) <= usize::MAX,
    ensures
        res.instance_count == instances@.len(),
        res.total_playtime_secs == total_playtime(instances@, instances@.len() as int),
        res.total_mods == total_mod_count(instances@, instances@.len() as int),
{
    let mut playtime: u64 = 0;
    let mut mods: usize = 0;
    for n in 0..instances.len()
        invariant
            total_playtime(instances@, instances@.len() as int) <= u64::MAX,
            total_mod_count(instances@, instances@.len() as int) <= usize::MAX,
            playtime == total_playtime(instances@, n as int),
            mods == total_mod_count(instances@, n as int),
    {
        proof {
            lemma_totals_mono(instances@, n + 1, instances@.len() as int);
        }
        playtime = playtime + instances[n].playtime_secs;
        mods = mods + instances[n].mod_count;
    }
    HomeStats { instance_count: instances.len(), total_playtime_secs: playtime, total_mods: mods }
}

/// Where a project card leads.
pub enum CardTarget {
    /// A Modrinth project's page, installing for an instance when named.
    ModrinthProject { project_id: String, project_title: String, install_for: Option<String> },
}

/// A project card: its title, subtitle, thumbnail and target.
pub struct RecommendationCard {
    pub title: String,
    pub subtitle: String,
    pub thumbnail: Option<String>,
    pub target: CardTarget,
}

/// The content of a card target.
pub enum CardTargetView {
    ModrinthProject { project_id: Seq<char>, project_title: Seq<char>, install_for: Option<Seq<char>> },
}

/// The content of a project card.
pub struct CardView {
    pub title: Seq<char>,
    pub subtitle: Seq<char>,
    pub thumbnail: Option<Seq<char>>,
    pub target: CardTargetView,
}

impl View for RecommendationCard {
    type V = CardView;

    open spec fn view(&self) -> CardView {
        CardView {
            title: self.title@,
            subtitle: self.subtitle@,
            thumbnail: opt_text(self.thumbnail),
            target: match self.target {
                CardTarget::ModrinthProject { project_id, project_title, install_for } =>
                    CardTargetView::ModrinthProject {
                    project_id: project_id@,
                    project_title: project_title@,
                    install_for: opt_text(install_for),
                },
            },
        }
    }
}

pub open spec fn cards_view(v: Seq<RecommendationCard>) -> Seq<CardView> {
    v.map_values(|c: RecommendationCard| c@)
}

/// The card of a Modrinth hit: its title (empty when it has none), author and icon, leading
/// to its page.
pub open spec fn hit_card(h: HitView, install_for: Option<Seq<char>>) -> CardView {
    let title = match h.title {
        Some(t) => t,
        None => Seq::empty(),
    };
    CardView {
        title,
        subtitle: h.author,
        thumbnail: h.icon_url,
        target: CardTargetView::ModrinthProject { project_id: h.project_id, project_title: title, install_for },
    }
}

impl RecommendationCard {
    /// The card of a Modrinth hit.
    pub fn from_modrinth_hit(hit: &ModrinthHit, install_for: Option<String>) -> (res: Self)
        ensures
            res@ == hit_card(hit@, opt_text(install_for)),
    {
        let title = match &hit.title {
            Some(t) => to_owned(t.as_str()),
            None => String::new(),
        };
        let project_title = to_owned(title.as_str());
        RecommendationCard {
            title,
            subtitle: to_owned(hit.author.as_str()),
            thumbnail: crate::model::copy_opt_string(&hit.icon_url),
            target: CardTarget::ModrinthProject {
                project_id: to_owned(hit.project_id.as_str()),
                project_title,
                install_for,
            },
        }
    }
}

/// The cards of a list of hits, in order.
pub fn hit_cards(hits: &[ModrinthHit], install_for: &Option<String>) -> (res: Vec<RecommendationCard>)
    ensures
        cards_view(res@) == hits@.map_values(|h: ModrinthHit| hit_card(h@, opt_text(*install_for))),
{
    let mut cards: Vec<RecommendationCard> = Vec::new();
    for i in 0..hits.len()
        invariant
            cards_view(cards@) == hits@.take(i as int).map_values(|h: ModrinthHit| hit_card(h@, opt_text(*install_for))),
    {
        let card = RecommendationCard::from_modrinth_hit(&hits[i], crate::model::copy_opt_string(install_for));
        let ghost before = cards@;
        cards.push(card);
        assert(cards_view(cards@) =~= cards_view(before).push(card@));
        assert(hits@.take(i + 1).map_values(|h: ModrinthHit| hit_card(h@, opt_text(*install_for))) =~= hits@.take(
            i as int,
        ).map_values(|h: ModrinthHit| hit_card(h@, opt_text(*install_for))).push(
            hit_card(hits@[i as int]@, opt_text(*install_for)),
        ));
    }
    assert(hits@.take(hits@.len() as int) =~= hits@);
    cards
}

/// The loader and game version of an instance, as shown: `"{loader} {version}"`.
pub fn loader_and_version(loader: Loader, minecraft_version: &str) -> (res: String)
    ensures
        res@ == spec_pretty_name(loader) + " "@ + minecraft_version@,
{
    let mut s = to_owned(loader.pretty_name());
    append_str(&mut s, " ");
    append_str(&mut s, minecraft_version);
    s
}

/// The icon of an instance without one: its fallback icon, else the box icon.
pub fn fallback_icon_path(fallback: Option<&str>) -> (res: &str)
    ensures
        res@ == match fallback {
            Some(p) => p@,
            None => "icons/box.svg"@,
        },
{
    match fallback {
        Some(p) => p,
        None => "icons/box.svg",
    }
}

/// What the home page shows for a number of instances: a welcome when there are none, else
/// the dashboard with the most recently played instance and up to four instances.
pub enum HomeLayout {
    Welcome,
    Dashboard { showcase: usize },
}

/// What the home page shows for a number of instances.
pub fn home_layout(instance_count: usize) -> (res: HomeLayout)
    ensures
        instance_count == 0 ==> res is Welcome,
        instance_count > 0 ==> (res matches HomeLayout::Dashboard { showcase } && showcase == if instance_count
            < 4 {
            instance_count
        } else {
            4
        }),
{
    if instance_count == 0 {
        HomeLayout::Welcome
    } else if instance_count < 4 {
        HomeLayout::Dashboard { showcase: instance_count }
    } else {
        HomeLayout::Dashboard { showcase: 4 }
    }
}

/// The sections of the home page's dashboard.
#[derive(Clone, Copy, PartialEq, Eq, Structural, Debug)]
pub enum HomeSection {
    /// The most recently played instance, with the account and its skins.
    Hero,
    /// Totals over all instances.
    Stats,
    /// Up to four instances, most recently played first.
    Instances,
    /// Recommended projects of a kind.
    Recommended(RecommendedContentKind),
}

/// The dashboard's sections, top to bottom: the hero, the totals, the instances, then
/// recommended modpacks (no favorite-mod or recommended-mod section); none without instances,
/// when the page welcomes instead.
pub open spec fn spec_home_sections(instance_count: nat) -> Seq<HomeSection> {
    if instance_count == 0 {
        Seq::empty()
    } else {
        seq![
            HomeSection::Hero,
            HomeSection::Stats,
            HomeSection::Instances,
            HomeSection::Recommended(RecommendedContentKind::Modpack),
        ]
    }
}

/// The sections the home page shows for a number of instances.
pub fn home_sections(instance_count: usize) -> (res: Vec<HomeSection>)
    ensures
        res@ == spec_home_sections(instance_count as nat),
{
    if instance_count == 0 {
        return Vec::new();
    }
    let mut v: Vec<HomeSection> = Vec::new();
    v.push(HomeSection::Hero);
    v.push(HomeSection::Stats);
    v.push(HomeSection::Instances);
    v.push(HomeSection::Recommended(RecommendedContentKind::Modpack));
    assert(v@ =~= spec_home_sections(instance_count as nat));
    v
}

/// A skin tile of the home page: the account's skin, or a skin of the library by position.
#[derive(Clone, Copy, PartialEq, Eq, Structural, Debug)]
pub enum SkinChoice {
    Account,
    Library(usize),
}

/// The position of the first library skin with a fingerprint, or the library's size.
pub open spec fn library_position(library: Seq<Seq<char>>, fingerprint: Seq<char>) -> int
    decreases library.len(),
{
    if library.len() == 0 {
        0
    } else if library[0] == fingerprint {
        0
    } else {
        1 + library_position(library.drop_first(), fingerprint)
    }
}

/// The skin tiles after the first `n` recent skins, and the fingerprints shown so far: the
/// account's skin first, then each recent skin that is in the library and not shown yet, at
/// most eight tiles in all.
pub open spec fn recent_skins_after(
    account: Seq<char>,
    recent: Seq<Seq<char>>,
    library: Seq<Seq<char>>,
    n: int,
) -> (Seq<SkinChoice>, Seq<Seq<char>>)
    decreases n,
{
    if n <= 0 {
        (seq![SkinChoice::Account], seq![account])
    } else {
        let (tiles, seen) = recent_skins_after(account, recent, library, n - 1);
        let e = recent[n - 1];
        let k = library_position(library, e);
        if tiles.len() >= 8 || seen.contains(e) || k >= library.len() {
            (tiles, seen)
        } else {
            (tiles.push(SkinChoice::Library(k as usize)), seen.push(e))
        }
    }
}

/// The skin tiles of the home page, by fingerprint: the account's skin, then recent skins
/// found in the library (when it is loaded), each once, at most eight tiles.
pub open spec fn spec_recent_skins(
    account: Seq<char>,
    recent: Seq<Seq<char>>,
    library: Option<Seq<Seq<char>>>,
) -> Seq<SkinChoice> {
    match library {
        Some(lib) => recent_skins_after(account, recent, lib, recent.len() as int).0,
        None => seq![SkinChoice::Account],
    }
}

proof fn lemma_library_position(library: Seq<Seq<char>>, f: Seq<char>)
    ensures
        0 <= library_position(library, f) <= library.len(),
        library_position(library, f) < library.len() ==> library[library_position(library, f)] == f,
        forall|m: int| 0 <= m < library_position(library, f) ==> #[trigger] library[m] != f,
    decreases library.len(),
{
    if library.len() > 0 && library[0] != f {
        lemma_library_position(library.drop_first(), f);
        assert forall|m: int| 0 < m < library.len() implies library[m] == library.drop_first()[m - 1] by {}
    }
}

proof fn lemma_recent_skins_len(account: Seq<char>, recent: Seq<Seq<char>>, library: Seq<Seq<char>>, n: int)
    ensures
        recent_skins_after(account, recent, library, n).0.len() == recent_skins_after(
            account,
            recent,
            library,
            n,
        ).1.len(),
        1 <= recent_skins_after(account, recent, library, n).0.len() <= 8,
    decreases n,
{
    if n > 0 {
        lemma_recent_skins_len(account, recent, library, n - 1);
    }
}

/// The skin tiles of the home page, by fingerprint.
pub fn recent_skins(account: &str, recent: &[String], library: Option<&Vec<String>>) -> (res: Vec<SkinChoice>)
    ensures
        res@ == spec_recent_skins(
            account@,
            crate::names::texts(recent@),
            match library {
                Some(l) => Some(crate::names::texts(l@)),
                None => None,
            },
        ),
{
    let mut tiles: Vec<SkinChoice> = Vec::new();
    tiles.push(SkinChoice::Account);
    let lib = match library {
        Some(l) => l,
        None => {
            return tiles;
        },
    };
    let ghost rv = crate::names::texts(recent@);
    let ghost lv = crate::names::texts(lib@);
    let mut seen: Vec<String> = Vec::new();
    seen.push(to_owned(account));
    assert(crate::names::texts(seen@) =~= seq![account@]);
    assert(tiles@ =~= seq![SkinChoice::Account]);
    for n in 0..recent.len()
        invariant
            rv == crate::names::texts(recent@),
            lv == crate::names::texts(lib@),
            (tiles@, crate::names::texts(seen@)) == recent_skins_after(account@, rv, lv, n as int),
    {
        proof {
            lemma_recent_skins_len(account@, rv, lv, n as int);
            lemma_library_position(lv, rv[n as int]);
        }
        let e = recent[n].as_str();
        assert(rv[n as int] == e@);
        if tiles.len() < 8 && !crate::names::contains_text(&seen, e) {
            let mut k: usize = 0;
            while k < lib.len() && !str_eq(lib[k].as_str(), e)
                invariant
                    lv == crate::names::texts(lib@),
                    k <= lib.len(),
                    forall|m: int| 0 <= m < k ==> #[trigger] lv[m] != e@,
                decreases lib.len() - k,
            {
                k = k + 1;
            }
            proof {
                let p = library_position(lv, e@);
                if p < k {
                    assert(lv[p] != e@);
                }
                if k < p {
                    assert(lv[k as int] == e@);
                }
            }
            if k < lib.len() {
                let ghost before = seen@;
                tiles.push(SkinChoice::Library(k));
                seen.push(to_owned(e));
                assert(crate::names::texts(seen@) =~= crate::names::texts(before).push(e@));
            }
        }
    }
    tiles
}

/// Whether the recent-skins hint shows: no skin besides the account's and no recent skins
/// remembered.
pub fn show_skin_hint(tile_count: usize, remembered: usize) -> (res: bool)
    ensures
        res == (tile_count <= 1 && remembered == 0),
{
    tile_count <= 1 && remembered == 0
}

} // verus!
