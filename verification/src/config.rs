//! The launcher's interface settings, and the user's favorite Modrinth and CurseForge projects.
use vstd::prelude::*;

use crate::model::{
    copy_opt_string, opt_text, CurseforgeHit, CurseforgeModAsset, HitView, ModrinthHit, ModrinthProjectType,
};
use crate::sort_key::InstanceContentSortKey;
use crate::text::{str_eq, to_owned};

verus! {

/// A Modrinth project the user marked as a favorite.
pub struct ModrinthFavorite {
    pub project_id: String,
    pub title: String,
    pub author: String,
    pub description: String,
    pub icon_url: Option<String>,
    pub downloads: u64,
    pub project_type: ModrinthProjectType,
}

/// The content of a Modrinth favorite.
pub struct ModrinthFavoriteView {
    pub project_id: Seq<char>,
    pub title: Seq<char>,
    pub author: Seq<char>,
    pub description: Seq<char>,
    pub icon_url: Option<Seq<char>>,
    pub downloads: u64,
    pub project_type: ModrinthProjectType,
}

impl View for ModrinthFavorite {
    type V = ModrinthFavoriteView;

    open spec fn view(&self) -> ModrinthFavoriteView {
        ModrinthFavoriteView {
            project_id: self.project_id@,
            title: self.title@,
            author: self.author@,
            description: self.description@,
            icon_url: opt_text(self.icon_url),
            downloads: self.downloads,
            project_type: self.project_type,
        }
    }
}

/// A text, or the empty text.
pub open spec fn text_or_empty(o: Option<Seq<char>>) -> Seq<char> {
    match o {
        Some(t) => t,
        None => Seq::empty(),
    }
}

/// The favorite remembered for a Modrinth hit (a missing title or description is empty).
pub open spec fn favorite_of_hit(h: HitView) -> ModrinthFavoriteView {
    ModrinthFavoriteView {
        project_id: h.project_id,
        title: text_or_empty(h.title),
        author: h.author,
        description: text_or_empty(h.description),
        icon_url: h.icon_url,
        downloads: h.downloads,
        project_type: h.project_type,
    }
}

/// A copy of an optional string, or the empty string.
fn string_or_empty(o: &Option<String>) -> (res: String)
    ensures
        res@ == text_or_empty(opt_text(*o)),
{
    match o {
        Some(s) => to_owned(s.as_str()),
        None => String::new(),
    }
}

impl ModrinthFavorite {
    /// The favorite remembered for a Modrinth hit.
    pub fn from_hit(hit: &ModrinthHit) -> (res: Self)
        ensures
            res@ == favorite_of_hit(hit@),
    {
        ModrinthFavorite {
            project_id: to_owned(hit.project_id.as_str()),
            title: string_or_empty(&hit.title),
            author: to_owned(hit.author.as_str()),
            description: string_or_empty(&hit.description),
            icon_url: copy_opt_string(&hit.icon_url),
            downloads: hit.downloads,
            project_type: hit.project_type,
        }
    }

    /// The hit a favorite stands for, to show it as a search result: its title and
    /// description, and no categories.
    pub fn to_hit(&self) -> (res: ModrinthHit)
        ensures
            res@ == (HitView {
                project_id: self.project_id@,
                project_type: self.project_type,
                title: Some(self.title@),
                description: Some(self.description@),
                author: self.author@,
                icon_url: opt_text(self.icon_url),
                downloads: self.downloads,
                display_categories: None,
            }),
    {
        ModrinthHit {
            project_id: to_owned(self.project_id.as_str()),
            project_type: self.project_type,
            title: Some(to_owned(self.title.as_str())),
            description: Some(to_owned(self.description.as_str())),
            author: to_owned(self.author.as_str()),
            icon_url: copy_opt_string(&self.icon_url),
            downloads: self.downloads,
            display_categories: None,
        }
    }
}

/// A CurseForge project the user marked as a favorite.
pub struct CurseforgeFavorite {
    pub id: u32,
    pub name: String,
    pub summary: String,
    pub thumbnail_url: Option<String>,
    pub download_count: u64,
    pub class_id: u32,
}

/// The content of a CurseForge favorite.
pub struct CurseforgeFavoriteView {
    pub id: u32,
    pub name: Seq<char>,
    pub summary: Seq<char>,
    pub thumbnail_url: Option<Seq<char>>,
    pub download_count: u64,
    pub class_id: u32,
}

impl View for CurseforgeFavorite {
    type V = CurseforgeFavoriteView;

    open spec fn view(&self) -> CurseforgeFavoriteView {
        CurseforgeFavoriteView {
            id: self.id,
            name: self.name@,
            summary: self.summary@,
            thumbnail_url: opt_text(self.thumbnail_url),
            download_count: self.download_count,
            class_id: self.class_id,
        }
    }
}

/// The thumbnail of a CurseForge hit's logo, if it has one.
pub open spec fn logo_thumbnail(logo: Option<CurseforgeModAsset>) -> Option<Seq<char>> {
    match logo {
        Some(l) => Some(l.thumbnail_url@),
        None => None,
    }
}

/// The favorite remembered for a CurseForge hit (a missing class is class 0).
pub open spec fn curseforge_favorite_of_hit(h: CurseforgeHit) -> CurseforgeFavoriteView {
    CurseforgeFavoriteView {
        id: h.id,
        name: h.name@,
        summary: h.summary@,
        thumbnail_url: logo_thumbnail(h.logo),
        download_count: h.download_count,
        class_id: match h.class_id {
            Some(c) => c,
            None => 0,
        },
    }
}

/// The identifier of Minecraft among CurseForge's games.
pub const MINECRAFT_GAME_ID: u32 = 432;

impl CurseforgeFavorite {
    /// The favorite remembered for a CurseForge hit.
    pub fn from_hit(hit: &CurseforgeHit) -> (res: Self)
        ensures
            res@ == curseforge_favorite_of_hit(*hit),
    {
        let thumbnail_url = match &hit.logo {
            Some(l) => Some(to_owned(l.thumbnail_url.as_str())),
            None => None,
        };
        CurseforgeFavorite {
            id: hit.id,
            name: to_owned(hit.name.as_str()),
            summary: to_owned(hit.summary.as_str()),
            thumbnail_url,
            download_count: hit.download_count,
            class_id: match hit.class_id {
                Some(c) => c,
                None => 0,
            },
        }
    }

    /// The hit a favorite stands for: a Minecraft project with an empty slug, its class, its
    /// thumbnail as logo, and no authors, categories or files.
    pub fn to_hit(&self) -> (res: CurseforgeHit)
        ensures
            res.id == self.id,
            res.game_id == MINECRAFT_GAME_ID,
            res.name@ == self.name@,
            res.slug@ == Seq::<char>::empty(),
            res.summary@ == self.summary@,
            res.download_count == self.download_count,
            res.class_id == Some(self.class_id),
            logo_thumbnail(res.logo) == opt_text(self.thumbnail_url),
            res.authors@.len() == 0,
            res.categories@.len() == 0,
            res.latest_files_indexes@.len() == 0,
    {
        let logo = match &self.thumbnail_url {
            Some(url) => Some(CurseforgeModAsset { thumbnail_url: to_owned(url.as_str()) }),
            None => None,
        };
        CurseforgeHit {
            id: self.id,
            game_id: MINECRAFT_GAME_ID,
            name: to_owned(self.name.as_str()),
            slug: String::new(),
            summary: to_owned(self.summary.as_str()),
            download_count: self.download_count,
            class_id: Some(self.class_id),
            logo,
            authors: Vec::new(),
            categories: Vec::new(),
            latest_files_indexes: Vec::new(),
        }
    }
}

/// How the instances page shows instances.
#[derive(Clone, Copy, PartialEq, Eq, Structural, Debug)]
pub enum InstancesViewMode {
    Cards,
    List,
}

impl InstancesViewMode {
    /// The name shown for a view mode.
    pub fn name(self) -> (res: &'static str)
        ensures
            res@ == match self {
                InstancesViewMode::Cards => "Cards"@,
                InstancesViewMode::List => "List"@,
            },
    {
        match self {
            InstancesViewMode::Cards => "Cards",
            InstancesViewMode::List => "List",
        }
    }
}

/// The tabs of an instance's page.
#[derive(Clone, Copy, PartialEq, Eq, Structural, Debug)]
pub enum InstanceSubpageType {
    Quickplay,
    Logs,
    Mods,
    ResourcePacks,
    Shaders,
    Performance,
    Settings,
}

/// The classes of CurseForge projects the launcher browses.
#[derive(Clone, Copy, PartialEq, Eq, Structural, Debug)]
pub enum CurseforgeClassId {
    Mod,
    Modpack,
    Resourcepack,
    Shader,
}

/// Where the main window was, by the bits of its coordinates and size (`f32::to_bits`).
#[derive(Clone, Copy, PartialEq, Eq, Structural, Debug)]
pub enum WindowBounds {
    Inherit,
    Windowed { x: u32, y: u32, w: u32, h: u32 },
    Maximized { x: u32, y: u32, w: u32, h: u32 },
    Fullscreen { x: u32, y: u32, w: u32, h: u32 },
}

/// The interface settings.
pub struct InterfaceConfig {
    pub active_theme: String,
    pub main_window_bounds: WindowBounds,
    /// The sidebar width, by the bits of its `f32` value.
    pub sidebar_width: u32,
    pub quick_delete_mods: bool,
    pub quick_delete_instance: bool,
    pub instance_mods_sort_key: InstanceContentSortKey,
    pub instance_mods_sort_enabled_first: bool,
    pub instance_resourcepacks_sort_key: InstanceContentSortKey,
    pub instance_resourcepacks_sort_enabled_first: bool,
    pub instance_shaders_sort_key: InstanceContentSortKey,
    pub instance_shaders_sort_enabled_first: bool,
    pub content_install_latest: bool,
    pub content_filter_version: bool,
    pub modrinth_page_project_type: ModrinthProjectType,
    pub curseforge_page_class_id: CurseforgeClassId,
    pub hide_main_window_on_launch: bool,
    pub quit_on_main_closed: bool,
    pub use_os_titlebar: bool,
    pub hide_usernames: bool,
    pub hide_skins: bool,
    pub hide_server_addresses: bool,
    pub show_snapshots_in_create_instance: bool,
    pub instances_view_mode: InstancesViewMode,
    pub instance_subpage: InstanceSubpageType,
    pub collapse_capes_in_skins_page: bool,
    pub skin_list_show_3d: bool,
    pub modrinth_favorites: Vec<ModrinthFavorite>,
    pub curseforge_favorites: Vec<CurseforgeFavorite>,
    pub modrinth_favorites_only: bool,
    pub curseforge_favorites_only: bool,
}

/// The settings of a fresh install: everything off or first, except installing the latest
/// content version and the 3D skin list, Modrinth mods and CurseForge mods in the browsers,
/// and no favorites.
pub open spec fn is_default_config(c: InterfaceConfig) -> bool {
    &&& c.active_theme@ == Seq::<char>::empty()
    &&& c.main_window_bounds == WindowBounds::Inherit
    &&& c.sidebar_width == 0
    &&& !c.quick_delete_mods && !c.quick_delete_instance
    &&& c.instance_mods_sort_key == InstanceContentSortKey::Name
    &&& c.instance_resourcepacks_sort_key == InstanceContentSortKey::Name
    &&& c.instance_shaders_sort_key == InstanceContentSortKey::Name
    &&& !c.instance_mods_sort_enabled_first && !c.instance_resourcepacks_sort_enabled_first
    &&& !c.instance_shaders_sort_enabled_first
    &&& c.content_install_latest && !c.content_filter_version
    &&& c.modrinth_page_project_type == ModrinthProjectType::Mod
    &&& c.curseforge_page_class_id == CurseforgeClassId::Mod
    &&& !c.hide_main_window_on_launch && !c.quit_on_main_closed && !c.use_os_titlebar
    &&& !c.hide_usernames && !c.hide_skins && !c.hide_server_addresses
    &&& !c.show_snapshots_in_create_instance
    &&& c.instances_view_mode == InstancesViewMode::Cards
    &&& c.instance_subpage == InstanceSubpageType::Quickplay
    &&& !c.collapse_capes_in_skins_page && c.skin_list_show_3d
    &&& c.modrinth_favorites@.len() == 0 && c.curseforge_favorites@.len() == 0
    &&& !c.modrinth_favorites_only && !c.curseforge_favorites_only
}

impl Default for InterfaceConfig {
    fn default() -> (res: Self)
        ensures
            is_default_config(res),
    {
        InterfaceConfig {
            active_theme: String::new(),
            main_window_bounds: WindowBounds::Inherit,
            sidebar_width: 0,
            quick_delete_mods: false,
            quick_delete_instance: false,
            instance_mods_sort_key: InstanceContentSortKey::Name,
            instance_mods_sort_enabled_first: false,
            instance_resourcepacks_sort_key: InstanceContentSortKey::Name,
            instance_resourcepacks_sort_enabled_first: false,
            instance_shaders_sort_key: InstanceContentSortKey::Name,
            instance_shaders_sort_enabled_first: false,
            content_install_latest: true,
            content_filter_version: false,
            modrinth_page_project_type: ModrinthProjectType::Mod,
            curseforge_page_class_id: CurseforgeClassId::Mod,
            hide_main_window_on_launch: false,
            quit_on_main_closed: false,
            use_os_titlebar: false,
            hide_usernames: false,
            hide_skins: false,
            hide_server_addresses: false,
            show_snapshots_in_create_instance: false,
            instances_view_mode: InstancesViewMode::Cards,
            instance_subpage: InstanceSubpageType::Quickplay,
            collapse_capes_in_skins_page: false,
            skin_list_show_3d: true,
            modrinth_favorites: Vec::new(),
            curseforge_favorites: Vec::new(),
            modrinth_favorites_only: false,
            curseforge_favorites_only: false,
        }
    }
}

pub open spec fn modrinth_views(v: Seq<ModrinthFavorite>) -> Seq<ModrinthFavoriteView> {
    v.map_values(|f: ModrinthFavorite| f@)
}

pub open spec fn curseforge_views(v: Seq<CurseforgeFavorite>) -> Seq<CurseforgeFavoriteView> {
    v.map_values(|f: CurseforgeFavorite| f@)
}

/// The position of the first Modrinth favorite with a project id, or the number of favorites.
pub open spec fn modrinth_position(favs: Seq<ModrinthFavoriteView>, id: Seq<char>) -> int
    decreases favs.len(),
{
    if favs.len() == 0 {
        0
    } else if favs[0].project_id == id {
        0
    } else {
        1 + modrinth_position(favs.drop_first(), id)
    }
}

/// The position of the first CurseForge favorite with a project id, or the number of favorites.
pub open spec fn curseforge_position(favs: Seq<CurseforgeFavoriteView>, id: u32) -> int
    decreases favs.len(),
{
    if favs.len() == 0 {
        0
    } else if favs[0].id == id {
        0
    } else {
        1 + curseforge_position(favs.drop_first(), id)
    }
}

/// Whether a Modrinth project is a favorite.
pub open spec fn has_modrinth_favorite(favs: Seq<ModrinthFavoriteView>, id: Seq<char>) -> bool {
    exists|i: int| 0 <= i < favs.len() && #[trigger] favs[i].project_id == id
}

/// Whether a CurseForge project is a favorite.
pub open spec fn has_curseforge_favorite(favs: Seq<CurseforgeFavoriteView>, id: u32) -> bool {
    exists|i: int| 0 <= i < favs.len() && #[trigger] favs[i].id == id
}

/// The Modrinth favorites after toggling a hit: its first entry removed if it has one, else
/// the hit added at the end.
pub open spec fn toggled_modrinth(favs: Seq<ModrinthFavoriteView>, h: HitView) -> Seq<ModrinthFavoriteView> {
    let i = modrinth_position(favs, h.project_id);
    if i < favs.len() {
        favs.remove(i)
    } else {
        favs.push(favorite_of_hit(h))
    }
}

/// The CurseForge favorites after toggling a hit: its first entry removed if it has one, else
/// the hit added at the end.
pub open spec fn toggled_curseforge(favs: Seq<CurseforgeFavoriteView>, h: CurseforgeHit) -> Seq<
    CurseforgeFavoriteView,
> {
    let i = curseforge_position(favs, h.id);
    if i < favs.len() {
        favs.remove(i)
    } else {
        favs.push(curseforge_favorite_of_hit(h))
    }
}

pub proof fn lemma_modrinth_position(favs: Seq<ModrinthFavoriteView>, id: Seq<char>)
    ensures
        0 <= modrinth_position(favs, id) <= favs.len(),
        modrinth_position(favs, id) < favs.len() ==> favs[modrinth_position(favs, id)].project_id == id,
        forall|m: int| 0 <= m < modrinth_position(favs, id) ==> #[trigger] favs[m].project_id != id,
        (modrinth_position(favs, id) < favs.len()) == has_modrinth_favorite(favs, id),
    decreases favs.len(),
{
    if favs.len() > 0 && favs[0].project_id != id {
        let t = favs.drop_first();
        lemma_modrinth_position(t, id);
        assert forall|m: int| 0 < m < favs.len() implies favs[m] == t[m - 1] by {}
        if has_modrinth_favorite(favs, id) {
            let k = choose|k: int| 0 <= k < favs.len() && #[trigger] favs[k].project_id == id;
            assert(t[k - 1].project_id == id);
        }
        if has_modrinth_favorite(t, id) {
            let k = choose|k: int| 0 <= k < t.len() && #[trigger] t[k].project_id == id;
            assert(favs[k + 1].project_id == id);
        }
    } else if favs.len() > 0 {
        assert(favs[0].project_id == id);
    }
}

pub proof fn lemma_curseforge_position(favs: Seq<CurseforgeFavoriteView>, id: u32)
    ensures
        0 <= curseforge_position(favs, id) <= favs.len(),
        curseforge_position(favs, id) < favs.len() ==> favs[curseforge_position(favs, id)].id == id,
        forall|m: int| 0 <= m < curseforge_position(favs, id) ==> #[trigger] favs[m].id != id,
        (curseforge_position(favs, id) < favs.len()) == has_curseforge_favorite(favs, id),
    decreases favs.len(),
{
    if favs.len() > 0 && favs[0].id != id {
        let t = favs.drop_first();
        lemma_curseforge_position(t, id);
        assert forall|m: int| 0 < m < favs.len() implies favs[m] == t[m - 1] by {}
        if has_curseforge_favorite(favs, id) {
            let k = choose|k: int| 0 <= k < favs.len() && #[trigger] favs[k].id == id;
            assert(t[k - 1].id == id);
        }
        if has_curseforge_favorite(t, id) {
            let k = choose|k: int| 0 <= k < t.len() && #[trigger] t[k].id == id;
            assert(favs[k + 1].id == id);
        }
    } else if favs.len() > 0 {
        assert(favs[0].id == id);
    }
}

/// Everything but the favorites is the same in two settings.
pub open spec fn same_settings(a: InterfaceConfig, b: InterfaceConfig) -> bool {
    &&& a.active_theme@ == b.active_theme@
    &&& a.main_window_bounds == b.main_window_bounds
    &&& a.sidebar_width == b.sidebar_width
    &&& a.quick_delete_mods == b.quick_delete_mods
    &&& a.quick_delete_instance == b.quick_delete_instance
    &&& a.instance_mods_sort_key == b.instance_mods_sort_key
    &&& a.instance_mods_sort_enabled_first == b.instance_mods_sort_enabled_first
    &&& a.instance_resourcepacks_sort_key == b.instance_resourcepacks_sort_key
    &&& a.instance_resourcepacks_sort_enabled_first == b.instance_resourcepacks_sort_enabled_first
    &&& a.instance_shaders_sort_key == b.instance_shaders_sort_key
    &&& a.instance_shaders_sort_enabled_first == b.instance_shaders_sort_enabled_first
    &&& a.content_install_latest == b.content_install_latest
    &&& a.content_filter_version == b.content_filter_version
    &&& a.modrinth_page_project_type == b.modrinth_page_project_type
    &&& a.curseforge_page_class_id == b.curseforge_page_class_id
    &&& a.hide_main_window_on_launch == b.hide_main_window_on_launch
    &&& a.quit_on_main_closed == b.quit_on_main_closed
    &&& a.use_os_titlebar == b.use_os_titlebar
    &&& a.hide_usernames == b.hide_usernames
    &&& a.hide_skins == b.hide_skins
    &&& a.hide_server_addresses == b.hide_server_addresses
    &&& a.show_snapshots_in_create_instance == b.show_snapshots_in_create_instance
    &&& a.instances_view_mode == b.instances_view_mode
    &&& a.instance_subpage == b.instance_subpage
    &&& a.collapse_capes_in_skins_page == b.collapse_capes_in_skins_page
    &&& a.skin_list_show_3d == b.skin_list_show_3d
    &&& a.modrinth_favorites_only == b.modrinth_favorites_only
    &&& a.curseforge_favorites_only == b.curseforge_favorites_only
}

impl InterfaceConfig {
    /// Whether a Modrinth project is a favorite.
    pub fn is_modrinth_favorite(&self, project_id: &str) -> (res: bool)
        ensures
            res == has_modrinth_favorite(modrinth_views(self.modrinth_favorites@), project_id@),
    {
        let ghost favs = modrinth_views(self.modrinth_favorites@);
        for i in 0..self.modrinth_favorites.len()
            invariant
                favs == modrinth_views(self.modrinth_favorites@),
                forall|m: int| 0 <= m < i ==> #[trigger] favs[m].project_id != project_id@,
        {
            if str_eq(self.modrinth_favorites[i].project_id.as_str(), project_id) {
                assert(favs[i as int].project_id == project_id@);
                return true;
            }
        }
        false
    }

    /// Adds a Modrinth hit to the favorites, or removes it when it is one; returns whether it
    /// was added.
    pub fn toggle_modrinth_favorite(&mut self, hit: &ModrinthHit) -> (res: bool)
        ensures
            modrinth_views(final(self).modrinth_favorites@) == toggled_modrinth(
                modrinth_views(old(self).modrinth_favorites@),
                hit@,
            ),
            res == !has_modrinth_favorite(modrinth_views(old(self).modrinth_favorites@), hit@.project_id),
            curseforge_views(final(self).curseforge_favorites@) == curseforge_views(
                old(self).curseforge_favorites@,
            ),
            same_settings(*final(self), *old(self)),
    {
        toggle_modrinth_in(&mut self.modrinth_favorites, hit)
    }

    /// Whether a CurseForge project is a favorite.
    pub fn is_curseforge_favorite(&self, mod_id: u32) -> (res: bool)
        ensures
            res == has_curseforge_favorite(curseforge_views(self.curseforge_favorites@), mod_id),
    {
        let ghost favs = curseforge_views(self.curseforge_favorites@);
        for i in 0..self.curseforge_favorites.len()
            invariant
                favs == curseforge_views(self.curseforge_favorites@),
                forall|m: int| 0 <= m < i ==> #[trigger] favs[m].id != mod_id,
        {
            if self.curseforge_favorites[i].id == mod_id {
                assert(favs[i as int].id == mod_id);
                return true;
            }
        }
        false
    }

    /// Adds a CurseForge hit to the favorites, or removes it when it is one; returns whether it
    /// was added.
    pub fn toggle_curseforge_favorite(&mut self, hit: &CurseforgeHit) -> (res: bool)
        ensures
            curseforge_views(final(self).curseforge_favorites@) == toggled_curseforge(
                curseforge_views(old(self).curseforge_favorites@),
                *hit,
            ),
            res == !has_curseforge_favorite(curseforge_views(old(self).curseforge_favorites@), hit.id),
            modrinth_views(final(self).modrinth_favorites@) == modrinth_views(old(self).modrinth_favorites@),
            same_settings(*final(self), *old(self)),
    {
        toggle_curseforge_in(&mut self.curseforge_favorites, hit)
    }
}

/// Toggles a Modrinth hit in a list of favorites.
fn toggle_modrinth_in(list: &mut Vec<ModrinthFavorite>, hit: &ModrinthHit) -> (res: bool)
    ensures
        modrinth_views(final(list)@) == toggled_modrinth(modrinth_views(old(list)@), hit@),
        res == !has_modrinth_favorite(modrinth_views(old(list)@), hit@.project_id),
{
    let ghost favs = modrinth_views(list@);
    let id = hit.project_id.as_str();
    proof {
        lemma_modrinth_position(favs, id@);
    }
    let mut i: usize = 0;
    while i < list.len() && !str_eq(list[i].project_id.as_str(), id)
        invariant
            favs == modrinth_views(list@),
            i <= favs.len(),
            forall|m: int| 0 <= m < i ==> #[trigger] favs[m].project_id != id@,
        decreases favs.len() - i,
    {
        i = i + 1;
    }
    proof {
        let p = modrinth_position(favs, id@);
        if p < i {
            assert(favs[p].project_id != id@);
        }
        if i < p {
            assert(favs[i as int].project_id == id@);
        }
    }
    if i < list.len() {
        let ghost before = list@;
        list.remove(i);
        assert(modrinth_views(list@) =~= modrinth_views(before).remove(i as int));
        false
    } else {
        let ghost before = list@;
        let f = ModrinthFavorite::from_hit(hit);
        list.push(f);
        assert(modrinth_views(list@) =~= modrinth_views(before).push(f@));
        true
    }
}

/// Toggles a CurseForge hit in a list of favorites.
fn toggle_curseforge_in(list: &mut Vec<CurseforgeFavorite>, hit: &CurseforgeHit) -> (res: bool)
    ensures
        curseforge_views(final(list)@) == toggled_curseforge(curseforge_views(old(list)@), *hit),
        res == !has_curseforge_favorite(curseforge_views(old(list)@), hit.id),
{
    let ghost favs = curseforge_views(list@);
    proof {
        lemma_curseforge_position(favs, hit.id);
    }
    let mut i: usize = 0;
    while i < list.len() && list[i].id != hit.id
        invariant
            favs == curseforge_views(list@),
            i <= favs.len(),
            forall|m: int| 0 <= m < i ==> #[trigger] favs[m].id != hit.id,
        decreases favs.len() - i,
    {
        i = i + 1;
    }
    proof {
        let p = curseforge_position(favs, hit.id);
        if p < i {
            assert(favs[p].id != hit.id);
        }
        if i < p {
            assert(favs[i as int].id == hit.id);
        }
    }
    if i < list.len() {
        let ghost before = list@;
        list.remove(i);
        assert(curseforge_views(list@) =~= curseforge_views(before).remove(i as int));
        false
    } else {
        let ghost before = list@;
        let f = CurseforgeFavorite::from_hit(hit);
        list.push(f);
        assert(curseforge_views(list@) =~= curseforge_views(before).push(f@));
        true
    }
}

/// No two Modrinth favorites share a project id.
pub open spec fn modrinth_ids_distinct(favs: Seq<ModrinthFavoriteView>) -> bool {
    forall|i: int, j: int|
        0 <= i < j < favs.len() ==> #[trigger] favs[i].project_id != #[trigger] favs[j].project_id
}

/// No two CurseForge favorites share a project id.
pub open spec fn curseforge_ids_distinct(favs: Seq<CurseforgeFavoriteView>) -> bool {
    forall|i: int, j: int| 0 <= i < j < favs.len() ==> #[trigger] favs[i].id != #[trigger] favs[j].id
}

/// Toggling a Modrinth hit makes its project a favorite exactly when it was not one, leaves
/// every other project as it was, and keeps favorites free of repeated projects.
pub proof fn law_toggle_modrinth(favs: Seq<ModrinthFavoriteView>, h: HitView, other: Seq<char>)
    requires
        modrinth_ids_distinct(favs),
    ensures
        has_modrinth_favorite(toggled_modrinth(favs, h), h.project_id) == !has_modrinth_favorite(
            favs,
            h.project_id,
        ),
        other != h.project_id ==> has_modrinth_favorite(toggled_modrinth(favs, h), other)
            == has_modrinth_favorite(favs, other),
        modrinth_ids_distinct(toggled_modrinth(favs, h)),
{
    lemma_modrinth_position(favs, h.project_id);
    let p = modrinth_position(favs, h.project_id);
    let t = toggled_modrinth(favs, h);
    if p < favs.len() {
        assert forall|i: int| 0 <= i < t.len() implies #[trigger] t[i].project_id != h.project_id by {
            if i < p {
                assert(t[i] == favs[i]);
            } else {
                assert(t[i] == favs[i + 1]);
                assert(favs[p].project_id != favs[i + 1].project_id);
            }
        }
        if other != h.project_id {
            if has_modrinth_favorite(favs, other) {
                let k = choose|k: int| 0 <= k < favs.len() && #[trigger] favs[k].project_id == other;
                if k < p {
                    assert(t[k] == favs[k]);
                } else {
                    assert(k != p);
                    assert(t[k - 1] == favs[k]);
                }
            }
            if has_modrinth_favorite(t, other) {
                let k = choose|k: int| 0 <= k < t.len() && #[trigger] t[k].project_id == other;
                if k < p {
                    assert(t[k] == favs[k]);
                } else {
                    assert(t[k] == favs[k + 1]);
                }
            }
        }
        assert forall|i: int, j: int| 0 <= i < j < t.len() implies #[trigger] t[i].project_id
            != #[trigger] t[j].project_id by {
            let a = if i < p { i } else { i + 1 };
            let b = if j < p { j } else { j + 1 };
            assert(t[i] == favs[a] && t[j] == favs[b]);
            assert(favs[a].project_id != favs[b].project_id);
        }
    } else {
        assert(t[favs.len() as int].project_id == h.project_id);
        if other != h.project_id {
            if has_modrinth_favorite(favs, other) {
                let k = choose|k: int| 0 <= k < favs.len() && #[trigger] favs[k].project_id == other;
                assert(t[k] == favs[k]);
            }
            if has_modrinth_favorite(t, other) {
                let k = choose|k: int| 0 <= k < t.len() && #[trigger] t[k].project_id == other;
                assert(k < favs.len());
                assert(t[k] == favs[k]);
            }
        }
        assert forall|i: int, j: int| 0 <= i < j < t.len() implies #[trigger] t[i].project_id
            != #[trigger] t[j].project_id by {
            assert(t[i] == favs[i]);
            if j < favs.len() {
                assert(t[j] == favs[j]);
            } else {
                assert(favs[i].project_id != h.project_id);
            }
        }
    }
}

/// Toggling a Modrinth hit twice gives back the same favorites when it was not a favorite,
/// and the same set of favorite projects when it was.
pub proof fn law_toggle_modrinth_twice(favs: Seq<ModrinthFavoriteView>, h: HitView, id: Seq<char>)
    requires
        modrinth_ids_distinct(favs),
    ensures
        !has_modrinth_favorite(favs, h.project_id) ==> toggled_modrinth(toggled_modrinth(favs, h), h) == favs,
        has_modrinth_favorite(toggled_modrinth(toggled_modrinth(favs, h), h), id) == has_modrinth_favorite(
            favs,
            id,
        ),
{
    let t = toggled_modrinth(favs, h);
    law_toggle_modrinth(favs, h, id);
    law_toggle_modrinth(t, h, id);
    lemma_modrinth_position(favs, h.project_id);
    if !has_modrinth_favorite(favs, h.project_id) {
        lemma_modrinth_position(t, h.project_id);
        let q = modrinth_position(t, h.project_id);
        assert forall|m: int| 0 <= m < favs.len() implies #[trigger] t[m].project_id != h.project_id by {
            assert(t[m] == favs[m]);
        }
        if q < favs.len() {
            assert(t[q].project_id != h.project_id);
        }
        assert(q == favs.len());
        assert(toggled_modrinth(t, h) =~= favs);
    }
}

/// Toggling a CurseForge hit makes its project a favorite exactly when it was not one, leaves
/// every other project as it was, and keeps favorites free of repeated projects.
pub proof fn law_toggle_curseforge(favs: Seq<CurseforgeFavoriteView>, h: CurseforgeHit, other: u32)
    requires
        curseforge_ids_distinct(favs),
    ensures
        has_curseforge_favorite(toggled_curseforge(favs, h), h.id) == !has_curseforge_favorite(favs, h.id),
        other != h.id ==> has_curseforge_favorite(toggled_curseforge(favs, h), other) == has_curseforge_favorite(
            favs,
            other,
        ),
        curseforge_ids_distinct(toggled_curseforge(favs, h)),
{
    lemma_curseforge_position(favs, h.id);
    let p = curseforge_position(favs, h.id);
    let t = toggled_curseforge(favs, h);
    if p < favs.len() {
        assert forall|i: int| 0 <= i < t.len() implies #[trigger] t[i].id != h.id by {
            if i < p {
                assert(t[i] == favs[i]);
            } else {
                assert(t[i] == favs[i + 1]);
                assert(favs[p].id != favs[i + 1].id);
            }
        }
        if other != h.id {
            if has_curseforge_favorite(favs, other) {
                let k = choose|k: int| 0 <= k < favs.len() && #[trigger] favs[k].id == other;
                if k < p {
                    assert(t[k] == favs[k]);
                } else {
                    assert(k != p);
                    assert(t[k - 1] == favs[k]);
                }
            }
            if has_curseforge_favorite(t, other) {
                let k = choose|k: int| 0 <= k < t.len() && #[trigger] t[k].id == other;
                if k < p {
                    assert(t[k] == favs[k]);
                } else {
                    assert(t[k] == favs[k + 1]);
                }
            }
        }
        assert forall|i: int, j: int| 0 <= i < j < t.len() implies #[trigger] t[i].id != #[trigger] t[j].id by {
            let a = if i < p { i } else { i + 1 };
            let b = if j < p { j } else { j + 1 };
            assert(t[i] == favs[a] && t[j] == favs[b]);
            assert(favs[a].id != favs[b].id);
        }
    } else {
        assert(t[favs.len() as int].id == h.id);
        if other != h.id {
            if has_curseforge_favorite(favs, other) {
                let k = choose|k: int| 0 <= k < favs.len() && #[trigger] favs[k].id == other;
                assert(t[k] == favs[k]);
            }
            if has_curseforge_favorite(t, other) {
                let k = choose|k: int| 0 <= k < t.len() && #[trigger] t[k].id == other;
                assert(k < favs.len());
                assert(t[k] == favs[k]);
            }
        }
        assert forall|i: int, j: int| 0 <= i < j < t.len() implies #[trigger] t[i].id != #[trigger] t[j].id by {
            assert(t[i] == favs[i]);
            if j < favs.len() {
                assert(t[j] == favs[j]);
            } else {
                assert(favs[i].id != h.id);
            }
        }
    }
}

/// Toggling a CurseForge hit twice gives back the same favorites when it was not a favorite,
/// and the same set of favorite projects when it was.
pub proof fn law_toggle_curseforge_twice(favs: Seq<CurseforgeFavoriteView>, h: CurseforgeHit, id: u32)
    requires
        curseforge_ids_distinct(favs),
    ensures
        !has_curseforge_favorite(favs, h.id) ==> toggled_curseforge(toggled_curseforge(favs, h), h) == favs,
        has_curseforge_favorite(toggled_curseforge(toggled_curseforge(favs, h), h), id) == has_curseforge_favorite(
            favs,
            id,
        ),
{
    let t = toggled_curseforge(favs, h);
    law_toggle_curseforge(favs, h, id);
    law_toggle_curseforge(t, h, id);
    lemma_curseforge_position(favs, h.id);
    if !has_curseforge_favorite(favs, h.id) {
        lemma_curseforge_position(t, h.id);
        let q = curseforge_position(t, h.id);
        assert forall|m: int| 0 <= m < favs.len() implies #[trigger] t[m].id != h.id by {
            assert(t[m] == favs[m]);
        }
        if q < favs.len() {
            assert(t[q].id != h.id);
        }
        assert(q == favs.len());
        assert(toggled_curseforge(t, h) =~= favs);
    }
}

/// Saving the settings after a change: the first change schedules a write a few seconds
/// later, and changes until that write are saved by it.
pub struct SaveSchedule {
    pub write_pending: bool,
}

impl SaveSchedule {
    /// Nothing to write.
    pub fn new() -> (res: Self)
        ensures
            !res.write_pending,
    {
        SaveSchedule { write_pending: false }
    }

    /// The settings are about to change: returns whether a write must be scheduled (none is
    /// pending yet); afterwards one is pending.
    pub fn changed(&mut self) -> (res: bool)
        ensures
            res == !old(self).write_pending,
            final(self).write_pending,
    {
        if self.write_pending {
            false
        } else {
            self.write_pending = true;
            true
        }
    }

    /// The settings were written: nothing is pending.
    pub fn written(&mut self)
        ensures
            !final(self).write_pending,
    {
        self.write_pending = false;
    }
}

} // verus!
