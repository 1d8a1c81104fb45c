//! The decisions of an instance's content page: which folder and sort orders each page uses,
//! how changing the sort order updates the settings, and when recommendations are requested and
//! which answers are kept.
use vstd::prelude::*;

use crate::config::{CurseforgeClassId, InterfaceConfig};
use crate::model::{ContentFolder, ModrinthProjectType};
use crate::recommendations::RecommendedContentKind;
use crate::sort_key::InstanceContentSortKey;

verus! {

/// The content pages of an instance.
#[derive(Clone, Copy, PartialEq, Eq, Structural, Debug)]
pub enum ContentType {
    Mods,
    ResourcePacks,
    Shaders,
}

/// The number of a content page, as used in element ids.
pub open spec fn content_type_number(t: ContentType) -> u8 {
    match t {
        ContentType::Mods => 0,
        ContentType::ResourcePacks => 1,
        ContentType::Shaders => 2,
    }
}

impl From<ContentType> for u8 {
    fn from(value: ContentType) -> (res: u8) {
        match value {
            ContentType::Mods => 0,
            ContentType::ResourcePacks => 1,
            ContentType::Shaders => 2,
        }
    }
}

impl vstd::std_specs::convert::FromSpecImpl<ContentType> for u8 {
    open spec fn obeys_from_spec() -> bool {
        true
    }

    open spec fn from_spec(value: ContentType) -> u8 {
        content_type_number(value)
    }
}

/// The sort orders a page offers, the first being its fallback.
pub open spec fn spec_valid_sort_modes(t: ContentType) -> Seq<InstanceContentSortKey> {
    match t {
        ContentType::Mods => seq![
            InstanceContentSortKey::Name,
            InstanceContentSortKey::ModId,
            InstanceContentSortKey::Filename,
            InstanceContentSortKey::ModifiedTime,
            InstanceContentSortKey::FileSize,
        ],
        _ => seq![
            InstanceContentSortKey::Filename,
            InstanceContentSortKey::ModifiedTime,
            InstanceContentSortKey::FileSize,
        ],
    }
}

/// The sort order a page's settings name.
pub open spec fn spec_sort_key(t: ContentType, c: InterfaceConfig) -> InstanceContentSortKey {
    match t {
        ContentType::Mods => c.instance_mods_sort_key,
        ContentType::ResourcePacks => c.instance_resourcepacks_sort_key,
        ContentType::Shaders => c.instance_shaders_sort_key,
    }
}

/// Whether a page's settings put enabled content first.
pub open spec fn spec_sort_enabled_first(t: ContentType, c: InterfaceConfig) -> bool {
    match t {
        ContentType::Mods => c.instance_mods_sort_enabled_first,
        ContentType::ResourcePacks => c.instance_resourcepacks_sort_enabled_first,
        ContentType::Shaders => c.instance_shaders_sort_enabled_first,
    }
}

/// Everything but the sort settings of every page is the same, and the other pages' sort
/// settings too.
pub open spec fn same_except_page_sort(t: ContentType, a: InterfaceConfig, b: InterfaceConfig) -> bool {
    &&& a.active_theme == b.active_theme
    &&& a.main_window_bounds == b.main_window_bounds
    &&& a.sidebar_width == b.sidebar_width
    &&& a.quick_delete_mods == b.quick_delete_mods
    &&& a.quick_delete_instance == b.quick_delete_instance
    &&& a.content_install_latest == b.content_install_latest
    &&& a.content_filter_version == b.content_filter_version
    &&& a.modrinth_page_project_type == b.modrinth_page_project_type
    &&& a.curseforge_page_class_id == b.curseforge_page_class_id
    &&& a.hide_main_window_on_launch == b.hide_main_window_on_launch
    &&& a.quit_on_main_closed == b.quit_on_main_closed
    &&& a.use_os_titlebar == b.use_os_titlebar
    &&& a.hide_usernames == b.hide_usernames
    &&& a.hide_skins == b.hide_skins
    &&& a.hide_server_addresses == b.hide_server_addresses
    &&& a.show_snapshots_in_create_instance == b.show_snapshots_in_create_instance
    &&& a.instances_view_mode == b.instances_view_mode
    &&& a.instance_subpage == b.instance_subpage
    &&& a.collapse_capes_in_skins_page == b.collapse_capes_in_skins_page
    &&& a.skin_list_show_3d == b.skin_list_show_3d
    &&& a.modrinth_favorites_only == b.modrinth_favorites_only
    &&& a.curseforge_favorites_only == b.curseforge_favorites_only
    &&& a.modrinth_favorites == b.modrinth_favorites
    &&& a.curseforge_favorites == b.curseforge_favorites
    &&& (t != ContentType::Mods ==> a.instance_mods_sort_key == b.instance_mods_sort_key
        && a.instance_mods_sort_enabled_first == b.instance_mods_sort_enabled_first)
    &&& (t != ContentType::ResourcePacks ==> a.instance_resourcepacks_sort_key
        == b.instance_resourcepacks_sort_key && a.instance_resourcepacks_sort_enabled_first
        == b.instance_resourcepacks_sort_enabled_first)
    &&& (t != ContentType::Shaders ==> a.instance_shaders_sort_key == b.instance_shaders_sort_key
        && a.instance_shaders_sort_enabled_first == b.instance_shaders_sort_enabled_first)
}

impl ContentType {
    /// The instance folder a page shows.
    pub fn content_folder(self) -> (res: ContentFolder)
        ensures
            res == match self {
                ContentType::Mods => ContentFolder::Mods,
                ContentType::ResourcePacks => ContentFolder::ResourcePacks,
                ContentType::Shaders => ContentFolder::Shaders,
            },
    {
        match self {
            ContentType::Mods => ContentFolder::Mods,
            ContentType::ResourcePacks => ContentFolder::ResourcePacks,
            ContentType::Shaders => ContentFolder::Shaders,
        }
    }

    /// The kind of content a page recommends.
    pub fn recommended_kind(self) -> (res: RecommendedContentKind)
        ensures
            res == match self {
                ContentType::Mods => RecommendedContentKind::Mod,
                ContentType::ResourcePacks => RecommendedContentKind::ResourcePack,
                ContentType::Shaders => RecommendedContentKind::Shader,
            },
    {
        match self {
            ContentType::Mods => RecommendedContentKind::Mod,
            ContentType::ResourcePacks => RecommendedContentKind::ResourcePack,
            ContentType::Shaders => RecommendedContentKind::Shader,
        }
    }

    /// The Modrinth project type the page's "install from Modrinth" opens.
    pub fn modrinth_project_type(self) -> (res: ModrinthProjectType)
        ensures
            res == match self {
                ContentType::Mods => ModrinthProjectType::Mod,
                ContentType::ResourcePacks => ModrinthProjectType::Resourcepack,
                ContentType::Shaders => ModrinthProjectType::Shader,
            },
    {
        match self {
            ContentType::Mods => ModrinthProjectType::Mod,
            ContentType::ResourcePacks => ModrinthProjectType::Resourcepack,
            ContentType::Shaders => ModrinthProjectType::Shader,
        }
    }

    /// The CurseForge class the page's "install from CurseForge" opens.
    pub fn curseforge_class_id(self) -> (res: CurseforgeClassId)
        ensures
            res == match self {
                ContentType::Mods => CurseforgeClassId::Mod,
                ContentType::ResourcePacks => CurseforgeClassId::Resourcepack,
                ContentType::Shaders => CurseforgeClassId::Shader,
            },
    {
        match self {
            ContentType::Mods => CurseforgeClassId::Mod,
            ContentType::ResourcePacks => CurseforgeClassId::Resourcepack,
            ContentType::Shaders => CurseforgeClassId::Shader,
        }
    }

    /// The sort orders a page offers: all five for mods, the file-based ones for packs.
    pub fn valid_sort_modes(self) -> (res: Vec<InstanceContentSortKey>)
        ensures
            res@ == spec_valid_sort_modes(self),
    {
        let mut v: Vec<InstanceContentSortKey> = Vec::new();
        match self {
            ContentType::Mods => {
                v.push(InstanceContentSortKey::Name);
                v.push(InstanceContentSortKey::ModId);
            },
            _ => {},
        }
        v.push(InstanceContentSortKey::Filename);
        v.push(InstanceContentSortKey::ModifiedTime);
        v.push(InstanceContentSortKey::FileSize);
        assert(v@ =~= spec_valid_sort_modes(self));
        v
    }

    /// The sort order a page's settings name.
    pub fn sort_key(self, config: &InterfaceConfig) -> (res: InstanceContentSortKey)
        ensures
            res == spec_sort_key(self, *config),
    {
        match self {
            ContentType::Mods => config.instance_mods_sort_key,
            ContentType::ResourcePacks => config.instance_resourcepacks_sort_key,
            ContentType::Shaders => config.instance_shaders_sort_key,
        }
    }

    /// Whether a page's settings put enabled content first.
    pub fn sort_enabled_first(self, config: &InterfaceConfig) -> (res: bool)
        ensures
            res == spec_sort_enabled_first(self, *config),
    {
        match self {
            ContentType::Mods => config.instance_mods_sort_enabled_first,
            ContentType::ResourcePacks => config.instance_resourcepacks_sort_enabled_first,
            ContentType::Shaders => config.instance_shaders_sort_enabled_first,
        }
    }

    /// Sets the sort order of a page in the settings.
    pub fn set_sort_key(self, config: &mut InterfaceConfig, value: InstanceContentSortKey)
        ensures
            spec_sort_key(self, *final(config)) == value,
            spec_sort_enabled_first(self, *final(config)) == spec_sort_enabled_first(self, *old(config)),
            same_except_page_sort(self, *final(config), *old(config)),
    {
        if self == ContentType::Mods {
            set_mods_sort_key(config, value);
        } else if self == ContentType::ResourcePacks {
            set_resourcepacks_sort_key(config, value);
        } else {
            set_shaders_sort_key(config, value);
        }
    }

    /// Sets whether a page puts enabled content first in the settings.
    pub fn set_sort_enabled_first(self, config: &mut InterfaceConfig, value: bool)
        ensures
            spec_sort_enabled_first(self, *final(config)) == value,
            spec_sort_key(self, *final(config)) == spec_sort_key(self, *old(config)),
            same_except_page_sort(self, *final(config), *old(config)),
    {
        if self == ContentType::Mods {
            set_mods_enabled_first(config, value);
        } else if self == ContentType::ResourcePacks {
            set_resourcepacks_enabled_first(config, value);
        } else {
            set_shaders_enabled_first(config, value);
        }
    }

    /// The sort order a page opens with: the one its settings name when the page offers it,
    /// else the page's first order.
    pub fn effective_sort_key(self, config: &InterfaceConfig) -> (res: InstanceContentSortKey)
        ensures
            res == if spec_valid_sort_modes(self).contains(spec_sort_key(self, *config)) {
                spec_sort_key(self, *config)
            } else {
                spec_valid_sort_modes(self)[0]
            },
    {
        let key = self.sort_key(config);
        let modes = self.valid_sort_modes();
        let mut i: usize = 0;
        while i < modes.len()
            invariant
                modes@ == spec_valid_sort_modes(self),
                key == spec_sort_key(self, *config),
                i <= modes.len(),
                forall|m: int| 0 <= m < i ==> modes@[m] != key,
            decreases modes.len() - i,
        {
            if modes[i] == key {
                assert(modes@[i as int] == key);
                assert(spec_valid_sort_modes(self).contains(key));
                return key;
            }
            i = i + 1;
        }
        modes[0]
    }

    /// Chooses a page's sort order in the settings; returns whether it changed (choosing the
    /// current order changes nothing).
    pub fn choose_sort_key(self, config: &mut InterfaceConfig, value: InstanceContentSortKey) -> (res: bool)
        ensures
            res == (spec_sort_key(self, *old(config)) != value),
            spec_sort_key(self, *final(config)) == value,
            spec_sort_enabled_first(self, *final(config)) == spec_sort_enabled_first(self, *old(config)),
            same_except_page_sort(self, *final(config), *old(config)),
    {
        if self.sort_key(config) == value {
            return false;
        }
        self.set_sort_key(config, value);
        true
    }

    /// Chooses whether a page puts enabled content first; returns whether it changed.
    pub fn choose_sort_enabled_first(self, config: &mut InterfaceConfig, value: bool) -> (res: bool)
        ensures
            res == (spec_sort_enabled_first(self, *old(config)) != value),
            spec_sort_enabled_first(self, *final(config)) == value,
            spec_sort_key(self, *final(config)) == spec_sort_key(self, *old(config)),
            same_except_page_sort(self, *final(config), *old(config)),
    {
        if self.sort_enabled_first(config) == value {
            return false;
        }
        self.set_sort_enabled_first(config, value);
        true
    }
}

/// The row of a sort order in a list of orders, the first row when it is not there.
pub fn sort_mode_row(modes: &Vec<InstanceContentSortKey>, key: InstanceContentSortKey) -> (res: usize)
    ensures
        modes@.contains(key) ==> res < modes@.len() && modes@[res as int] == key && forall|m: int|
            0 <= m < res ==> modes@[m] != key,
        !modes@.contains(key) ==> res == 0,
{
    let mut i: usize = 0;
    while i < modes.len()
        invariant
            i <= modes.len(),
            forall|m: int| 0 <= m < i ==> modes@[m] != key,
        decreases modes.len() - i,
    {
        if modes[i] == key {
            return i;
        }
        i = i + 1;
    }
    0
}

fn set_mods_sort_key(config: &mut InterfaceConfig, value: InstanceContentSortKey)
    ensures
        spec_sort_key(ContentType::Mods, *final(config)) == value,
        spec_sort_enabled_first(ContentType::Mods, *final(config)) == spec_sort_enabled_first(ContentType::Mods, *old(config)),
        same_except_page_sort(ContentType::Mods, *final(config), *old(config)),
{
    config.instance_mods_sort_key = value;
}

fn set_resourcepacks_sort_key(config: &mut InterfaceConfig, value: InstanceContentSortKey)
    ensures
        spec_sort_key(ContentType::ResourcePacks, *final(config)) == value,
        spec_sort_enabled_first(ContentType::ResourcePacks, *final(config)) == spec_sort_enabled_first(ContentType::ResourcePacks, *old(config)),
        same_except_page_sort(ContentType::ResourcePacks, *final(config), *old(config)),
{
    config.instance_resourcepacks_sort_key = value;
}

fn set_shaders_sort_key(config: &mut InterfaceConfig, value: InstanceContentSortKey)
    ensures
        spec_sort_key(ContentType::Shaders, *final(config)) == value,
        spec_sort_enabled_first(ContentType::Shaders, *final(config)) == spec_sort_enabled_first(ContentType::Shaders, *old(config)),
        same_except_page_sort(ContentType::Shaders, *final(config), *old(config)),
{
    config.instance_shaders_sort_key = value;
}

fn set_mods_enabled_first(config: &mut InterfaceConfig, value: bool)
    ensures
        spec_sort_enabled_first(ContentType::Mods, *final(config)) == value,
        spec_sort_key(ContentType::Mods, *final(config)) == spec_sort_key(ContentType::Mods, *old(config)),
        same_except_page_sort(ContentType::Mods, *final(config), *old(config)),
{
    config.instance_mods_sort_enabled_first = value;
}

fn set_resourcepacks_enabled_first(config: &mut InterfaceConfig, value: bool)
    ensures
        spec_sort_enabled_first(ContentType::ResourcePacks, *final(config)) == value,
        spec_sort_key(ContentType::ResourcePacks, *final(config)) == spec_sort_key(ContentType::ResourcePacks, *old(config)),
        same_except_page_sort(ContentType::ResourcePacks, *final(config), *old(config)),
{
    config.instance_resourcepacks_sort_enabled_first = value;
}

fn set_shaders_enabled_first(config: &mut InterfaceConfig, value: bool)
    ensures
        spec_sort_enabled_first(ContentType::Shaders, *final(config)) == value,
        spec_sort_key(ContentType::Shaders, *final(config)) == spec_sort_key(ContentType::Shaders, *old(config)),
        same_except_page_sort(ContentType::Shaders, *final(config), *old(config)),
{
    config.instance_shaders_sort_enabled_first = value;
}

} // verus!
