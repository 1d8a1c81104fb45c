//! The launcher's data as the logic reads it: loaders, installed content, and search hits.
use vstd::prelude::*;

verus! {

/// A mod loader an instance runs.
#[derive(Clone, Copy, PartialEq, Eq, Structural, Debug)]
pub enum Loader {
    Vanilla,
    Fabric,
    Forge,
    NeoForge,
}

/// The name shown for a loader.
pub open spec fn spec_pretty_name(l: Loader) -> Seq<char> {
    match l {
        Loader::Vanilla => "Vanilla"@,
        Loader::Fabric => "Fabric"@,
        Loader::Forge => "Forge"@,
        Loader::NeoForge => "NeoForge"@,
    }
}

/// The loader's identifier in Modrinth's `categories` facet.
pub open spec fn spec_modrinth_loader_id(l: Loader) -> Seq<char> {
    match l {
        Loader::Vanilla => "minecraft"@,
        Loader::Fabric => "fabric"@,
        Loader::Forge => "forge"@,
        Loader::NeoForge => "neoforge"@,
    }
}

impl Loader {
    /// The name shown for a loader.
    pub fn pretty_name(self) -> (res: &'static str)
        ensures
            res@ == spec_pretty_name(self),
    {
        match self {
            Loader::Vanilla => "Vanilla",
            Loader::Fabric => "Fabric",
            Loader::Forge => "Forge",
            Loader::NeoForge => "NeoForge",
        }
    }

    /// The loader's identifier in Modrinth's `categories` facet.
    pub fn modrinth_loader_id(self) -> (res: &'static str)
        ensures
            res@ == spec_modrinth_loader_id(self),
    {
        match self {
            Loader::Vanilla => "minecraft",
            Loader::Fabric => "fabric",
            Loader::Forge => "forge",
            Loader::NeoForge => "neoforge",
        }
    }
}

/// The folders of an instance that hold content.
#[derive(Clone, Copy, PartialEq, Eq, Structural, Debug)]
pub enum ContentFolder {
    Mods,
    ResourcePacks,
    Shaders,
}

/// What a piece of installed content is.
pub enum ContentKind {
    Unknown,
    ResourcePack,
    ShaderPack,
    /// A Modrinth modpack: its `dependencies` (name to version) and the paths of its files.
    ModrinthModpack { dependencies: Vec<(String, String)>, files: Vec<String> },
    /// A CurseForge modpack: the loader and Minecraft version its manifest names, and the
    /// paths of its files.
    CurseforgeModpack { loader: Option<Loader>, minecraft_version: Option<String>, files: Vec<String> },
    Fabric,
    JavaModule,
    Forge,
    LegacyForge,
    NeoForge,
}

impl ContentKind {
    /// The file paths of a modpack; `None` for anything else.
    pub fn modpack_files(&self) -> (res: Option<&Vec<String>>)
        ensures
            match self {
                ContentKind::ModrinthModpack { files, .. } => res == Some(files),
                ContentKind::CurseforgeModpack { files, .. } => res == Some(files),
                _ => res is None,
            },
    {
        match self {
            ContentKind::ModrinthModpack { files, .. } => Some(files),
            ContentKind::CurseforgeModpack { files, .. } => Some(files),
            _ => None,
        }
    }
}

/// Where installed content came from.
#[allow(inconsistent_fields)]
pub enum ContentSource {
    Manual,
    ModrinthProject { project_id: String },
    CurseforgeProject { project_id: u32 },
}

/// What is known of a content file's contents.
pub struct ContentSummary {
    pub id: Option<String>,
    pub name: Option<String>,
    pub hash: [u8; 20],
    pub filesize: Option<u64>,
    pub mixin_targets: Vec<String>,
    pub extra: ContentKind,
    /// Whether this is the shared placeholder summary for files that could not be read.
    pub is_unknown: bool,
}

/// A content file installed in an instance.
pub struct InstanceContentSummary {
    pub content_summary: ContentSummary,
    pub filename: String,
    pub filename_hash: u64,
    pub modified_unix_ms: i64,
    pub enabled: bool,
    pub content_source: ContentSource,
}

/// The kinds of Modrinth projects.
#[derive(Clone, Copy, PartialEq, Eq, Structural, Debug)]
pub enum ModrinthProjectType {
    Mod,
    Modpack,
    Resourcepack,
    Shader,
}

/// The name of a project type in Modrinth's API.
pub open spec fn spec_project_type_str(t: ModrinthProjectType) -> Seq<char> {
    match t {
        ModrinthProjectType::Mod => "mod"@,
        ModrinthProjectType::Modpack => "modpack"@,
        ModrinthProjectType::Resourcepack => "resourcepack"@,
        ModrinthProjectType::Shader => "shader"@,
    }
}

impl ModrinthProjectType {
    /// The name of a project type in Modrinth's API.
    pub fn as_str(self) -> (res: &'static str)
        ensures
            res@ == spec_project_type_str(self),
    {
        match self {
            ModrinthProjectType::Mod => "mod",
            ModrinthProjectType::Modpack => "modpack",
            ModrinthProjectType::Resourcepack => "resourcepack",
            ModrinthProjectType::Shader => "shader",
        }
    }
}

/// The orders Modrinth can sort search results in.
#[derive(Clone, Copy, PartialEq, Eq, Structural, Debug)]
pub enum ModrinthSearchIndex {
    Relevance,
    Downloads,
    Follows,
    Newest,
    Updated,
}

/// A search against Modrinth's project index.
pub struct ModrinthSearchRequest {
    pub query: Option<String>,
    pub facets: Option<String>,
    pub index: ModrinthSearchIndex,
    pub offset: usize,
    pub limit: usize,
}

/// The text of an optional string.
pub open spec fn opt_text(o: Option<String>) -> Option<Seq<char>> {
    match o {
        Some(s) => Some(s@),
        None => None,
    }
}

/// The texts of an optional list of strings.
pub open spec fn opt_texts(o: Option<Vec<String>>) -> Option<Seq<Seq<char>>> {
    match o {
        Some(v) => Some(v@.map_values(|s: String| s@)),
        None => None,
    }
}

/// A project in Modrinth search results.
pub struct ModrinthHit {
    pub project_id: String,
    pub project_type: ModrinthProjectType,
    pub title: Option<String>,
    pub description: Option<String>,
    pub author: String,
    pub icon_url: Option<String>,
    pub downloads: u64,
    pub display_categories: Option<Vec<String>>,
}

/// The content of a Modrinth search hit.
pub struct HitView {
    pub project_id: Seq<char>,
    pub project_type: ModrinthProjectType,
    pub title: Option<Seq<char>>,
    pub description: Option<Seq<char>>,
    pub author: Seq<char>,
    pub icon_url: Option<Seq<char>>,
    pub downloads: u64,
    pub display_categories: Option<Seq<Seq<char>>>,
}

impl View for ModrinthHit {
    type V = HitView;

    open spec fn view(&self) -> HitView {
        HitView {
            project_id: self.project_id@,
            project_type: self.project_type,
            title: opt_text(self.title),
            description: opt_text(self.description),
            author: self.author@,
            icon_url: opt_text(self.icon_url),
            downloads: self.downloads,
            display_categories: opt_texts(self.display_categories),
        }
    }
}

/// A copy of an optional string.
pub fn copy_opt_string(o: &Option<String>) -> (res: Option<String>)
    ensures
        opt_text(res) == opt_text(*o),
{
    match o {
        Some(s) => Some(crate::text::to_owned(s.as_str())),
        None => None,
    }
}

/// A copy of a list of strings.
pub fn copy_strings(v: &Vec<String>) -> (res: Vec<String>)
    ensures
        res@.map_values(|s: String| s@) == v@.map_values(|s: String| s@),
{
    let mut res: Vec<String> = Vec::new();
    for i in 0..v.len()
        invariant
            res@.map_values(|s: String| s@) == v@.take(i as int).map_values(|s: String| s@),
    {
        let ghost before = res@;
        let c = crate::text::to_owned(v[i].as_str());
        res.push(c);
        assert(res@.map_values(|s: String| s@) =~= before.map_values(|s: String| s@).push(c@));
        assert(v@.take(i + 1).map_values(|s: String| s@) =~= v@.take(i as int).map_values(|s: String| s@).push(
            v@[i as int]@,
        ));
    }
    assert(v@.take(v@.len() as int) =~= v@);
    res
}

impl ModrinthHit {
    /// A copy of the hit.
    pub fn duplicate(&self) -> (res: ModrinthHit)
        ensures
            res@ == self@,
    {
        let display_categories = match &self.display_categories {
            Some(v) => Some(copy_strings(v)),
            None => None,
        };
        ModrinthHit {
            project_id: crate::text::to_owned(self.project_id.as_str()),
            project_type: self.project_type,
            title: copy_opt_string(&self.title),
            description: copy_opt_string(&self.description),
            author: crate::text::to_owned(self.author.as_str()),
            icon_url: copy_opt_string(&self.icon_url),
            downloads: self.downloads,
            display_categories,
        }
    }
}

/// A CurseForge project thumbnail.
pub struct CurseforgeModAsset {
    pub thumbnail_url: String,
}

/// A project in CurseForge search results.
pub struct CurseforgeHit {
    pub id: u32,
    pub game_id: u32,
    pub name: String,
    pub slug: String,
    pub summary: String,
    pub download_count: u64,
    pub class_id: Option<u32>,
    pub logo: Option<CurseforgeModAsset>,
    pub authors: Vec<String>,
    pub categories: Vec<String>,
    pub latest_files_indexes: Vec<u32>,
}

} // verus!
