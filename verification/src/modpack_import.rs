//! Importing a modpack from a folder: what kind of folder it is, where its game files are, and
//! which loader and game version the new instance gets.
use vstd::prelude::*;

use crate::model::{
    ContentFolder, ContentKind, ContentSource, ContentSummary, InstanceContentSummary, Loader,
};
use crate::text::{
    after_char, before_char, char_pred, chars_of, contains, first_index_of, slice_contains, slice_first_index_of,
    slice_occurs_at, slice_sub, slice_trim, slice_trim_end_matches, split_char, starts_with, string_of, to_owned,
    trim, trim_end_by,
};

verus! {

/// Which folders of a modpack folder hold a `mods` folder.
pub struct FolderProbe {
    /// `.minecraft` is a folder holding a `mods` folder.
    pub dot_minecraft_has_mods: bool,
    /// `minecraft` is a folder holding a `mods` folder.
    pub minecraft_has_mods: bool,
    /// The folder itself holds a `mods` folder.
    pub has_mods: bool,
}

/// Where the game files of a modpack folder are.
#[derive(Clone, Copy, PartialEq, Eq, Structural, Debug)]
pub enum DotMinecraftSource {
    DotMinecraft,
    Minecraft,
    Folder,
}

/// Why a modpack folder cannot be imported.
#[derive(Clone, Copy, PartialEq, Eq, Structural, Debug)]
pub enum ImportError {
    /// The folder holds neither game files (a `mods` folder) nor a modpack index.
    NoGameFiles,
    /// The modpack index could not be read.
    NoMetadata,
    /// The modpack index names no modpack.
    NoName,
    /// The modpack index names no loader or game version.
    NoLoaderOrVersion,
    /// Neither another launcher's files nor the mods show the loader and game version.
    Undetected,
}

/// Where the game files of a modpack folder are: `.minecraft`, else `minecraft`, else the
/// folder itself, whichever first holds a `mods` folder.
pub fn resolve_dot_minecraft_source(probe: &FolderProbe) -> (res: Result<DotMinecraftSource, ImportError>)
    ensures
        res == if probe.dot_minecraft_has_mods {
            Ok(DotMinecraftSource::DotMinecraft)
        } else if probe.minecraft_has_mods {
            Ok(DotMinecraftSource::Minecraft)
        } else if probe.has_mods {
            Ok(DotMinecraftSource::Folder)
        } else {
            Err(ImportError::NoGameFiles)
        },
{
    if probe.dot_minecraft_has_mods {
        Ok(DotMinecraftSource::DotMinecraft)
    } else if probe.minecraft_has_mods {
        Ok(DotMinecraftSource::Minecraft)
    } else if probe.has_mods {
        Ok(DotMinecraftSource::Folder)
    } else {
        Err(ImportError::NoGameFiles)
    }
}

/// The loader and game version another launcher's instance files name.
pub struct LauncherConfig {
    pub loader: Loader,
    pub minecraft_version: String,
}

/// What was found in a modpack folder.
pub struct ModpackFolderProbe {
    /// `modrinth.index.json` is a file.
    pub has_modrinth_index: bool,
    /// The CurseForge modpack index is a file that parses.
    pub has_curseforge_manifest: bool,
    /// The instance configuration of another launcher found in the folder, if any.
    pub other_launcher: Option<LauncherConfig>,
    pub folders: FolderProbe,
}

/// The kinds of modpack folders.
pub enum ModpackFolderKind {
    Modrinth,
    Curseforge,
    Extracted { dot_minecraft_source: DotMinecraftSource, configuration: Option<LauncherConfig> },
}

/// The game files' location, if any.
pub open spec fn spec_source(p: FolderProbe) -> Option<DotMinecraftSource> {
    if p.dot_minecraft_has_mods {
        Some(DotMinecraftSource::DotMinecraft)
    } else if p.minecraft_has_mods {
        Some(DotMinecraftSource::Minecraft)
    } else if p.has_mods {
        Some(DotMinecraftSource::Folder)
    } else {
        None
    }
}

/// What kind of modpack folder it is: a Modrinth index wins, then a CurseForge manifest; else
/// it holds the game files, with another launcher's configuration when one was found.
pub fn classify_modpack_folder(probe: ModpackFolderProbe) -> (res: Result<ModpackFolderKind, ImportError>)
    ensures
        probe.has_modrinth_index ==> res matches Ok(ModpackFolderKind::Modrinth),
        !probe.has_modrinth_index && probe.has_curseforge_manifest ==> res matches Ok(ModpackFolderKind::Curseforge),
        !probe.has_modrinth_index && !probe.has_curseforge_manifest ==> match spec_source(probe.folders) {
            Some(src) => res matches Ok(ModpackFolderKind::Extracted { dot_minecraft_source, configuration })
                && dot_minecraft_source == src && configuration == probe.other_launcher,
            None => res == Err::<ModpackFolderKind, ImportError>(ImportError::NoGameFiles),
        },
{
    if probe.has_modrinth_index {
        return Ok(ModpackFolderKind::Modrinth);
    }
    if probe.has_curseforge_manifest {
        return Ok(ModpackFolderKind::Curseforge);
    }
    match resolve_dot_minecraft_source(&probe.folders) {
        Ok(source) => Ok(ModpackFolderKind::Extracted { dot_minecraft_source: source, configuration: probe.other_launcher }),
        Err(e) => Err(e),
    }
}

/// The loader a Modrinth modpack's first `n` dependencies name (the last of `forge`,
/// `neoforge` and `fabric-loader`), vanilla when none.
pub open spec fn deps_loader(deps: Seq<(String, String)>, n: int) -> Loader
    decreases n,
{
    if n <= 0 {
        Loader::Vanilla
    } else {
        let k = deps[n - 1].0@;
        if k == "forge"@ {
            Loader::Forge
        } else if k == "neoforge"@ {
            Loader::NeoForge
        } else if k == "fabric-loader"@ {
            Loader::Fabric
        } else {
            deps_loader(deps, n - 1)
        }
    }
}

/// The game version a Modrinth modpack's first `n` dependencies name (the last `minecraft`
/// dependency).
pub open spec fn deps_version(deps: Seq<(String, String)>, n: int) -> Option<Seq<char>>
    decreases n,
{
    if n <= 0 {
        None
    } else if deps[n - 1].0@ == "minecraft"@ {
        Some(deps[n - 1].1@)
    } else {
        deps_version(deps, n - 1)
    }
}

/// The loader and game version a modpack summary names: from a Modrinth modpack's
/// dependencies (the version required), from a CurseForge manifest (both required); none for
/// other content.
pub open spec fn spec_loader_and_version(s: ContentSummary) -> Option<(Loader, Seq<char>)> {
    match s.extra {
        ContentKind::ModrinthModpack { dependencies, .. } => match deps_version(
            dependencies@,
            dependencies@.len() as int,
        ) {
            Some(v) => Some((deps_loader(dependencies@, dependencies@.len() as int), v)),
            None => None,
        },
        ContentKind::CurseforgeModpack { loader, minecraft_version, .. } => match (loader, minecraft_version) {
            (Some(l), Some(v)) => Some((l, v@)),
            _ => None,
        },
        _ => None,
    }
}

pub open spec fn loader_version_view(o: Option<(Loader, String)>) -> Option<(Loader, Seq<char>)> {
    match o {
        Some((l, v)) => Some((l, v@)),
        None => None,
    }
}

/// The loader and game version a modpack summary names.
pub fn loader_and_version_from_summary(summary: &ContentSummary) -> (res: Option<(Loader, String)>)
    ensures
        loader_version_view(res) == spec_loader_and_version(*summary),
{
    match &summary.extra {
        ContentKind::ModrinthModpack { dependencies, .. } => {
            let mut version: Option<String> = None;
            let mut loader = Loader::Vanilla;
            for i in 0..dependencies.len()
                invariant
                    loader == deps_loader(dependencies@, i as int),
                    crate::model::opt_text(version) == deps_version(dependencies@, i as int),
            {
                let key = dependencies[i].0.as_str();
                if crate::text::str_eq(key, "forge") {
                    loader = Loader::Forge;
                } else if crate::text::str_eq(key, "neoforge") {
                    loader = Loader::NeoForge;
                } else if crate::text::str_eq(key, "fabric-loader") {
                    loader = Loader::Fabric;
                } else if crate::text::str_eq(key, "minecraft") {
                    version = Some(to_owned(dependencies[i].1.as_str()));
                }
                proof {
                    reveal_strlit("forge");
                    reveal_strlit("neoforge");
                    reveal_strlit("fabric-loader");
                    reveal_strlit("minecraft");
                    assert("forge"@.len() != "minecraft"@.len());
                    assert("neoforge"@.len() != "minecraft"@.len());
                    assert("fabric-loader"@.len() != "minecraft"@.len());
                }
            }
            match version {
                Some(v) => Some((loader, v)),
                None => None,
            }
        },
        ContentKind::CurseforgeModpack { loader, minecraft_version, .. } => match (loader, minecraft_version) {
            (Some(l), Some(v)) => Some((*l, to_owned(v.as_str()))),
            _ => None,
        },
        _ => None,
    }
}

/// Whether a dependency key names a loader (`forge`, `neoforge` or `fabric-loader`).
pub open spec fn is_loader_key(k: Seq<char>) -> bool {
    k == "forge"@ || k == "neoforge"@ || k == "fabric-loader"@
}

proof fn lemma_last_loader_key(deps: Seq<(String, String)>, j: int, n: int, l: Loader)
    requires
        0 <= j < n <= deps.len(),
        (deps[j].0@ == "forge"@ && l == Loader::Forge) || (deps[j].0@ == "neoforge"@ && l == Loader::NeoForge)
            || (deps[j].0@ == "fabric-loader"@ && l == Loader::Fabric),
        forall|k: int| j < k < deps.len() ==> !is_loader_key(#[trigger] deps[k].0@),
    ensures
        deps_loader(deps, n) == l,
    decreases n,
{
    reveal_strlit("forge");
    reveal_strlit("neoforge");
    reveal_strlit("fabric-loader");
    if n - 1 > j {
        assert(!is_loader_key(deps[n - 1].0@));
        lemma_last_loader_key(deps, j, n - 1, l);
    } else {
        assert("forge"@.len() != "neoforge"@.len());
        assert("forge"@.len() != "fabric-loader"@.len());
        assert("neoforge"@.len() != "fabric-loader"@.len());
    }
}

proof fn lemma_no_loader_key(deps: Seq<(String, String)>, n: int)
    requires
        0 <= n <= deps.len(),
        forall|k: int| 0 <= k < deps.len() ==> !is_loader_key(#[trigger] deps[k].0@),
    ensures
        deps_loader(deps, n) == Loader::Vanilla,
    decreases n,
{
    if n > 0 {
        assert(!is_loader_key(deps[n - 1].0@));
        lemma_no_loader_key(deps, n - 1);
    }
}

proof fn lemma_version_key(deps: Seq<(String, String)>, j: int, n: int)
    requires
        0 <= j < n <= deps.len(),
        deps[j].0@ == "minecraft"@,
        forall|k: int| j < k < deps.len() ==> #[trigger] deps[k].0@ != "minecraft"@,
    ensures
        deps_version(deps, n) == Some(deps[j].1@),
    decreases n,
{
    if n - 1 > j {
        lemma_version_key(deps, j, n - 1);
    }
}

proof fn lemma_no_version_key(deps: Seq<(String, String)>, n: int)
    requires
        0 <= n <= deps.len(),
        forall|k: int| 0 <= k < deps.len() ==> #[trigger] deps[k].0@ != "minecraft"@,
    ensures
        deps_version(deps, n) is None,
    decreases n,
{
    if n > 0 {
        lemma_no_version_key(deps, n - 1);
    }
}

/// A Modrinth modpack's loader is the one its last loader dependency names: `forge` gives
/// Forge, `neoforge` gives NeoForge, `fabric-loader` gives Fabric; with no loader dependency it
/// is vanilla. Its game version is the value of its last `minecraft` dependency, and without
/// one the modpack names no loader and version at all.
pub proof fn law_modrinth_modpack_loader(s: ContentSummary, j: int, l: Loader)
    requires
        s.extra is ModrinthModpack,
    ensures
        ({
            let deps = s.extra->ModrinthModpack_dependencies@;
            &&& (0 <= j < deps.len() && ((deps[j].0@ == "forge"@ && l == Loader::Forge) || (deps[j].0@
                == "neoforge"@ && l == Loader::NeoForge) || (deps[j].0@ == "fabric-loader"@ && l
                == Loader::Fabric)) && (forall|k: int| j < k < deps.len() ==> !is_loader_key(#[trigger] deps[k].0@)))
                ==> (spec_loader_and_version(s) matches Some((lo, _)) ==> lo == l)
            &&& (forall|k: int| 0 <= k < deps.len() ==> !is_loader_key(#[trigger] deps[k].0@))
                ==> (spec_loader_and_version(s) matches Some((lo, _)) ==> lo == Loader::Vanilla)
            &&& (0 <= j < deps.len() && deps[j].0@ == "minecraft"@ && (forall|k: int|
                j < k < deps.len() ==> #[trigger] deps[k].0@ != "minecraft"@)) ==> (spec_loader_and_version(s)
                matches Some((_, v)) && v == deps[j].1@)
            &&& (forall|k: int| 0 <= k < deps.len() ==> #[trigger] deps[k].0@ != "minecraft"@)
                ==> spec_loader_and_version(s) is None
        }),
{
    let deps = s.extra->ModrinthModpack_dependencies@;
    let n = deps.len() as int;
    if 0 <= j < deps.len() && ((deps[j].0@ == "forge"@ && l == Loader::Forge) || (deps[j].0@ == "neoforge"@ && l
        == Loader::NeoForge) || (deps[j].0@ == "fabric-loader"@ && l == Loader::Fabric)) && (forall|k: int|
        j < k < deps.len() ==> !is_loader_key(#[trigger] deps[k].0@)) {
        lemma_last_loader_key(deps, j, n, l);
    }
    if forall|k: int| 0 <= k < deps.len() ==> !is_loader_key(#[trigger] deps[k].0@) {
        lemma_no_loader_key(deps, n);
    }
    if 0 <= j < deps.len() && deps[j].0@ == "minecraft"@ && (forall|k: int|
        j < k < deps.len() ==> #[trigger] deps[k].0@ != "minecraft"@) {
        lemma_version_key(deps, j, n);
    }
    if forall|k: int| 0 <= k < deps.len() ==> #[trigger] deps[k].0@ != "minecraft"@ {
        lemma_no_version_key(deps, n);
    }
}

/// A CurseForge modpack names the loader and game version of its manifest, and nothing unless
/// the manifest gives both; content other than a modpack names none.
pub proof fn law_curseforge_and_other_loader(s: ContentSummary)
    ensures
        (s.extra is CurseforgeModpack && s.extra->CurseforgeModpack_loader is Some
            && s.extra->CurseforgeModpack_minecraft_version is Some) ==> spec_loader_and_version(s) == Some(
            (s.extra->CurseforgeModpack_loader->0, s.extra->CurseforgeModpack_minecraft_version->0@),
        ),
        (s.extra is CurseforgeModpack && (s.extra->CurseforgeModpack_loader is None
            || s.extra->CurseforgeModpack_minecraft_version is None)) ==> spec_loader_and_version(s) is None,
        !(s.extra is CurseforgeModpack) && !(s.extra is ModrinthModpack) ==> spec_loader_and_version(s) is None,
{
}

/// A mod file's lowercase name shows Fabric's loader when it holds `fabric-loader` or
/// `fabricloader`; otherwise NeoForge when it holds `neoforge` (though that holds `forge` too);
/// otherwise Forge when it holds `forge`; otherwise no loader.
pub proof fn law_loader_from_filename(name: Seq<char>)
    ensures
        (contains(name, "fabric-loader"@) || contains(name, "fabricloader"@)) ==> spec_loader_from_filename(name)
            == Some(Loader::Fabric),
        (!contains(name, "fabric-loader"@) && !contains(name, "fabricloader"@) && contains(name, "neoforge"@))
            ==> spec_loader_from_filename(name) == Some(Loader::NeoForge),
        (!contains(name, "fabric-loader"@) && !contains(name, "fabricloader"@) && !contains(name, "neoforge"@)
            && contains(name, "forge"@)) ==> spec_loader_from_filename(name) == Some(Loader::Forge),
        (!contains(name, "fabric-loader"@) && !contains(name, "fabricloader"@) && !contains(name, "forge"@))
            ==> spec_loader_from_filename(name) is None,
{
    if contains(name, "neoforge"@) {
        reveal_strlit("neoforge");
        reveal_strlit("forge");
        let i = choose|i: int| crate::text::occurs_at(name, "neoforge"@, i);
        assert(name.subrange(i + 3, i + 8) =~= "forge"@) by {
            assert(name.subrange(i, i + 8) == "neoforge"@);
            assert forall|k: int| 0 <= k < 5 implies name.subrange(i + 3, i + 8)[k] == "forge"@[k] by {
                assert(name.subrange(i + 3, i + 8)[k] == name.subrange(i, i + 8)[k + 3]);
            }
        }
        assert(crate::text::occurs_at(name, "forge"@, i + 3));
    }
}

/// The loader a mod file's lowercase name shows: Fabric's loader, else NeoForge, else Forge.
pub open spec fn spec_loader_from_filename(name: Seq<char>) -> Option<Loader> {
    if contains(name, "fabric-loader"@) || contains(name, "fabricloader"@) {
        Some(Loader::Fabric)
    } else if contains(name, "neoforge"@) {
        Some(Loader::NeoForge)
    } else if contains(name, "forge"@) {
        Some(Loader::Forge)
    } else {
        None
    }
}

/// The loader a mod file's lowercase name shows.
pub fn detect_loader_from_filename(file_name: &str) -> (res: Option<Loader>)
    ensures
        res == spec_loader_from_filename(file_name@),
{
    let name = chars_of(file_name);
    let a = chars_of("fabric-loader");
    let b = chars_of("fabricloader");
    let n = chars_of("neoforge");
    let f = chars_of("forge");
    if slice_contains(name.as_slice(), a.as_slice()) || slice_contains(name.as_slice(), b.as_slice()) {
        Some(Loader::Fabric)
    } else if slice_contains(name.as_slice(), n.as_slice()) {
        Some(Loader::NeoForge)
    } else if slice_contains(name.as_slice(), f.as_slice()) {
        Some(Loader::Forge)
    } else {
        None
    }
}

/// The start of the line of `META-INF/mods.toml` that names the game version.
pub const MINECRAFT_KEY: &'static str = "minecraft = \"";

/// The game version one line of `mods.toml` names: a trimmed line starting with
/// `minecraft = "`, whose rest (without trailing quotes) is not empty; its first
/// comma-separated part, trimmed.
pub open spec fn line_version(line: Seq<char>) -> Option<Seq<char>> {
    let l = trim(line);
    if starts_with(l, MINECRAFT_KEY@) {
        let v = trim_end_by(l.skip(MINECRAFT_KEY@.len() as int), char_pred('"'));
        if v.len() > 0 {
            Some(trim(before_char(v, ',')))
        } else {
            None
        }
    } else {
        None
    }
}

/// The game version of the first line that names one.
pub open spec fn first_line_version(lines: Seq<Seq<char>>) -> Option<Seq<char>>
    decreases lines.len(),
{
    if lines.len() == 0 {
        None
    } else {
        match line_version(lines[0]) {
            Some(v) => Some(v),
            None => first_line_version(lines.drop_first()),
        }
    }
}

/// The game version a `mods.toml` names, from its lines (`\n`-separated; a `\r` before the
/// break is whitespace that trimming removes).
pub open spec fn spec_mods_toml_version(text: Seq<char>) -> Option<Seq<char>> {
    first_line_version(split_char(text, '\n'))
}

/// The game version one line names.
fn line_version_exec(line: &[char]) -> (res: Option<Vec<char>>)
    ensures
        match res {
            Some(v) => line_version(line@) == Some(v@),
            None => line_version(line@) is None,
        },
{
    let l = slice_trim(line);
    let key = chars_of(MINECRAFT_KEY);
    if !slice_occurs_at(l.as_slice(), key.as_slice(), 0) {
        return None;
    }
    let rest = slice_sub(l.as_slice(), key.len(), l.len());
    assert(rest@ =~= l@.skip(key@.len() as int));
    let v = slice_trim_end_matches(rest.as_slice(), '"');
    if v.len() == 0 {
        return None;
    }
    let k = slice_first_index_of(v.as_slice(), ',');
    proof {
        crate::text::lemma_first_index_bounds(v@, ',');
    }
    let first = slice_sub(v.as_slice(), 0, k);
    assert(first@ =~= before_char(v@, ','));
    Some(slice_trim(first.as_slice()))
}

proof fn lemma_split_step(s: Seq<char>)
    ensures
        first_index_of(s, '\n') < s.len() ==> first_line_version(split_char(s, '\n')) == match line_version(
            before_char(s, '\n'),
        ) {
            Some(v) => Some(v),
            None => first_line_version(split_char(after_char(s, '\n'), '\n')),
        },
        first_index_of(s, '\n') >= s.len() ==> first_line_version(split_char(s, '\n')) == line_version(s),
{
    crate::text::lemma_first_index_bounds(s, '\n');
    if first_index_of(s, '\n') < s.len() {
        let pieces = split_char(s, '\n');
        assert(pieces == seq![before_char(s, '\n')] + split_char(after_char(s, '\n'), '\n'));
        assert(pieces[0] == before_char(s, '\n'));
        assert(pieces.drop_first() =~= split_char(after_char(s, '\n'), '\n'));
    } else {
        let pieces = split_char(s, '\n');
        assert(pieces == seq![s]);
        assert(pieces.drop_first() =~= Seq::<Seq<char>>::empty());
        assert(first_line_version(Seq::<Seq<char>>::empty()) == None::<Seq<char>>);
    }
}

/// The game version a `mods.toml` names.
pub fn mods_toml_version(text: &str) -> (res: Option<String>)
    ensures
        crate::model::opt_text(res) == spec_mods_toml_version(text@),
{
    let mut rest = chars_of(text);
    loop
        invariant
            first_line_version(split_char(rest@, '\n')) == spec_mods_toml_version(text@),
        decreases rest@.len(),
    {
        let k = slice_first_index_of(rest.as_slice(), '\n');
        proof {
            lemma_split_step(rest@);
            crate::text::lemma_first_index_bounds(rest@, '\n');
        }
        let line = slice_sub(rest.as_slice(), 0, k);
        assert(line@ =~= before_char(rest@, '\n'));
        if k >= rest.len() {
            assert(line@ =~= rest@);
        }
        match line_version_exec(line.as_slice()) {
            Some(v) => {
                return Some(string_of(v.as_slice()));
            },
            None => {},
        }
        if k >= rest.len() {
            assert(line@ =~= rest@);
            return None;
        }
        let next = slice_sub(rest.as_slice(), k + 1, rest.len());
        assert(next@ =~= after_char(rest@, '\n'));
        rest = next;
    }
}

/// What a JSON text holds under a top-level key: none when the text is not JSON; else the
/// member's text when the value is an object whose member under the key is a string.
pub uninterp spec fn json_member_text(text: Seq<char>, key: Seq<char>) -> Option<Option<Seq<char>>>;

/// Calls `serde_json::from_str::<serde_json::Value>` and reads the member under `key` with
/// `Value::get` when it is a string; its contract claims that the result is the named one of
/// the text and key.
#[verifier::external_body]
fn json_string_member(text: &str, key: &str) -> (res: Option<Option<String>>)
    ensures
        match res {
            Some(Some(v)) => json_member_text(text@, key@) == Some(Some(v@)),
            Some(None) => json_member_text(text@, key@) == Some(None::<Seq<char>>),
            None => json_member_text(text@, key@) is None,
        },
{
    match serde_json::from_str::<serde_json::Value>(text) {
        Ok(value) => match value.get(key) {
            Some(serde_json::Value::String(v)) => Some(Some(v.clone())),
            Some(serde_json::Value::Null) => Some(None),
            Some(serde_json::Value::Bool(_)) => Some(None),
            Some(serde_json::Value::Number(_)) => Some(None),
            Some(serde_json::Value::Array(_)) => Some(None),
            Some(serde_json::Value::Object(_)) => Some(None),
            None => Some(None),
        },
        Err(_) => None,
    }
}

/// The member of `fabric.mod.json` that names the mod.
pub const FABRIC_ID_KEY: &'static str = "id";

/// A text file read from a mod jar: not there, there but not readable as UTF-8, or its text.
pub enum JarText {
    Absent,
    Unreadable,
    Text(String),
}

/// The game version a mod jar names: none when its `fabric.mod.json` cannot be read, is not
/// JSON, or belongs to Fabric's loader itself; else what its `META-INF/mods.toml` names.
pub open spec fn spec_jar_version(fabric_mod_json: JarText, mods_toml: JarText) -> Option<Seq<char>> {
    let fabric_ok = match fabric_mod_json {
        JarText::Absent => true,
        JarText::Unreadable => false,
        JarText::Text(t) => match json_member_text(t@, FABRIC_ID_KEY@) {
            Some(Some(id)) => !(contains(id, "fabricloader"@) || contains(id, "fabric-loader"@)),
            Some(None) => true,
            None => false,
        },
    };
    if !fabric_ok {
        None
    } else {
        match mods_toml {
            JarText::Text(t) => spec_mods_toml_version(t@),
            _ => None,
        }
    }
}

/// The game version a mod jar names, from its `fabric.mod.json` and `META-INF/mods.toml`.
pub fn detect_version_from_mod_jar(fabric_mod_json: &JarText, mods_toml: &JarText) -> (res: Option<String>)
    ensures
        crate::model::opt_text(res) == spec_jar_version(*fabric_mod_json, *mods_toml),
{
    match fabric_mod_json {
        JarText::Absent => {},
        JarText::Unreadable => {
            return None;
        },
        JarText::Text(t) => match json_string_member(t.as_str(), FABRIC_ID_KEY) {
            Some(Some(id)) => {
                let c = chars_of(id.as_str());
                let a = chars_of("fabricloader");
                let b = chars_of("fabric-loader");
                if slice_contains(c.as_slice(), a.as_slice()) || slice_contains(c.as_slice(), b.as_slice()) {
                    return None;
                }
            },
            Some(None) => {},
            None => {
                return None;
            },
        },
    }
    match mods_toml {
        JarText::Text(t) => mods_toml_version(t.as_str()),
        _ => None,
    }
}

/// The search for an extracted modpack's loader and game version over its mod files.
pub struct LoaderDetection {
    pub loader: Option<Loader>,
    pub version: Option<String>,
}

impl LoaderDetection {
    /// Nothing found yet.
    pub fn new() -> (res: Self)
        ensures
            res.loader is None,
            res.version is None,
    {
        LoaderDetection { loader: None, version: None }
    }

    /// A mod file's lowercase name: it names the loader unless one was found already.
    pub fn observe_file_name(&mut self, lowercase_name: &str)
        ensures
            final(self).loader == match old(self).loader {
                Some(l) => Some(l),
                None => spec_loader_from_filename(lowercase_name@),
            },
            final(self).version == old(self).version,
    {
        if self.loader.is_none() {
            self.loader = detect_loader_from_filename(lowercase_name);
        }
    }

    /// Whether the game version is still wanted (the next jar should be read for it).
    pub fn wants_version(&self) -> (res: bool)
        ensures
            res == self.version is None,
    {
        self.version.is_none()
    }

    /// What a mod jar names as game version: taken unless one was found already.
    pub fn observe_version(&mut self, version: Option<String>)
        ensures
            final(self).loader == old(self).loader,
            old(self).version is Some ==> final(self).version == old(self).version,
            old(self).version is None ==> final(self).version == version,
    {
        if self.version.is_none() {
            self.version = version;
        }
    }

    /// Whether both were found (the search stops).
    pub fn is_done(&self) -> (res: bool)
        ensures
            res == (self.loader is Some && self.version is Some),
    {
        self.loader.is_some() && self.version.is_some()
    }

    /// The loader and version, when both were found.
    pub fn result(self) -> (res: Option<(Loader, String)>)
        ensures
            loader_version_view(res) == match (self.loader, self.version) {
                (Some(l), Some(v)) => Some((l, v@)),
                _ => None,
            },
    {
        match (self.loader, self.version) {
            (Some(l), Some(v)) => Some((l, v)),
            _ => None,
        }
    }
}

/// What an instance is created with.
pub struct InstancePlan {
    pub name: String,
    pub loader: Loader,
    pub minecraft_version: String,
}

/// The instance a modpack folder with an index becomes: named after the modpack, with the
/// loader and version its summary names; an error when its summary could not be read, has no
/// name, or names no loader and version.
pub fn plan_indexed_import(summary: Option<&ContentSummary>) -> (res: Result<InstancePlan, ImportError>)
    ensures
        match summary {
            None => res == Err::<InstancePlan, ImportError>(ImportError::NoMetadata),
            Some(s) => match s.name {
                None => res == Err::<InstancePlan, ImportError>(ImportError::NoName),
                Some(n) => match spec_loader_and_version(*s) {
                    None => res == Err::<InstancePlan, ImportError>(ImportError::NoLoaderOrVersion),
                    Some((l, v)) => res matches Ok(p) && p.name@ == n@ && p.loader == l && p.minecraft_version@ == v,
                },
            },
        },
{
    let s = match summary {
        Some(s) => s,
        None => {
            return Err(ImportError::NoMetadata);
        },
    };
    let name = match &s.name {
        Some(n) => to_owned(n.as_str()),
        None => {
            return Err(ImportError::NoName);
        },
    };
    match loader_and_version_from_summary(s) {
        Some((loader, minecraft_version)) => Ok(InstancePlan { name, loader, minecraft_version }),
        None => Err(ImportError::NoLoaderOrVersion),
    }
}

/// The name of an extracted modpack's instance: the folder's name, else "Imported Modpack".
pub fn extracted_import_name(folder_name: Option<String>) -> (res: String)
    ensures
        res@ == match folder_name {
            Some(n) => n@,
            None => "Imported Modpack"@,
        },
{
    match folder_name {
        Some(n) => n,
        None => to_owned("Imported Modpack"),
    }
}

/// The instance an extracted modpack folder becomes: the loader and version of another
/// launcher's configuration, else those found in its mods; an error when neither is known.
pub fn plan_extracted_import(
    name: String,
    configuration: Option<LauncherConfig>,
    detected: Option<(Loader, String)>,
) -> (res: Result<InstancePlan, ImportError>)
    ensures
        match configuration {
            Some(c) => res matches Ok(p) && p.name@ == name@ && p.loader == c.loader && p.minecraft_version@
                == c.minecraft_version@,
            None => match detected {
                Some((l, v)) => res matches Ok(p) && p.name@ == name@ && p.loader == l && p.minecraft_version@ == v@,
                None => res == Err::<InstancePlan, ImportError>(ImportError::Undetected),
            },
        },
{
    match configuration {
        Some(c) => Ok(InstancePlan { name, loader: c.loader, minecraft_version: c.minecraft_version }),
        None => match detected {
            Some((loader, minecraft_version)) => Ok(InstancePlan { name, loader, minecraft_version }),
            None => Err(ImportError::Undetected),
        },
    }
}

/// The content folders to reload after importing a modpack with an index: mods, and resource
/// packs and shaders when the modpack put files there.
pub fn indexed_import_dirty_folders(resource_packs: bool, shaders: bool) -> (res: Vec<ContentFolder>)
    ensures
        res@ == seq![ContentFolder::Mods] + (if resource_packs {
            seq![ContentFolder::ResourcePacks]
        } else {
            Seq::empty()
        }) + (if shaders {
            seq![ContentFolder::Shaders]
        } else {
            Seq::empty()
        }),
{
    let mut v: Vec<ContentFolder> = Vec::new();
    v.push(ContentFolder::Mods);
    if resource_packs {
        v.push(ContentFolder::ResourcePacks);
    }
    if shaders {
        v.push(ContentFolder::Shaders);
    }
    assert(v@ =~= seq![ContentFolder::Mods] + (if resource_packs {
        seq![ContentFolder::ResourcePacks]
    } else {
        Seq::empty()
    }) + (if shaders {
        seq![ContentFolder::Shaders]
    } else {
        Seq::empty()
    }));
    v
}

/// The entry that stands for a modpack folder while its files are downloaded: the folder's
/// name (else "modpack-folder"), enabled, installed by hand, with no hash or time; and the
/// loader and version its updates are checked for (vanilla and "unknown" when the summary
/// names none).
pub struct SyntheticContent {
    pub summary: InstanceContentSummary,
    pub update_loader: Loader,
    pub update_version: String,
}

/// The entry that stands for a modpack folder while its files are downloaded.
pub fn synthetic_instance_content_summary(content_summary: ContentSummary, folder_name: Option<String>) -> (res:
    SyntheticContent)
    ensures
        res.summary.content_summary == content_summary,
        res.summary.filename@ == match folder_name {
            Some(n) => n@,
            None => "modpack-folder"@,
        },
        res.summary.filename_hash == 0,
        res.summary.modified_unix_ms == 0,
        res.summary.enabled,
        res.summary.content_source is Manual,
        match spec_loader_and_version(content_summary) {
            Some((l, v)) => res.update_loader == l && res.update_version@ == v,
            None => res.update_loader == Loader::Vanilla && res.update_version@ == "unknown"@,
        },
{
    let (update_loader, update_version) = match loader_and_version_from_summary(&content_summary) {
        Some((l, v)) => (l, v),
        None => (Loader::Vanilla, to_owned("unknown")),
    };
    let filename = match folder_name {
        Some(n) => n,
        None => to_owned("modpack-folder"),
    };
    SyntheticContent {
        summary: InstanceContentSummary {
            content_summary,
            filename,
            filename_hash: 0,
            modified_unix_ms: 0,
            enabled: true,
            content_source: ContentSource::Manual,
        },
        update_loader,
        update_version,
    }
}

} // verus!
