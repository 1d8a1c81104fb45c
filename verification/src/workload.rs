//! What an instance asks of the machine, as the performance page estimates it: how many mods it
//! runs, how much memory it is given, its render distance, and whether it uses shaders,
//! optimization mods or heavy mods.
use vstd::prelude::*;

use crate::model::{spec_pretty_name, ContentKind, InstanceContentSummary, Loader};
use crate::text::{
    ascii_lower, chars_of, contains, slice_contains, starts_with, str_ascii_lower, string_of, to_owned,
};

verus! {

/// Whether a character is an ASCII digit.
pub open spec fn is_digit(c: char) -> bool {
    '0' <= c && c <= '9'
}

/// The value of a digit character.
pub open spec fn digit_value(c: char) -> nat {
    ((c as u32) - ('0' as u32)) as nat
}

/// The value of a string of digits.
pub open spec fn digits_value(d: Seq<char>) -> nat
    decreases d.len(),
{
    if d.len() == 0 {
        0
    } else {
        digits_value(d.drop_last()) * 10 + digit_value(d.last())
    }
}

/// Whether every character is an ASCII digit.
pub open spec fn all_digits(d: Seq<char>) -> bool {
    forall|i: int| 0 <= i < d.len() ==> is_digit(#[trigger] d[i])
}

/// The text after an optional leading `+`.
pub open spec fn unsigned_part(s: Seq<char>) -> Seq<char> {
    if s.len() > 0 && s[0] == '+' {
        s.drop_first()
    } else {
        s
    }
}

/// `str::parse::<u32>`: an optional `+`, then one or more ASCII digits whose value fits in a
/// `u32`.
pub open spec fn spec_parse_u32(s: Seq<char>) -> Option<u32> {
    let d = unsigned_part(s);
    if d.len() > 0 && all_digits(d) && digits_value(d) <= u32::MAX {
        Some(digits_value(d) as u32)
    } else {
        None
    }
}

proof fn lemma_digits_value_grows(d: Seq<char>, n: int)
    requires
        0 <= n <= d.len(),
        all_digits(d),
    ensures
        digits_value(d.take(n)) <= digits_value(d),
    decreases d.len() - n,
{
    if n < d.len() {
        assert(d.take(n + 1).drop_last() =~= d.take(n));
        lemma_digits_value_grows(d, n + 1);
    } else {
        assert(d.take(n) =~= d);
    }
}

/// `str::parse::<u32>`.
pub fn parse_u32(s: &str) -> (res: Option<u32>)
    ensures
        res == spec_parse_u32(s@),
{
    let chars = chars_of(s);
    let start: usize = if chars.len() > 0 && chars[0] == '+' {
        1
    } else {
        0
    };
    let ghost d = unsigned_part(s@);
    assert(d =~= s@.skip(start as int));
    if chars.len() == start {
        return None;
    }
    let mut value: u64 = 0;
    let mut i: usize = start;
    while i < chars.len()
        invariant
            chars@ == s@,
            d =~= s@.skip(start as int),
            d == unsigned_part(s@),
            start <= i <= chars.len(),
            d.len() > 0,
            forall|k: int| 0 <= k < i - start ==> is_digit(#[trigger] d[k]),
            value == digits_value(d.take(i - start)),
            value <= u32::MAX,
        decreases chars.len() - i,
    {
        let c = chars[i];
        assert(d[i - start] == c);
        if !('0' <= c && c <= '9') {
            assert(!is_digit(d[i - start]));
            return None;
        }
        assert(d.take(i + 1 - start).drop_last() =~= d.take(i - start));
        let digit: u64 = (c as u32 - '0' as u32) as u64;
        value = value * 10 + digit;
        if value > 4294967295u64 {
            proof {
                if all_digits(d) {
                    lemma_digits_value_grows(d, i + 1 - start);
                }
            }
            return None;
        }
        i = i + 1;
    }
    assert(d.take(d.len() as int) =~= d);
    Some(value as u32)
}

/// The memory settings of an instance: whether it sets its own maximum, and that maximum in
/// MiB.
pub struct MemoryConfig {
    pub enabled: bool,
    pub max: u32,
}

/// The maximum memory, in MiB, an instance that sets none is given.
pub const DEFAULT_MAX_MEMORY_MB: u32 = 4096;

/// What the performance estimate is made for.
pub struct WorkloadProfile {
    pub name: String,
    pub mc_version: String,
    pub loader: String,
    pub mod_count: u32,
    pub allocated_ram_mb: u32,
    pub render_distance: u32,
    pub shaders: bool,
    pub optimization_mods: bool,
    pub heavy_mods: bool,
}

/// Mod ids (parts of them) that mark a performance mod.
pub open spec fn optimization_ids() -> Seq<Seq<char>> {
    seq![
        "sodium"@, "lithium"@, "ferrite-core"@, "ferritecore"@, "starlight"@, "modernfix"@,
        "embeddium"@, "rubidium"@, "c2me-fabric"@, "lazydfu"@, "krypton"@, "entityculling"@,
    ]
}

/// Mod ids (parts of them) that mark a heavy mod.
pub open spec fn heavy_ids() -> Seq<Seq<char>> {
    seq![
        "create"@, "applied-energistics-2"@, "ae2"@, "twilightforest"@, "botania"@, "mekanism"@,
        "immersive-engineering"@, "ad-astra"@, "better-end"@, "better-nether"@,
    ]
}

fn optimization_mod_ids() -> (res: Vec<&'static str>)
    ensures
        res@.map_values(|s: &'static str| s@) == optimization_ids(),
{
    let v = vec![
        "sodium", "lithium", "ferrite-core", "ferritecore", "starlight", "modernfix", "embeddium",
        "rubidium", "c2me-fabric", "lazydfu", "krypton", "entityculling",
    ];
    assert(v@.map_values(|s: &'static str| s@) =~= optimization_ids());
    v
}

fn heavy_mod_ids() -> (res: Vec<&'static str>)
    ensures
        res@.map_values(|s: &'static str| s@) == heavy_ids(),
{
    let v = vec![
        "create", "applied-energistics-2", "ae2", "twilightforest", "botania", "mekanism",
        "immersive-engineering", "ad-astra", "better-end", "better-nether",
    ];
    assert(v@.map_values(|s: &'static str| s@) =~= heavy_ids());
    v
}

/// Whether one of `parts` occurs in `text`.
pub open spec fn contains_any(text: Seq<char>, parts: Seq<Seq<char>>) -> bool {
    exists|i: int| 0 <= i < parts.len() && #[trigger] contains(text, parts[i])
}

fn contains_any_exec(text: &[char], parts: &Vec<&'static str>) -> (res: bool)
    ensures
        res == contains_any(text@, parts@.map_values(|s: &'static str| s@)),
{
    let ghost ps = parts@.map_values(|s: &'static str| s@);
    for i in 0..parts.len()
        invariant
            ps == parts@.map_values(|s: &'static str| s@),
            forall|k: int| 0 <= k < i ==> !contains(text@, #[trigger] ps[k]),
    {
        let p = chars_of(parts[i]);
        if slice_contains(text, p.as_slice()) {
            assert(contains(text@, ps[i as int]));
            return true;
        }
    }
    false
}

/// How many mods one piece of content counts for: the files under `mods/` of a modpack, else
/// one.
pub open spec fn mods_in(s: InstanceContentSummary) -> int {
    match s.content_summary.extra {
        ContentKind::ModrinthModpack { files, .. } => count_mod_files(files@),
        ContentKind::CurseforgeModpack { files, .. } => count_mod_files(files@),
        _ => 1,
    }
}

/// How many of the paths are under `mods/`.
pub open spec fn count_mod_files(files: Seq<String>) -> int
    decreases files.len(),
{
    if files.len() == 0 {
        0
    } else {
        count_mod_files(files.drop_last()) + if starts_with(files.last()@, "mods/"@) {
            1int
        } else {
            0int
        }
    }
}

/// The mods the first `n` content files count for, enabled ones only.
pub open spec fn total_mods_in(c: Seq<InstanceContentSummary>, n: int) -> int
    decreases n,
{
    if n <= 0 {
        0
    } else {
        total_mods_in(c, n - 1) + if c[n - 1].enabled {
            mods_in(c[n - 1])
        } else {
            0
        }
    }
}

/// The lowercase mod id of a content file, if it has one.
pub open spec fn lower_id(s: InstanceContentSummary) -> Option<Seq<char>> {
    match s.content_summary.id {
        Some(id) => Some(ascii_lower(id@)),
        None => None,
    }
}

/// Whether an enabled one of the first `n` content files has a mod id containing one of
/// `parts` (ASCII case ignored).
pub open spec fn some_id_matches(c: Seq<InstanceContentSummary>, n: int, parts: Seq<Seq<char>>) -> bool {
    exists|i: int|
        0 <= i < n && c[i].enabled && #[trigger] lower_id(c[i]) is Some && contains_any(
            lower_id(c[i])->0,
            parts,
        )
}

/// Whether one of the content files is enabled.
pub open spec fn any_enabled(c: Seq<InstanceContentSummary>) -> bool {
    exists|i: int| 0 <= i < c.len() && #[trigger] c[i].enabled
}

proof fn lemma_total_mods_mono(c: Seq<InstanceContentSummary>, a: int, b: int)
    requires
        0 <= a <= b <= c.len(),
    ensures
        total_mods_in(c, a) <= total_mods_in(c, b),
        total_mods_in(c, a) >= 0,
    decreases b,
{
    if a < b {
        lemma_total_mods_mono(c, a, b - 1);
        lemma_mods_in_nonneg(c[b - 1]);
    } else if a > 0 {
        lemma_total_mods_mono(c, a - 1, a - 1);
        lemma_mods_in_nonneg(c[a - 1]);
    }
}

proof fn lemma_mods_in_nonneg(s: InstanceContentSummary)
    ensures
        mods_in(s) >= 0,
{
    match s.content_summary.extra {
        ContentKind::ModrinthModpack { files, .. } => lemma_count_nonneg(files@),
        ContentKind::CurseforgeModpack { files, .. } => lemma_count_nonneg(files@),
        _ => {},
    }
}

proof fn lemma_count_nonneg(files: Seq<String>)
    ensures
        0 <= count_mod_files(files) <= files.len(),
    decreases files.len(),
{
    if files.len() > 0 {
        lemma_count_nonneg(files.drop_last());
    }
}

/// How many paths are under `mods/`.
fn count_mod_files_exec(files: &Vec<String>) -> (res: usize)
    ensures
        res == count_mod_files(files@),
{
    let mut n: usize = 0;
    let prefix = chars_of("mods/");
    for i in 0..files.len()
        invariant
            prefix@ == "mods/"@,
            n == count_mod_files(files@.take(i as int)),
            n <= i,
    {
        assert(files@.take(i + 1).drop_last() =~= files@.take(i as int));
        let f = chars_of(files[i].as_str());
        if crate::text::slice_occurs_at(f.as_slice(), prefix.as_slice(), 0) {
            n = n + 1;
        }
    }
    assert(files@.take(files@.len() as int) =~= files@);
    n
}

/// A render distance held to the range the game accepts.
pub open spec fn clamp_render_distance(v: u32) -> u32 {
    if v < 2 {
        2
    } else if v > 32 {
        32
    } else {
        v
    }
}

/// The memory an instance is given: its own maximum when it sets one, else the default.
pub open spec fn allocated_memory(memory: Option<MemoryConfig>) -> u32 {
    match memory {
        Some(m) => if m.enabled {
            m.max
        } else {
            DEFAULT_MAX_MEMORY_MB
        },
        None => DEFAULT_MAX_MEMORY_MB,
    }
}

/// Whether one of the enabled content files has a mod id containing one of `parts`.
fn id_matches(s: &InstanceContentSummary, parts: &Vec<&'static str>) -> (res: bool)
    ensures
        res == (lower_id(*s) is Some && contains_any(lower_id(*s)->0, parts@.map_values(|p: &'static str| p@))),
{
    match &s.content_summary.id {
        Some(id) => {
            let lower = str_ascii_lower(id.as_str());
            contains_any_exec(lower.as_slice(), parts)
        },
        None => false,
    }
}

/// The workload of an instance: its name, game version and loader (lowercase), how many
/// enabled mods it runs (modpacks counting the files under `mods/`), its memory, the render
/// distance typed in (12 when it is not a number, held to 2 to 32), whether it uses shaders
/// (an enabled shader pack, or the shader tab shown), whether an enabled mod is a performance
/// mod, and whether one is a heavy mod or there are more than 120 mods.
pub fn workload(
    name: &str,
    loader: Loader,
    mc_version: &str,
    memory: Option<MemoryConfig>,
    mods: &[InstanceContentSummary],
    shader_packs: &[InstanceContentSummary],
    show_shader_tab: bool,
    render_distance_text: &str,
) -> (res: WorkloadProfile)
    requires
        total_mods_in(mods@, mods@.len() as int) <= u32::MAX,
    ensures
        res.name@ == name@,
        res.mc_version@ == mc_version@,
        res.loader@ == ascii_lower(spec_pretty_name(loader)),
        res.mod_count == total_mods_in(mods@, mods@.len() as int),
        res.allocated_ram_mb == allocated_memory(memory),
        res.render_distance == clamp_render_distance(
            match spec_parse_u32(render_distance_text@) {
                Some(v) => v,
                None => 12,
            },
        ),
        res.shaders == (any_enabled(shader_packs@) || show_shader_tab),
        res.optimization_mods == some_id_matches(mods@, mods@.len() as int, optimization_ids()),
        res.heavy_mods == (some_id_matches(mods@, mods@.len() as int, heavy_ids()) || total_mods_in(
            mods@,
            mods@.len() as int,
        ) > 120),
{
    let opt_ids = optimization_mod_ids();
    let heavy = heavy_mod_ids();
    let mut count: u32 = 0;
    let mut optimization_mods = false;
    let mut heavy_mods = false;
    proof {
        lemma_total_mods_mono(mods@, 0, mods@.len() as int);
    }
    for n in 0..mods.len()
        invariant
            opt_ids@.map_values(|p: &'static str| p@) == optimization_ids(),
            heavy@.map_values(|p: &'static str| p@) == heavy_ids(),
            total_mods_in(mods@, mods@.len() as int) <= u32::MAX,
            count == total_mods_in(mods@, n as int),
            optimization_mods == some_id_matches(mods@, n as int, optimization_ids()),
            heavy_mods == some_id_matches(mods@, n as int, heavy_ids()),
    {
        let s = &mods[n];
        proof {
            lemma_total_mods_mono(mods@, n + 1, mods@.len() as int);
            lemma_mods_in_nonneg(mods@[n as int]);
        }
        if s.enabled {
            let k: usize = match s.content_summary.extra.modpack_files() {
                Some(files) => count_mod_files_exec(files),
                None => 1,
            };
            assert(k == mods_in(*s));
            count = count + k as u32;
            let o = id_matches(s, &opt_ids);
            let h = id_matches(s, &heavy);
            proof {
                if o {
                    assert(lower_id(mods@[n as int]) is Some);
                }
                if h {
                    assert(lower_id(mods@[n as int]) is Some);
                }
                if !optimization_mods && !o {
                    assert forall|i: int| 0 <= i < n + 1 && mods@[i].enabled && #[trigger] lower_id(mods@[i]) is Some
                        implies !contains_any(lower_id(mods@[i])->0, optimization_ids()) by {
                        if i < n {
                        }
                    }
                }
                if !heavy_mods && !h {
                    assert forall|i: int| 0 <= i < n + 1 && mods@[i].enabled && #[trigger] lower_id(mods@[i]) is Some
                        implies !contains_any(lower_id(mods@[i])->0, heavy_ids()) by {
                        if i < n {
                        }
                    }
                }
            }
            optimization_mods = optimization_mods || o;
            heavy_mods = heavy_mods || h;
        } else {
            proof {
                if !optimization_mods {
                    assert forall|i: int| 0 <= i < n + 1 && mods@[i].enabled && #[trigger] lower_id(mods@[i]) is Some
                        implies !contains_any(lower_id(mods@[i])->0, optimization_ids()) by {
                        if i < n {
                        }
                    }
                }
                if !heavy_mods {
                    assert forall|i: int| 0 <= i < n + 1 && mods@[i].enabled && #[trigger] lower_id(mods@[i]) is Some
                        implies !contains_any(lower_id(mods@[i])->0, heavy_ids()) by {
                        if i < n {
                        }
                    }
                }
            }
        }
    }
    if count > 120 {
        heavy_mods = true;
    }
    let mut shaders = false;
    for n in 0..shader_packs.len()
        invariant
            shaders == exists|i: int| 0 <= i < n && #[trigger] shader_packs@[i].enabled,
    {
        if shader_packs[n].enabled {
            shaders = true;
        }
    }
    let shaders = shaders || show_shader_tab;
    let typed: u32 = match parse_u32(render_distance_text) {
        Some(v) => v,
        None => 12,
    };
    let render_distance: u32 = if typed < 2 {
        2
    } else if typed > 32 {
        32
    } else {
        typed
    };
    let lower_loader = str_ascii_lower(loader.pretty_name());
    WorkloadProfile {
        name: to_owned(name),
        mc_version: to_owned(mc_version),
        loader: string_of(lower_loader.as_slice()),
        mod_count: count,
        allocated_ram_mb: match memory {
            Some(m) => if m.enabled {
                m.max
            } else {
                DEFAULT_MAX_MEMORY_MB
            },
            None => DEFAULT_MAX_MEMORY_MB,
        },
        render_distance,
        shaders,
        optimization_mods,
        heavy_mods,
    }
}

/// The paths under `mods/`.
pub open spec fn under_mods(files: Seq<String>) -> Seq<String> {
    files.filter(|f: String| starts_with(f@, "mods/"@))
}

proof fn lemma_count_mod_files(files: Seq<String>)
    ensures
        count_mod_files(files) == under_mods(files).len(),
    decreases files.len(),
{
    if files.len() > 0 {
        lemma_count_mod_files(files.drop_last());
        let p = |f: String| starts_with(f@, "mods/"@);
        assert(under_mods(files) == files.filter(p));
        assert(under_mods(files.drop_last()) == files.drop_last().filter(p));
        assert(files.drop_last().push(files.last()) =~= files);
        files.drop_last().lemma_filter_len_push(p, files.last());
    }
}

proof fn lemma_total_prefix(c: Seq<InstanceContentSummary>, s: InstanceContentSummary, n: int)
    requires
        0 <= n <= c.len(),
    ensures
        total_mods_in(c.push(s), n) == total_mods_in(c, n),
    decreases n,
{
    if n > 0 {
        lemma_total_prefix(c, s, n - 1);
        assert(c.push(s)[n - 1] == c[n - 1]);
    }
}

/// The mod count grows with each content file by what it holds: nothing for a disabled file; for
/// an enabled modpack, Modrinth or CurseForge alike, the number of its files under `mods/`; for
/// any other enabled file, one.
pub proof fn law_mod_count(c: Seq<InstanceContentSummary>, s: InstanceContentSummary)
    ensures
        !s.enabled ==> total_mods_in(c.push(s), c.len() + 1int) == total_mods_in(c, c.len() as int),
        (s.enabled && s.content_summary.extra is ModrinthModpack) ==> total_mods_in(c.push(s), c.len() + 1int)
            == total_mods_in(c, c.len() as int) + under_mods(s.content_summary.extra->ModrinthModpack_files@).len(),
        (s.enabled && s.content_summary.extra is CurseforgeModpack) ==> total_mods_in(c.push(s), c.len() + 1int)
            == total_mods_in(c, c.len() as int) + under_mods(s.content_summary.extra->CurseforgeModpack_files@).len(),
        (s.enabled && !(s.content_summary.extra is ModrinthModpack) && !(s.content_summary.extra is CurseforgeModpack))
            ==> total_mods_in(c.push(s), c.len() + 1int) == total_mods_in(c, c.len() as int) + 1,
        total_mods_in(Seq::empty(), 0) == 0,
{
    lemma_total_prefix(c, s, c.len() as int);
    assert(c.push(s)[c.len() as int] == s);
    match s.content_summary.extra {
        ContentKind::ModrinthModpack { files, .. } => lemma_count_mod_files(files@),
        ContentKind::CurseforgeModpack { files, .. } => lemma_count_mod_files(files@),
        _ => {},
    }
}

/// The render distance used is the one asked for, kept between 2 and 32 chunks.
pub proof fn law_render_distance(v: u32)
    ensures
        2 <= clamp_render_distance(v) <= 32,
        2 <= v <= 32 ==> clamp_render_distance(v) == v,
        v < 2 ==> clamp_render_distance(v) == 2,
        v > 32 ==> clamp_render_distance(v) == 32,
{
}

/// An instance is given its own maximum memory when its memory setting is on, and 4096 MB
/// otherwise.
pub proof fn law_allocated_memory(memory: Option<MemoryConfig>)
    ensures
        (memory is Some && memory->0.enabled) ==> allocated_memory(memory) == memory->0.max,
        !(memory is Some && memory->0.enabled) ==> allocated_memory(memory) == 4096,
{
}

} // verus!
