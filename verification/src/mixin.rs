//! Which classes a Fabric mod's mixins target: the mixin configuration files it names, the
//! mixin classes those list, and the classes their `@Mixin` annotations target.
use vstd::prelude::*;

use crate::names::{insert_all, insert_string, lemma_insert_all_concat, texts};
use crate::text::{
    chars_of, concat, ends_with, has_char, replace_char, slice_has_char, slice_occurs_at,
    slice_replace_char, slice_trim_matches, string_of, to_owned, trim_matches_char,
};

verus! {

/// A field of a JSON object, as far as mixin lists read it.
pub enum JsonField {
    Absent,
    NotText,
    Text(String),
}

/// One entry of a mixin list: a plain string, an object (read through its `name` or `config`
/// field), or any other JSON value.
pub enum JsonEntry {
    Text(String),
    Object { name: JsonField, config: JsonField },
    Other,
}

/// The parts of a `*.mixins.json` configuration that name mixin classes.
pub struct MixinConfig {
    pub package: Option<String>,
    pub mixins: Option<Vec<JsonEntry>>,
    pub client: Option<Vec<JsonEntry>>,
    pub server: Option<Vec<JsonEntry>>,
}

/// An entry of a mod archive.
pub struct ArchiveEntry {
    pub name: String,
    pub is_file: bool,
}

/// `mixin_entry_name`: a string entry, or an object's `name` (falling back to `config` only
/// when `name` is absent) when that is a string.
pub open spec fn spec_entry_name(e: JsonEntry) -> Option<Seq<char>> {
    match e {
        JsonEntry::Text(s) => Some(s@),
        JsonEntry::Object { name, config } => match name {
            JsonField::Text(s) => Some(s@),
            JsonField::NotText => None,
            JsonField::Absent => match config {
                JsonField::Text(s) => Some(s@),
                _ => None,
            },
        },
        JsonEntry::Other => None,
    }
}

/// The package prefix: the package with surrounding dots removed and its other dots turned
/// into slashes (the archive path of the package), then `/`; or nothing.
pub open spec fn package_prefix(package: Option<String>) -> Seq<char> {
    let p = match package {
        Some(s) => replace_char(trim_matches_char(s@, '.'), '.', '/'),
        None => Seq::empty(),
    };
    if p.len() == 0 {
        Seq::empty()
    } else {
        p + seq!['/']
    }
}

/// The class an entry name stands for: a qualified name (one with `/`, or with `.` and no `$`)
/// with dots turned into slashes, otherwise the name under the package.
pub open spec fn entry_class(name: Seq<char>, prefix: Seq<char>) -> Seq<char> {
    if has_char(name, '/') || (has_char(name, '.') && !has_char(name, '$')) {
        replace_char(name, '.', '/')
    } else {
        prefix + name
    }
}

/// The classes a mixin list names, in order.
pub open spec fn list_classes(entries: Seq<JsonEntry>, prefix: Seq<char>) -> Seq<Seq<char>>
    decreases entries.len(),
{
    if entries.len() == 0 {
        Seq::empty()
    } else {
        let rest = list_classes(entries.drop_last(), prefix);
        match spec_entry_name(entries.last()) {
            Some(n) => rest.push(entry_class(n, prefix)),
            None => rest,
        }
    }
}

pub open spec fn opt_list_classes(list: Option<Vec<JsonEntry>>, prefix: Seq<char>) -> Seq<
    Seq<char>,
> {
    match list {
        Some(v) => list_classes(v@, prefix),
        None => Seq::empty(),
    }
}

/// The classes a configuration names: its `mixins`, then `client`, then `server` lists.
pub open spec fn config_classes(c: MixinConfig) -> Seq<Seq<char>> {
    let prefix = package_prefix(c.package);
    opt_list_classes(c.mixins, prefix) + opt_list_classes(c.client, prefix) + opt_list_classes(
        c.server,
        prefix,
    )
}

/// The string entries of the `mixins` list of `fabric.mod.json`.
pub open spec fn fabric_config_paths(entries: Seq<JsonEntry>) -> Seq<Seq<char>>
    decreases entries.len(),
{
    if entries.len() == 0 {
        Seq::empty()
    } else {
        let rest = fabric_config_paths(entries.drop_last());
        match entries.last() {
            JsonEntry::Text(s) => rest.push(s@),
            _ => rest,
        }
    }
}

/// Archive files whose names end in `.mixins.json`.
pub open spec fn archive_config_paths(entries: Seq<ArchiveEntry>) -> Seq<Seq<char>>
    decreases entries.len(),
{
    if entries.len() == 0 {
        Seq::empty()
    } else {
        let rest = archive_config_paths(entries.drop_last());
        let e = entries.last();
        if e.is_file && ends_with(e.name@, ".mixins.json"@) {
            rest.push(e.name@)
        } else {
            rest
        }
    }
}

/// All mixin configuration paths, each once: those `fabric.mod.json` lists, then those found
/// in the archive.
pub open spec fn spec_config_paths(fabric: Option<Vec<JsonEntry>>, archive: Seq<ArchiveEntry>) -> Seq<
    Seq<char>,
> {
    let listed = match fabric {
        Some(v) => fabric_config_paths(v@),
        None => Seq::empty(),
    };
    insert_all(insert_all(Seq::empty(), listed), archive_config_paths(archive))
}

/// `mixin_entry_name`.
pub fn mixin_entry_name(entry: &JsonEntry) -> (res: Option<&String>)
    ensures
        match spec_entry_name(*entry) {
            Some(n) => res matches Some(r) && r@ == n,
            None => res is None,
        },
{
    match entry {
        JsonEntry::Text(name) => Some(name),
        JsonEntry::Object { name, config } => match name {
            JsonField::Text(s) => Some(s),
            JsonField::NotText => None,
            JsonField::Absent => match config {
                JsonField::Text(s) => Some(s),
                _ => None,
            },
        },
        JsonEntry::Other => None,
    }
}

/// The class a mixin entry name stands for under the given package prefix.
pub fn mixin_class_name(name: &str, prefix: &str) -> (res: String)
    ensures
        res@ == entry_class(name@, prefix@),
{
    let n = chars_of(name);
    if slice_has_char(n.as_slice(), '/') || (slice_has_char(n.as_slice(), '.') && !slice_has_char(
        n.as_slice(),
        '$',
    )) {
        let r = slice_replace_char(n.as_slice(), '.', '/');
        string_of(r.as_slice())
    } else {
        concat(prefix, name)
    }
}

/// The package prefix of a configuration.
pub fn mixin_package_prefix(package: &Option<String>) -> (res: String)
    ensures
        res@ == package_prefix(*package),
{
    let p = match package {
        Some(s) => {
            let c = chars_of(s.as_str());
            let t = slice_trim_matches(c.as_slice(), '.');
            slice_replace_char(t.as_slice(), '.', '/')
        },
        None => Vec::new(),
    };
    if p.len() == 0 {
        String::new()
    } else {
        let s = string_of(p.as_slice());
        proof {
            reveal_strlit("/");
        }
        concat(s.as_str(), "/")
    }
}

fn collect_list(list: &Option<Vec<JsonEntry>>, prefix: &String, out: &mut Vec<String>)
    ensures
        texts(final(out)@) == insert_all(texts(old(out)@), opt_list_classes(*list, prefix@)),
{
    let ghost start = texts(out@);
    match list {
        None => {},
        Some(entries) => {
            for i in 0..entries.len()
                invariant
                    texts(out@) == insert_all(start, list_classes(entries@.take(i as int), prefix@)),
            {
                assert(entries@.take(i + 1).drop_last() =~= entries@.take(i as int));
                assert(entries@.take(i + 1).last() == entries@[i as int]);
                match mixin_entry_name(&entries[i]) {
                    Some(name) => {
                        let class_name = mixin_class_name(name.as_str(), prefix.as_str());
                        insert_string(out, class_name);
                        let ghost t = list_classes(entries@.take(i as int), prefix@);
                        assert(t.push(class_name@).drop_last() =~= t);
                    },
                    None => {},
                }
            }
            assert(entries@.take(entries@.len() as int) =~= entries@);
        },
    }
}

/// `collect_mixin_classes_from_config`: adds to `out` every class a configuration names
/// (nothing when the configuration did not parse).
pub fn collect_mixin_classes_from_config(config: &Option<MixinConfig>, out: &mut Vec<String>)
    ensures
        match *config {
            Some(c) => texts(final(out)@) == insert_all(texts(old(out)@), config_classes(c)),
            None => final(out)@ == old(out)@,
        },
{
    match config {
        None => {},
        Some(c) => {
            let ghost start = texts(out@);
            let prefix = mixin_package_prefix(&c.package);
            collect_list(&c.mixins, &prefix, out);
            collect_list(&c.client, &prefix, out);
            collect_list(&c.server, &prefix, out);
            proof {
                let a = opt_list_classes(c.mixins, prefix@);
                let b = opt_list_classes(c.client, prefix@);
                let d = opt_list_classes(c.server, prefix@);
                lemma_insert_all_concat(start, a, b);
                lemma_insert_all_concat(start, a + b, d);
            }
        },
    }
}

/// The mixin configuration files to read: those `fabric.mod.json` lists, then every archive file
/// named `*.mixins.json`, each once.
pub fn mixin_config_paths(fabric_mixins: &Option<Vec<JsonEntry>>, archive: &Vec<ArchiveEntry>) -> (res:
    Vec<String>)
    ensures
        texts(res@) == spec_config_paths(*fabric_mixins, archive@),
{
    let mut out: Vec<String> = Vec::new();
    match fabric_mixins {
        Some(entries) => {
            for i in 0..entries.len()
                invariant
                    texts(out@) == insert_all(Seq::empty(), fabric_config_paths(entries@.take(i as int))),
            {
                assert(entries@.take(i + 1).drop_last() =~= entries@.take(i as int));
                assert(entries@.take(i + 1).last() == entries@[i as int]);
                match &entries[i] {
                    JsonEntry::Text(path) => {
                        let p = to_owned(path.as_str());
                        insert_string(&mut out, p);
                        let ghost t = fabric_config_paths(entries@.take(i as int));
                        assert(t.push(p@).drop_last() =~= t);
                    },
                    _ => {},
                }
            }
            assert(entries@.take(entries@.len() as int) =~= entries@);
        },
        None => {
            assert(texts(out@) =~= Seq::empty());
        },
    }
    let ghost after = texts(out@);
    let suffix = chars_of(".mixins.json");
    for i in 0..archive.len()
        invariant
            suffix@ == ".mixins.json"@,
            texts(out@) == insert_all(after, archive_config_paths(archive@.take(i as int))),
    {
        assert(archive@.take(i + 1).drop_last() =~= archive@.take(i as int));
        assert(archive@.take(i + 1).last() == archive@[i as int]);
        let entry = &archive[i];
        if entry.is_file {
            let name = chars_of(entry.name.as_str());
            let nl = name.len();
            let sl = suffix.len();
            if nl >= sl && slice_occurs_at(name.as_slice(), suffix.as_slice(), nl - sl) {
                let p = to_owned(entry.name.as_str());
                insert_string(&mut out, p);
                let ghost t = archive_config_paths(archive@.take(i as int));
                assert(t.push(p@).drop_last() =~= t);
            }
        }
    }
    assert(archive@.take(archive@.len() as int) =~= archive@);
    out
}

/// The archive path of a class: its name followed by `.class`.
pub fn class_file_path(class_name: &str) -> (res: String)
    ensures
        res@ == class_name@ + ".class"@,
{
    concat(class_name, ".class")
}

/// The classes the configurations name, in order (configurations that did not parse name
/// none).
pub open spec fn configs_classes(configs: Seq<Option<MixinConfig>>) -> Seq<Seq<char>>
    decreases configs.len(),
{
    if configs.len() == 0 {
        Seq::empty()
    } else {
        configs_classes(configs.drop_last()) + match configs.last() {
            Some(c) => config_classes(c),
            None => Seq::empty(),
        }
    }
}

/// Every mixin class the configurations name, each once.
pub fn mixin_classes_of_configs(configs: &Vec<Option<MixinConfig>>) -> (res: Vec<String>)
    ensures
        texts(res@) == insert_all(Seq::empty(), configs_classes(configs@)),
{
    let mut out: Vec<String> = Vec::new();
    for i in 0..configs.len()
        invariant
            texts(out@) == insert_all(Seq::empty(), configs_classes(configs@.take(i as int))),
    {
        let ghost before = configs_classes(configs@.take(i as int));
        assert(configs@.take(i + 1).drop_last() =~= configs@.take(i as int));
        collect_mixin_classes_from_config(&configs[i], &mut out);
        proof {
            let add = match configs@[i as int] {
                Some(c) => config_classes(c),
                None => Seq::empty(),
            };
            lemma_insert_all_concat(Seq::empty(), before, add);
            if configs@[i as int] is None {
                assert(before + add =~= before);
            }
        }
    }
    assert(configs@.take(configs@.len() as int) =~= configs@);
    out
}

/// The classes the class files' `@Mixin` annotations target, in order.
pub open spec fn files_targets(files: Seq<Vec<u8>>) -> Seq<Seq<char>>
    decreases files.len(),
{
    if files.len() == 0 {
        Seq::empty()
    } else {
        files_targets(files.drop_last()) + crate::classfile::spec_class_targets(files.last()@)
    }
}

/// The classes mixin class files target: each once, sorted by code point.
pub fn sorted_mixin_targets(class_files: &Vec<Vec<u8>>) -> (res: Vec<String>)
    ensures
        crate::names::strictly_sorted(texts(res@)),
        texts(res@).to_set() == files_targets(class_files@).to_set(),
{
    let mut targets: Vec<String> = Vec::new();
    for i in 0..class_files.len()
        invariant
            texts(targets@) == insert_all(Seq::empty(), files_targets(class_files@.take(i as int))),
    {
        let ghost before = files_targets(class_files@.take(i as int));
        assert(class_files@.take(i + 1).drop_last() =~= class_files@.take(i as int));
        crate::classfile::collect_mixin_targets_from_class(class_files[i].as_slice(), &mut targets);
        proof {
            lemma_insert_all_concat(
                Seq::empty(),
                before,
                crate::classfile::spec_class_targets(class_files@[i as int]@),
            );
        }
    }
    assert(class_files@.take(class_files@.len() as int) =~= class_files@);
    proof {
        let all = files_targets(class_files@);
        crate::names::lemma_insert_all_distinct(Seq::empty(), all);
        assert(Seq::<Seq<char>>::empty().to_set().union(all.to_set()) =~= all.to_set());
    }
    crate::names::sort_texts(&targets)
}

} // verus!
