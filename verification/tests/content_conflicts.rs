use quartz_launcher::conflicts::{
    conflict_panel_count, detect_conflicts, format_filenames, ConflictMessage, ContentConflictReport,
};
use quartz_launcher::model::{
    ContentFolder, ContentKind, ContentSource, ContentSummary, InstanceContentSummary, Loader,
};

fn item(filename: &str, filename_hash: u64, enabled: bool) -> InstanceContentSummary {
    InstanceContentSummary {
        content_summary: ContentSummary {
            id: None,
            name: None,
            hash: [0; 20],
            filesize: None,
            mixin_targets: Vec::new(),
            extra: ContentKind::Unknown,
            is_unknown: false,
        },
        filename: filename.to_string(),
        filename_hash,
        modified_unix_ms: 0,
        enabled,
        content_source: ContentSource::Manual,
    }
}

fn with_id(mut s: InstanceContentSummary, id: &str) -> InstanceContentSummary {
    s.content_summary.id = Some(id.to_string());
    s
}

fn with_name(mut s: InstanceContentSummary, name: &str) -> InstanceContentSummary {
    s.content_summary.name = Some(name.to_string());
    s
}

fn entry<'a>(report: &'a ContentConflictReport, hash: u64) -> Option<&'a Vec<ConflictMessage>> {
    report.per_item.iter().find(|i| i.filename_hash == hash).map(|i| &i.messages)
}

#[test]
fn formats_filenames() {
    assert_eq!(format_filenames(&["a.jar".to_string(), "b.jar".to_string()]), "a.jar, b.jar");
    assert_eq!(format_filenames(&["a.jar".to_string()]), "a.jar");
    assert_eq!(format_filenames(&[]), "");
}

#[test]
fn duplicate_mod_ids_in_mods_folder() {
    let content = vec![
        with_id(item("sodium-1.jar", 1, true), "sodium"),
        with_id(item("sodium-2.jar", 2, true), "sodium"),
        with_id(item("sodium-old.jar", 3, false), "sodium"),
        with_id(item("lithium.jar", 4, true), "lithium"),
    ];
    let report = detect_conflicts(&content, ContentFolder::Mods, Loader::Fabric);
    assert_eq!(report.messages.len(), 1);
    match &report.messages[0] {
        ConflictMessage::DuplicateModId { mod_id, filenames } => {
            assert_eq!(mod_id, "sodium");
            assert_eq!(filenames, "sodium-1.jar, sodium-2.jar");
        },
        _ => panic!("expected a duplicate mod id"),
    }
    assert_eq!(entry(&report, 1).map(|m| m.len()), Some(1));
    assert_eq!(entry(&report, 2).map(|m| m.len()), Some(1));
    assert!(entry(&report, 3).is_none());
    assert!(entry(&report, 4).is_none());
    assert_eq!(conflict_panel_count(&report), Some(1));
}

#[test]
fn mod_ids_are_not_checked_outside_mods() {
    let content = vec![
        with_id(item("a.zip", 1, true), "pack"),
        with_id(item("b.zip", 2, true), "pack"),
    ];
    let report = detect_conflicts(&content, ContentFolder::ResourcePacks, Loader::Fabric);
    assert!(report.messages.is_empty());
    assert!(report.per_item.is_empty());
    assert_eq!(conflict_panel_count(&report), None);
}

#[test]
fn duplicate_projects() {
    let mut a = item("a.jar", 1, true);
    a.content_source = ContentSource::ModrinthProject { project_id: "AANobbMI".into() };
    let mut b = item("b.jar", 2, true);
    b.content_source = ContentSource::ModrinthProject { project_id: "AANobbMI".into() };
    let mut c = item("c.jar", 3, true);
    c.content_source = ContentSource::CurseforgeProject { project_id: 394468 };
    let mut d = item("d.jar", 4, true);
    d.content_source = ContentSource::CurseforgeProject { project_id: 394468 };
    let report = detect_conflicts(&[a, b, c, d], ContentFolder::Shaders, Loader::Vanilla);
    assert_eq!(report.messages.len(), 2);
    assert!(matches!(
        &report.messages[0],
        ConflictMessage::DuplicateModrinthProject { project_id, filenames }
            if project_id == "AANobbMI" && filenames == "a.jar, b.jar"
    ));
    assert!(matches!(
        &report.messages[1],
        ConflictMessage::DuplicateCurseforgeProject { project_id: 394468, filenames } if filenames == "c.jar, d.jar"
    ));
}

#[test]
fn duplicate_files_by_hash() {
    let mut a = item("a.jar", 1, true);
    a.content_summary.hash = [7; 20];
    let mut b = item("b.jar", 2, true);
    b.content_summary.hash = [7; 20];
    let mut zero_a = item("z1.jar", 3, true);
    zero_a.content_summary.hash = [0; 20];
    let mut zero_b = item("z2.jar", 4, true);
    zero_b.content_summary.hash = [0; 20];
    let mut unknown_a = item("u1.jar", 5, true);
    unknown_a.content_summary.hash = [9; 20];
    unknown_a.content_summary.is_unknown = true;
    let mut unknown_b = item("u2.jar", 6, true);
    unknown_b.content_summary.hash = [9; 20];
    unknown_b.content_summary.is_unknown = true;
    let mut disabled = item("c.jar", 7, false);
    disabled.content_summary.hash = [7; 20];
    let report = detect_conflicts(
        &[a, b, zero_a, zero_b, unknown_a, unknown_b, disabled],
        ContentFolder::ResourcePacks,
        Loader::Vanilla,
    );
    assert_eq!(report.messages.len(), 1);
    assert!(matches!(&report.messages[0], ConflictMessage::DuplicateFile { filenames } if filenames == "a.jar, b.jar"));
}

#[test]
fn duplicate_names_need_two_filenames() {
    let a = with_name(item("a.jar", 1, true), "Sodium");
    let b = with_name(item("b.jar", 2, true), "Sodium");
    let report = detect_conflicts(&[a, b], ContentFolder::Shaders, Loader::Vanilla);
    assert_eq!(report.messages.len(), 1);
    assert!(matches!(
        &report.messages[0],
        ConflictMessage::DuplicateName { name, filenames } if name == "Sodium" && filenames == "a.jar, b.jar"
    ));
    let c = with_name(item("same.jar", 1, true), "Sodium");
    let d = with_name(item("same.jar", 2, true), "Sodium");
    let report = detect_conflicts(&[c, d], ContentFolder::Shaders, Loader::Vanilla);
    assert!(report.messages.is_empty());
}

#[test]
fn loader_mismatches() {
    let mut forge_mod = item("forge-mod.jar", 1, true);
    forge_mod.content_summary.extra = ContentKind::Forge;
    let mut fabric_mod = item("fabric-mod.jar", 2, true);
    fabric_mod.content_summary.extra = ContentKind::Fabric;
    let mut disabled = item("old.jar", 3, false);
    disabled.content_summary.extra = ContentKind::NeoForge;
    let report = detect_conflicts(&[forge_mod, fabric_mod, disabled], ContentFolder::Mods, Loader::Fabric);
    assert_eq!(report.messages.len(), 1);
    match &report.messages[0] {
        ConflictMessage::LoaderMismatch { filename, expected_loader, instance_loader } => {
            assert_eq!(filename, "forge-mod.jar");
            assert_eq!(expected_loader, "Forge");
            assert_eq!(instance_loader, "Fabric");
        },
        _ => panic!("expected a loader mismatch"),
    }
    assert_eq!(entry(&report, 1).map(|m| m.len()), Some(1));
    let mut legacy = item("legacy.jar", 4, true);
    legacy.content_summary.extra = ContentKind::LegacyForge;
    let report = detect_conflicts(&[legacy], ContentFolder::Mods, Loader::NeoForge);
    assert!(report.messages.is_empty());
}

#[test]
fn mixin_conflicts_only_on_fabric() {
    let mut a = item("a.jar", 1, true);
    a.content_summary.mixin_targets = vec!["net.minecraft.Screen".into(), "net.minecraft.Other".into()];
    let mut b = item("b.jar", 2, true);
    b.content_summary.mixin_targets = vec!["net.minecraft.Screen".into()];
    let mut c = item("c.jar", 3, false);
    c.content_summary.mixin_targets = vec!["net.minecraft.Other".into()];
    let content = vec![a, b, c];
    let report = detect_conflicts(&content, ContentFolder::Mods, Loader::Fabric);
    assert_eq!(report.messages.len(), 1);
    assert!(matches!(
        &report.messages[0],
        ConflictMessage::MixinTarget { target, filenames } if target == "net.minecraft.Screen" && filenames == "a.jar, b.jar"
    ));
    let report = detect_conflicts(&content, ContentFolder::Mods, Loader::Forge);
    assert!(report.messages.is_empty());
}

#[test]
fn each_file_lists_all_its_conflicts() {
    let mut a = with_id(item("a.jar", 1, true), "dup");
    a.content_summary.extra = ContentKind::Forge;
    let mut b = with_id(item("b.jar", 2, true), "dup");
    b.content_summary.extra = ContentKind::Fabric;
    let report = detect_conflicts(&[a, b], ContentFolder::Mods, Loader::Fabric);
    assert_eq!(report.messages.len(), 2);
    let first = entry(&report, 1).unwrap();
    assert_eq!(first.len(), 2);
    assert!(matches!(first[0], ConflictMessage::DuplicateModId { .. }));
    assert!(matches!(first[1], ConflictMessage::LoaderMismatch { .. }));
    assert_eq!(entry(&report, 2).unwrap().len(), 1);
}
