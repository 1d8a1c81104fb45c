use quartz_launcher::discord::{
    encode_frame, resolve_application_id, set_idle, set_playing, ActivityStep, DiscordRpcState, DEFAULT_APPLICATION_ID,
};
use quartz_launcher::model::{ContentFolder, ContentKind, ContentSummary, Loader};
use quartz_launcher::modpack_import::{
    classify_modpack_folder, detect_loader_from_filename, detect_version_from_mod_jar, extracted_import_name,
    indexed_import_dirty_folders, loader_and_version_from_summary, mods_toml_version, plan_extracted_import,
    plan_indexed_import, resolve_dot_minecraft_source, synthetic_instance_content_summary, DotMinecraftSource,
    FolderProbe, ImportError, JarText, LauncherConfig, LoaderDetection, ModpackFolderKind, ModpackFolderProbe,
};

fn summary(name: Option<&str>, extra: ContentKind) -> ContentSummary {
    ContentSummary {
        id: None,
        name: name.map(|n| n.to_string()),
        hash: [0; 20],
        filesize: None,
        mixin_targets: Vec::new(),
        extra,
        is_unknown: false,
    }
}

fn probe(dot: bool, mc: bool, own: bool) -> FolderProbe {
    FolderProbe { dot_minecraft_has_mods: dot, minecraft_has_mods: mc, has_mods: own }
}

#[test]
fn resolves_game_files() {
    assert_eq!(resolve_dot_minecraft_source(&probe(true, true, true)), Ok(DotMinecraftSource::DotMinecraft));
    assert_eq!(resolve_dot_minecraft_source(&probe(false, true, true)), Ok(DotMinecraftSource::Minecraft));
    assert_eq!(resolve_dot_minecraft_source(&probe(false, false, true)), Ok(DotMinecraftSource::Folder));
    assert_eq!(resolve_dot_minecraft_source(&probe(false, false, false)), Err(ImportError::NoGameFiles));
}

#[test]
fn classifies_modpack_folders() {
    let p = |modrinth, curseforge| ModpackFolderProbe {
        has_modrinth_index: modrinth,
        has_curseforge_manifest: curseforge,
        other_launcher: None,
        folders: probe(false, false, false),
    };
    assert!(matches!(classify_modpack_folder(p(true, true)), Ok(ModpackFolderKind::Modrinth)));
    assert!(matches!(classify_modpack_folder(p(false, true)), Ok(ModpackFolderKind::Curseforge)));
    assert!(matches!(classify_modpack_folder(p(false, false)), Err(ImportError::NoGameFiles)));
    let extracted = ModpackFolderProbe {
        has_modrinth_index: false,
        has_curseforge_manifest: false,
        other_launcher: Some(LauncherConfig { loader: Loader::Forge, minecraft_version: "1.20.1".into() }),
        folders: probe(false, true, false),
    };
    match classify_modpack_folder(extracted) {
        Ok(ModpackFolderKind::Extracted { dot_minecraft_source, configuration }) => {
            assert_eq!(dot_minecraft_source, DotMinecraftSource::Minecraft);
            assert_eq!(configuration.map(|c| c.loader), Some(Loader::Forge));
        },
        _ => panic!("expected an extracted folder"),
    }
}

#[test]
fn loader_and_version_of_modpacks() {
    let deps = vec![
        ("minecraft".to_string(), "1.21.1".to_string()),
        ("forge".to_string(), "52".to_string()),
        ("fabric-loader".to_string(), "0.16".to_string()),
    ];
    let s = summary(Some("Pack"), ContentKind::ModrinthModpack { dependencies: deps, files: vec![] });
    assert_eq!(loader_and_version_from_summary(&s), Some((Loader::Fabric, "1.21.1".to_string())));
    let no_version = summary(
        None,
        ContentKind::ModrinthModpack { dependencies: vec![("neoforge".into(), "21".into())], files: vec![] },
    );
    assert_eq!(loader_and_version_from_summary(&no_version), None);
    let vanilla = summary(
        None,
        ContentKind::ModrinthModpack { dependencies: vec![("minecraft".into(), "1.8.9".into())], files: vec![] },
    );
    assert_eq!(loader_and_version_from_summary(&vanilla), Some((Loader::Vanilla, "1.8.9".to_string())));
    let cf = summary(
        None,
        ContentKind::CurseforgeModpack { loader: Some(Loader::NeoForge), minecraft_version: Some("1.21".into()), files: vec![] },
    );
    assert_eq!(loader_and_version_from_summary(&cf), Some((Loader::NeoForge, "1.21".to_string())));
    let cf_missing = summary(
        None,
        ContentKind::CurseforgeModpack { loader: None, minecraft_version: Some("1.21".into()), files: vec![] },
    );
    assert_eq!(loader_and_version_from_summary(&cf_missing), None);
    assert_eq!(loader_and_version_from_summary(&summary(None, ContentKind::Fabric)), None);
}

#[test]
fn loaders_from_file_names() {
    assert_eq!(detect_loader_from_filename("fabric-loader-0.16.jar"), Some(Loader::Fabric));
    assert_eq!(detect_loader_from_filename("fabricloader.jar"), Some(Loader::Fabric));
    assert_eq!(detect_loader_from_filename("neoforge-21.jar"), Some(Loader::NeoForge));
    assert_eq!(detect_loader_from_filename("forge-1.20.1.jar"), Some(Loader::Forge));
    assert_eq!(detect_loader_from_filename("sodium.jar"), None);
}

#[test]
fn versions_from_mods_toml() {
    let toml = "modLoader=\"javafml\"\r\n[[dependencies.x]]\n  minecraft = \"\"\n  minecraft = \"[1.20.1, 1.21)\"\n";
    assert_eq!(mods_toml_version(toml).as_deref(), Some("[1.20.1"));
    assert_eq!(mods_toml_version("minecraft = \"1.19.2\"").as_deref(), Some("1.19.2"));
    assert_eq!(mods_toml_version("versionRange = \"[1.20]\""), None);
    assert_eq!(mods_toml_version(""), None);
}

#[test]
fn versions_from_mod_jars() {
    let toml = JarText::Text("minecraft = \"1.20.1\"\n".into());
    assert_eq!(detect_version_from_mod_jar(&JarText::Absent, &toml).as_deref(), Some("1.20.1"));
    assert_eq!(
        detect_version_from_mod_jar(&JarText::Text("{\"id\": \"mymod\"}".into()), &toml).as_deref(),
        Some("1.20.1")
    );
    assert_eq!(detect_version_from_mod_jar(&JarText::Text("{\"id\": \"fabricloader\"}".into()), &toml), None);
    assert_eq!(detect_version_from_mod_jar(&JarText::Text("not json".into()), &toml), None);
    assert_eq!(detect_version_from_mod_jar(&JarText::Unreadable, &toml), None);
    assert_eq!(detect_version_from_mod_jar(&JarText::Absent, &JarText::Absent), None);
    assert_eq!(detect_version_from_mod_jar(&JarText::Text("{\"id\": 5}".into()), &toml).as_deref(), Some("1.20.1"));
}

#[test]
fn loader_detection_over_files() {
    let mut d = LoaderDetection::new();
    d.observe_file_name("sodium.jar");
    assert!(d.wants_version());
    d.observe_version(None);
    d.observe_file_name("forge-1.20.1-47.jar");
    d.observe_version(Some("1.20.1".into()));
    d.observe_file_name("fabric-loader.jar");
    d.observe_version(Some("1.19".into()));
    assert!(d.is_done());
    assert_eq!(d.result(), Some((Loader::Forge, "1.20.1".to_string())));
    assert_eq!(LoaderDetection::new().result(), None);
}

#[test]
fn import_plans() {
    assert_eq!(plan_indexed_import(None).err(), Some(ImportError::NoMetadata));
    let unnamed = summary(None, ContentKind::Unknown);
    assert_eq!(plan_indexed_import(Some(&unnamed)).err(), Some(ImportError::NoName));
    let no_loader = summary(Some("Pack"), ContentKind::Unknown);
    assert_eq!(plan_indexed_import(Some(&no_loader)).err(), Some(ImportError::NoLoaderOrVersion));
    let ok = summary(
        Some("Pack"),
        ContentKind::CurseforgeModpack { loader: Some(Loader::Forge), minecraft_version: Some("1.20.1".into()), files: vec![] },
    );
    let plan = plan_indexed_import(Some(&ok)).ok().unwrap();
    assert_eq!(plan.name, "Pack");
    assert_eq!(plan.loader, Loader::Forge);
    assert_eq!(plan.minecraft_version, "1.20.1");
    assert_eq!(extracted_import_name(None), "Imported Modpack");
    assert_eq!(extracted_import_name(Some("MyPack".into())), "MyPack");
    let from_config = plan_extracted_import(
        "P".into(),
        Some(LauncherConfig { loader: Loader::Fabric, minecraft_version: "1.21".into() }),
        Some((Loader::Forge, "1.0".into())),
    )
    .ok()
    .unwrap();
    assert_eq!(from_config.loader, Loader::Fabric);
    let detected = plan_extracted_import("P".into(), None, Some((Loader::Forge, "1.0".into()))).ok().unwrap();
    assert_eq!(detected.minecraft_version, "1.0");
    assert_eq!(plan_extracted_import("P".into(), None, None).err(), Some(ImportError::Undetected));
    assert_eq!(indexed_import_dirty_folders(false, true), vec![ContentFolder::Mods, ContentFolder::Shaders]);
    assert_eq!(indexed_import_dirty_folders(false, false), vec![ContentFolder::Mods]);
}

#[test]
fn synthetic_summaries() {
    let s = summary(Some("Pack"), ContentKind::Unknown);
    let synthetic = synthetic_instance_content_summary(s, None);
    assert_eq!(synthetic.summary.filename, "modpack-folder");
    assert_eq!(synthetic.update_loader, Loader::Vanilla);
    assert_eq!(synthetic.update_version, "unknown");
    assert!(synthetic.summary.enabled);
    let with_deps = summary(
        None,
        ContentKind::ModrinthModpack { dependencies: vec![("minecraft".into(), "1.20".into())], files: vec![] },
    );
    let synthetic = synthetic_instance_content_summary(with_deps, Some("folder".into()));
    assert_eq!(synthetic.summary.filename, "folder");
    assert_eq!(synthetic.update_version, "1.20");
}

#[test]
fn application_ids() {
    assert_eq!(resolve_application_id(Some("  123 "), Some("456")).as_deref(), Some("123"));
    assert_eq!(resolve_application_id(Some("   "), Some("456\n")).as_deref(), Some("456"));
    assert_eq!(resolve_application_id(None, None).as_deref(), Some(DEFAULT_APPLICATION_ID));
    assert_eq!(DEFAULT_APPLICATION_ID, "1522327079381631067");
}

#[test]
fn activities() {
    let idle = set_idle();
    assert_eq!(idle.details, "Quartz Launcher");
    assert_eq!(idle.state, "In the launcher");
    let playing = set_playing("My Pack", "Fabric", "1.21.1");
    assert_eq!(playing.details, "Fabric · 1.21.1");
    assert_eq!(playing.state, "My Pack");
}

#[test]
fn frames() {
    let frame = encode_frame(1, b"{}");
    assert_eq!(frame, vec![1, 0, 0, 0, 2, 0, 0, 0, b'{', b'}']);
    let big = vec![0u8; 300];
    let frame = encode_frame(0x01020304, &big);
    assert_eq!(&frame[..8], &[4, 3, 2, 1, 44, 1, 0, 0]);
    assert_eq!(frame.len(), 308);
}

#[test]
fn connection_steps() {
    let mut s = DiscordRpcState::new(Some("42".into()));
    assert!(matches!(s.next_step(), ActivityStep::Connect { client_id } if client_id == "42"));
    assert!(!s.handshake_done(false));
    assert!(!s.connected);
    assert!(s.handshake_done(true));
    assert!(matches!(s.next_step(), ActivityStep::Send));
    s.activity_sent(true);
    assert!(s.connected);
    s.activity_sent(false);
    assert!(!s.connected);
    let none = DiscordRpcState::new(None);
    assert!(matches!(none.next_step(), ActivityStep::Skip));
}
