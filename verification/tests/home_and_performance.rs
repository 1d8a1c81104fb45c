use quartz_launcher::home::{
    aggregate_stats, fallback_icon_path, hit_cards, home_layout, home_sections, loader_and_version, recent_skins,
    show_skin_hint, CardTarget, HomeLayout, HomeSection, InstanceStats, RecommendationCard, SkinChoice,
};
use quartz_launcher::model::{
    ContentKind, ContentSource, ContentSummary, InstanceContentSummary, Loader, ModrinthHit, ModrinthProjectType,
};
use quartz_launcher::recommendations::RecommendedContentKind;
use quartz_launcher::time_format::{format_last_played, format_playtime, last_played_at, LastPlayed};
use quartz_launcher::workload::{parse_u32, workload, MemoryConfig, DEFAULT_MAX_MEMORY_MB};

#[test]
fn playtime_labels() {
    assert_eq!(format_playtime(0), "0s");
    assert_eq!(format_playtime(59), "59s");
    assert_eq!(format_playtime(61), "1m 1s");
    assert_eq!(format_playtime(3600), "1h 0m");
    assert_eq!(format_playtime(3 * 3600 + 25 * 60 + 7), "3h 25m");
    assert_eq!(format_playtime(u64::MAX), "5124095576030431h 0m");
}

#[test]
fn last_played_labels() {
    let now: i64 = 1_700_000_000_000;
    assert!(matches!(last_played_at(None, now), LastPlayed::Never));
    assert!(matches!(last_played_at(Some(0), now), LastPlayed::Never));
    assert!(matches!(last_played_at(Some(-5), now), LastPlayed::Never));
    assert!(matches!(last_played_at(Some(i64::MAX), now), LastPlayed::Never));
    assert!(matches!(last_played_at(Some(now - 59_999), now), LastPlayed::JustNow));
    assert!(matches!(last_played_at(Some(now + 500_000), now), LastPlayed::JustNow));
    assert!(matches!(last_played_at(Some(now - 60_000), now), LastPlayed::MinutesAgo(1)));
    assert!(matches!(last_played_at(Some(now - 3_599_999), now), LastPlayed::MinutesAgo(59)));
    assert!(matches!(last_played_at(Some(now - 7_200_000), now), LastPlayed::HoursAgo(2)));
    assert!(matches!(last_played_at(Some(now - 86_400_000 * 3), now), LastPlayed::DaysAgo(3)));
    match last_played_at(Some(1_609_459_200_000), now) {
        LastPlayed::Date(d) => assert_eq!(d, "Jan 01, 2021"),
        _ => panic!("expected a date"),
    }
    assert!(matches!(format_last_played(Some(1_609_459_200_000)), LastPlayed::Date(_)));
    assert!(matches!(format_last_played(None), LastPlayed::Never));
}

#[test]
fn parses_numbers_like_std() {
    for text in ["12", "+7", "0", "4294967295", "", "+", "-1", " 3", "3 ", "4294967296", "1_0", "99999999999999999999"] {
        assert_eq!(parse_u32(text), text.parse::<u32>().ok(), "{text}");
    }
}

fn summary(id: Option<&str>, enabled: bool, extra: ContentKind) -> InstanceContentSummary {
    InstanceContentSummary {
        content_summary: ContentSummary {
            id: id.map(|s| s.to_string()),
            name: None,
            hash: [0; 20],
            filesize: None,
            mixin_targets: Vec::new(),
            extra,
            is_unknown: false,
        },
        filename: "f.jar".to_string(),
        filename_hash: 0,
        modified_unix_ms: 0,
        enabled,
        content_source: ContentSource::Manual,
    }
}

#[test]
fn workload_of_an_instance() {
    let pack = ContentKind::ModrinthModpack {
        dependencies: vec![],
        files: vec!["mods/a.jar".into(), "mods/b.jar".into(), "config/x.toml".into()],
    };
    let mods = vec![
        summary(Some("Sodium"), true, ContentKind::Fabric),
        summary(Some("create"), false, ContentKind::Forge),
        summary(None, true, pack),
    ];
    let shaders = vec![summary(None, false, ContentKind::ShaderPack)];
    let w = workload("My Pack", Loader::NeoForge, "1.21.1", None, &mods, &shaders, false, "40");
    assert_eq!(w.name, "My Pack");
    assert_eq!(w.loader, "neoforge");
    assert_eq!(w.mod_count, 3);
    assert_eq!(w.allocated_ram_mb, DEFAULT_MAX_MEMORY_MB);
    assert_eq!(w.render_distance, 32);
    assert!(!w.shaders);
    assert!(w.optimization_mods);
    assert!(!w.heavy_mods);
    let w = workload(
        "x",
        Loader::Fabric,
        "1.20",
        Some(MemoryConfig { enabled: true, max: 8192 }),
        &mods,
        &shaders,
        true,
        "abc",
    );
    assert_eq!(w.allocated_ram_mb, 8192);
    assert_eq!(w.render_distance, 12);
    assert!(w.shaders);
    let w = workload("x", Loader::Fabric, "1.20", Some(MemoryConfig { enabled: false, max: 8192 }), &[], &[], false, "1");
    assert_eq!(w.allocated_ram_mb, DEFAULT_MAX_MEMORY_MB);
    assert_eq!(w.render_distance, 2);
    assert_eq!(w.mod_count, 0);
}

#[test]
fn many_mods_are_heavy() {
    let mods: Vec<_> = (0..121).map(|_| summary(None, true, ContentKind::Fabric)).collect();
    let w = workload("x", Loader::Fabric, "1.20", None, &mods, &[], false, "12");
    assert_eq!(w.mod_count, 121);
    assert!(w.heavy_mods);
    let heavy = vec![summary(Some("AE2"), true, ContentKind::Forge)];
    assert!(workload("x", Loader::Forge, "1.20", None, &heavy, &[], false, "12").heavy_mods);
}

#[test]
fn home_totals() {
    let stats = aggregate_stats(&[
        InstanceStats { playtime_secs: 100, mod_count: 3 },
        InstanceStats { playtime_secs: 50, mod_count: 0 },
    ]);
    assert_eq!(stats.instance_count, 2);
    assert_eq!(stats.total_playtime_secs, 150);
    assert_eq!(stats.total_mods, 3);
}

#[test]
fn hit_card_contents() {
    let hit = ModrinthHit {
        project_id: "p".into(),
        project_type: ModrinthProjectType::Mod,
        title: None,
        description: None,
        author: "me".into(),
        icon_url: Some("i".into()),
        downloads: 0,
        display_categories: None,
    };
    let card = RecommendationCard::from_modrinth_hit(&hit, Some("Inst".into()));
    assert_eq!(card.title, "");
    assert_eq!(card.subtitle, "me");
    match &card.target {
        CardTarget::ModrinthProject { project_id, project_title, install_for } => {
            assert_eq!(project_id, "p");
            assert_eq!(project_title, "");
            assert_eq!(install_for.as_deref(), Some("Inst"));
        },
    }
    assert_eq!(hit_cards(&[hit], &None).len(), 1);
}

#[test]
fn home_shows_recommended_modpacks_only() {
    assert!(home_sections(0).is_empty());
    assert_eq!(
        home_sections(3),
        vec![
            HomeSection::Hero,
            HomeSection::Stats,
            HomeSection::Instances,
            HomeSection::Recommended(RecommendedContentKind::Modpack),
        ]
    );
}

#[test]
fn home_small_decisions() {
    assert_eq!(loader_and_version(Loader::NeoForge, "1.21.1"), "NeoForge 1.21.1");
    assert_eq!(fallback_icon_path(None), "icons/box.svg");
    assert_eq!(fallback_icon_path(Some("icons/x.svg")), "icons/x.svg");
    assert!(matches!(home_layout(0), HomeLayout::Welcome));
    assert!(matches!(home_layout(2), HomeLayout::Dashboard { showcase: 2 }));
    assert!(matches!(home_layout(9), HomeLayout::Dashboard { showcase: 4 }));
    assert!(show_skin_hint(1, 0));
    assert!(!show_skin_hint(2, 0));
    assert!(!show_skin_hint(1, 3));
}

#[test]
fn recent_skin_tiles() {
    let recent: Vec<String> = ["b", "acc", "x", "b", "c"].iter().map(|s| s.to_string()).collect();
    let library: Vec<String> = ["c", "b"].iter().map(|s| s.to_string()).collect();
    assert_eq!(
        recent_skins("acc", &recent, Some(&library)),
        vec![SkinChoice::Account, SkinChoice::Library(1), SkinChoice::Library(0)]
    );
    assert_eq!(recent_skins("acc", &recent, None), vec![SkinChoice::Account]);
    let many_recent: Vec<String> = (0..12).map(|i| i.to_string()).collect();
    let tiles = recent_skins("acc", &many_recent, Some(&many_recent));
    assert_eq!(tiles.len(), 8);
    assert_eq!(tiles[7], SkinChoice::Library(6));
}
