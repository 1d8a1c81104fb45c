use quartz_launcher::model::{
    ContentKind, ContentSource, ContentSummary, InstanceContentSummary, Loader, ModrinthHit, ModrinthProjectType,
    ModrinthSearchIndex,
};
use quartz_launcher::recommendations::{
    build_search_request, is_already_installed, mod_recommendation_query, modpack_recommendation_query,
    rank_recommendations, score_hit, InstanceMods, RecommendationContext, RecommendedContentKind,
};

fn hit(id: &str, title: Option<&str>, downloads: u64, cats: &[&str]) -> ModrinthHit {
    ModrinthHit {
        project_id: id.to_string(),
        project_type: ModrinthProjectType::Mod,
        title: title.map(|t| t.to_string()),
        description: None,
        author: "author".to_string(),
        icon_url: None,
        downloads,
        display_categories: Some(cats.iter().map(|c| c.to_string()).collect()),
    }
}

fn installed(filename: &str, name: Option<&str>) -> InstanceContentSummary {
    InstanceContentSummary {
        content_summary: ContentSummary {
            id: None,
            name: name.map(|n| n.to_string()),
            hash: [0; 20],
            filesize: None,
            mixin_targets: Vec::new(),
            extra: ContentKind::Unknown,
            is_unknown: false,
        },
        filename: filename.to_string(),
        filename_hash: 0,
        modified_unix_ms: 0,
        enabled: true,
        content_source: ContentSource::Manual,
    }
}

fn ctx(total: usize, names: &[&str], exclude: &[&str]) -> RecommendationContext {
    RecommendationContext {
        total_items: total,
        installed_names: names.iter().map(|n| n.to_string()).collect(),
        exclude_project_ids: exclude.iter().map(|n| n.to_string()).collect(),
    }
}

#[test]
fn kinds_map_to_project_types_and_folders() {
    assert_eq!(RecommendedContentKind::Mod.modrinth_project_type(), ModrinthProjectType::Mod);
    assert_eq!(RecommendedContentKind::ResourcePack.modrinth_project_type(), ModrinthProjectType::Resourcepack);
    assert_eq!(RecommendedContentKind::Modpack.content_folder(), None);
    assert!(RecommendedContentKind::Shader.content_folder().is_some());
}

#[test]
fn context_counts_distinct_names() {
    let content = vec![
        installed("sodium.jar", Some("Sodium")),
        installed("lithium.jar", None),
        installed("sodium.jar", Some("Sodium")),
    ];
    let c = RecommendationContext::from_installed_content(&content, &["fav".to_string()]);
    assert_eq!(c.total_items, 3);
    let mut names = c.installed_names.clone();
    names.sort();
    assert_eq!(names, vec!["Sodium", "lithium.jar", "sodium.jar"]);
    assert_eq!(c.exclude_project_ids, vec!["fav"]);
}

#[test]
fn modpack_context_counts_mods_or_instances() {
    let instances = vec![
        InstanceMods { name: "Pack A".into(), mods: vec![installed("a.jar", None), installed("b.jar", Some("B"))] },
        InstanceMods { name: "Pack B".into(), mods: vec![] },
    ];
    let c = RecommendationContext::for_modpacks(&instances, &[]);
    assert_eq!(c.total_items, 2);
    assert_eq!(c.installed_names.len(), 5);
    let lonely = vec![
        InstanceMods { name: "A".into(), mods: vec![] },
        InstanceMods { name: "B".into(), mods: vec![] },
        InstanceMods { name: "C".into(), mods: vec![installed("x.jar", None)] },
    ];
    assert_eq!(RecommendationContext::for_modpacks(&lonely, &[]).total_items, 3);
}

#[test]
fn queries_by_loader_and_size() {
    assert_eq!(mod_recommendation_query(Loader::Fabric, 36).as_deref(), Some("performance optimization"));
    assert_eq!(mod_recommendation_query(Loader::Fabric, 35).as_deref(), Some("utility quality of life"));
    assert_eq!(mod_recommendation_query(Loader::Fabric, 12).as_deref(), Some("library api"));
    assert_eq!(mod_recommendation_query(Loader::NeoForge, 36).as_deref(), Some("optimization"));
    assert_eq!(mod_recommendation_query(Loader::Forge, 3).as_deref(), Some("tech"));
    assert_eq!(mod_recommendation_query(Loader::Vanilla, 26).as_deref(), Some("optimization"));
    assert_eq!(mod_recommendation_query(Loader::Vanilla, 25), None);
    assert_eq!(modpack_recommendation_query(Loader::Fabric, 81).as_deref(), Some("kitchen sink"));
    assert_eq!(modpack_recommendation_query(Loader::Fabric, 36).as_deref(), Some("questing adventure"));
    assert_eq!(modpack_recommendation_query(Loader::Fabric, 13).as_deref(), Some("vanilla plus"));
    assert_eq!(modpack_recommendation_query(Loader::Fabric, 0).as_deref(), Some("lightweight survival"));
    assert_eq!(modpack_recommendation_query(Loader::Forge, 51).as_deref(), Some("tech modpack"));
    assert_eq!(modpack_recommendation_query(Loader::NeoForge, 50).as_deref(), Some("adventure quests"));
    assert_eq!(modpack_recommendation_query(Loader::Vanilla, 99).as_deref(), Some("vanilla"));
}

#[test]
fn builds_search_requests() {
    let c = ctx(40, &[], &[]);
    let r = build_search_request(Loader::Fabric, "1.21.1", RecommendedContentKind::Mod, &c);
    assert_eq!(r.query.as_deref(), Some("performance optimization"));
    assert_eq!(
        r.facets.as_deref(),
        Some("[[\"project_type=mod\"],[\"versions=1.21.1\"],[\"categories:fabric\"]]")
    );
    assert_eq!(r.index, ModrinthSearchIndex::Downloads);
    assert_eq!(r.offset, 0);
    assert_eq!(r.limit, 20);
    let r = build_search_request(Loader::Vanilla, "1.20", RecommendedContentKind::ResourcePack, &c);
    assert_eq!(r.query.as_deref(), Some("aesthetic"));
    assert_eq!(r.facets.as_deref(), Some("[[\"project_type=resourcepack\"],[\"versions=1.20\"]]"));
    let r = build_search_request(Loader::Vanilla, "1.20", RecommendedContentKind::Shader, &ctx(0, &[], &[]));
    assert_eq!(r.query.as_deref(), Some("realistic"));
    let r = build_search_request(Loader::Vanilla, "1.20", RecommendedContentKind::Shader, &c);
    assert_eq!(r.query.as_deref(), Some("performance"));
}

#[test]
fn scores_hits() {
    let c = ctx(31, &[], &[]);
    assert_eq!(score_hit(&hit("a", None, 250_000, &[]), RecommendedContentKind::Mod, &c), 2);
    assert_eq!(score_hit(&hit("a", None, 90_000_000, &[]), RecommendedContentKind::Mod, &c), 40);
    assert_eq!(score_hit(&hit("a", None, u64::MAX, &[]), RecommendedContentKind::Mod, &c), 40);
    assert_eq!(score_hit(&hit("a", None, 0, &["performance"]), RecommendedContentKind::Mod, &c), 25);
    assert_eq!(score_hit(&hit("a", None, 0, &["performance"]), RecommendedContentKind::Mod, &ctx(30, &[], &[])), 0);
    assert_eq!(score_hit(&hit("a", None, 0, &["api"]), RecommendedContentKind::Shader, &c), 8);
    assert_eq!(score_hit(&hit("a", None, 0, &["performance"]), RecommendedContentKind::Shader, &c), 20);
    assert_eq!(score_hit(&hit("a", None, 0, &["256x"]), RecommendedContentKind::ResourcePack, &c), 10);
    let big = ctx(41, &[], &[]);
    assert_eq!(
        score_hit(&hit("a", Some("All The Mods 10"), 0, &["quests"]), RecommendedContentKind::Modpack, &big),
        35
    );
    assert_eq!(score_hit(&hit("a", Some("ATM9"), 0, &[]), RecommendedContentKind::Modpack, &c), 0);
}

#[test]
fn recognises_installed_hits() {
    let names = vec!["Sodium".to_string(), "iris-1.7.jar".to_string()];
    assert!(is_already_installed(&hit("a", Some("sodium"), 0, &[]), &names));
    assert!(is_already_installed(&hit("a", Some("Iris"), 0, &[]), &names));
    assert!(is_already_installed(&hit("a", Some("Sodium Extra"), 0, &[]), &names));
    assert!(!is_already_installed(&hit("a", Some("Lithium"), 0, &[]), &names));
    assert!(!is_already_installed(&hit("a", None, 0, &[]), &names));
    assert!(!is_already_installed(&hit("a", Some(""), 0, &[]), &names));
}

#[test]
fn ranks_and_filters_hits() {
    let mut pack = hit("pack", Some("Pack"), 1_000_000, &[]);
    pack.project_type = ModrinthProjectType::Modpack;
    let hits = vec![
        hit("low", Some("Low"), 100_000, &[]),
        hit("high", Some("High"), 5_000_000, &[]),
        hit("same-a", Some("Same A"), 150_000, &[]),
        hit("same-b", Some("Same B"), 180_000, &[]),
        hit("fav", Some("Favorite"), 9_000_000, &[]),
        hit("inst", Some("Sodium"), 9_000_000, &[]),
        pack,
    ];
    let c = ctx(5, &["sodium.jar"], &["fav"]);
    let ranked = rank_recommendations(&hits, RecommendedContentKind::Mod, &c, 6);
    let ids: Vec<&str> = ranked.iter().map(|h| h.project_id.as_str()).collect();
    assert_eq!(ids, vec!["high", "same-b", "same-a", "low"]);
    let top = rank_recommendations(&hits, RecommendedContentKind::Mod, &c, 2);
    let ids: Vec<&str> = top.iter().map(|h| h.project_id.as_str()).collect();
    assert_eq!(ids, vec!["high", "same-b"]);
    assert!(rank_recommendations(&hits, RecommendedContentKind::Mod, &c, 0).is_empty());
}

#[test]
fn ranking_keeps_search_order_on_ties() {
    let hits = vec![hit("first", Some("A"), 10, &[]), hit("second", Some("B"), 10, &[])];
    let ranked = rank_recommendations(&hits, RecommendedContentKind::Mod, &ctx(0, &[], &[]), 6);
    let ids: Vec<&str> = ranked.iter().map(|h| h.project_id.as_str()).collect();
    assert_eq!(ids, vec!["first", "second"]);
}
