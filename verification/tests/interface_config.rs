use std::cmp::Ordering;

use quartz_launcher::config::{
    CurseforgeClassId, CurseforgeFavorite, InstanceSubpageType, InstancesViewMode, InterfaceConfig, ModrinthFavorite,
    SaveSchedule, WindowBounds, MINECRAFT_GAME_ID,
};
use quartz_launcher::model::{
    ContentKind, ContentSource, ContentSummary, CurseforgeHit, CurseforgeModAsset, InstanceContentSummary,
    ModrinthHit, ModrinthProjectType,
};
use quartz_launcher::sort_key::{has_short_digit_runs, InstanceContentSortKey};

fn hit(id: &str, title: Option<&str>) -> ModrinthHit {
    ModrinthHit {
        project_id: id.to_string(),
        project_type: ModrinthProjectType::Shader,
        title: title.map(|t| t.to_string()),
        description: None,
        author: "someone".to_string(),
        icon_url: Some("https://cdn/icon.png".to_string()),
        downloads: 42,
        display_categories: Some(vec!["x".to_string()]),
    }
}

fn cf_hit(id: u32) -> CurseforgeHit {
    CurseforgeHit {
        id,
        game_id: 432,
        name: "JEI".into(),
        slug: "jei".into(),
        summary: "Items".into(),
        download_count: 7,
        class_id: None,
        logo: Some(CurseforgeModAsset { thumbnail_url: "thumb".into() }),
        authors: vec!["mezz".into()],
        categories: vec![],
        latest_files_indexes: vec![1, 2],
    }
}

fn item(filename: &str, name: Option<&str>, id: Option<&str>, modified: i64, size: Option<u64>) -> InstanceContentSummary {
    InstanceContentSummary {
        content_summary: ContentSummary {
            id: id.map(|s| s.to_string()),
            name: name.map(|s| s.to_string()),
            hash: [0; 20],
            filesize: size,
            mixin_targets: Vec::new(),
            extra: ContentKind::Unknown,
            is_unknown: false,
        },
        filename: filename.to_string(),
        filename_hash: 0,
        modified_unix_ms: modified,
        enabled: true,
        content_source: ContentSource::Manual,
    }
}

#[test]
fn default_config() {
    let c = InterfaceConfig::default();
    assert!(c.content_install_latest);
    assert!(c.skin_list_show_3d);
    assert!(!c.hide_usernames);
    assert_eq!(c.instance_mods_sort_key, InstanceContentSortKey::Name);
    assert_eq!(c.modrinth_page_project_type, ModrinthProjectType::Mod);
    assert_eq!(c.curseforge_page_class_id, CurseforgeClassId::Mod);
    assert_eq!(c.instances_view_mode, InstancesViewMode::Cards);
    assert_eq!(c.instance_subpage, InstanceSubpageType::Quickplay);
    assert_eq!(c.main_window_bounds, WindowBounds::Inherit);
    assert!(c.modrinth_favorites.is_empty());
}

#[test]
fn modrinth_favorite_round_trip() {
    let f = ModrinthFavorite::from_hit(&hit("iris", Some("Iris")));
    assert_eq!(f.project_id, "iris");
    assert_eq!(f.title, "Iris");
    assert_eq!(f.description, "");
    assert_eq!(f.icon_url.as_deref(), Some("https://cdn/icon.png"));
    let back = f.to_hit();
    assert_eq!(back.title.as_deref(), Some("Iris"));
    assert_eq!(back.description.as_deref(), Some(""));
    assert_eq!(back.display_categories, None);
    assert_eq!(back.project_type, ModrinthProjectType::Shader);
    let untitled = ModrinthFavorite::from_hit(&hit("x", None));
    assert_eq!(untitled.title, "");
}

#[test]
fn curseforge_favorite_round_trip() {
    let f = CurseforgeFavorite::from_hit(&cf_hit(238222));
    assert_eq!(f.class_id, 0);
    assert_eq!(f.thumbnail_url.as_deref(), Some("thumb"));
    let back = f.to_hit();
    assert_eq!(back.game_id, MINECRAFT_GAME_ID);
    assert_eq!(back.game_id, 432);
    assert_eq!(back.slug, "");
    assert_eq!(back.class_id, Some(0));
    assert!(back.authors.is_empty());
    assert!(back.latest_files_indexes.is_empty());
    assert_eq!(back.logo.map(|l| l.thumbnail_url), Some("thumb".to_string()));
}

#[test]
fn toggling_modrinth_favorites() {
    let mut c = InterfaceConfig::default();
    let h = hit("iris", Some("Iris"));
    assert!(!c.is_modrinth_favorite("iris"));
    assert!(c.toggle_modrinth_favorite(&h));
    assert!(c.is_modrinth_favorite("iris"));
    assert!(c.toggle_modrinth_favorite(&hit("sodium", None)));
    assert!(!c.toggle_modrinth_favorite(&h));
    assert!(!c.is_modrinth_favorite("iris"));
    assert!(c.is_modrinth_favorite("sodium"));
    assert_eq!(c.modrinth_favorites.len(), 1);
}

#[test]
fn toggling_curseforge_favorites() {
    let mut c = InterfaceConfig::default();
    assert!(c.toggle_curseforge_favorite(&cf_hit(1)));
    assert!(c.is_curseforge_favorite(1));
    assert!(!c.is_curseforge_favorite(2));
    assert!(!c.toggle_curseforge_favorite(&cf_hit(1)));
    assert!(!c.is_curseforge_favorite(1));
    assert!(c.curseforge_favorites.is_empty());
}

#[test]
fn save_schedule_writes_once() {
    let mut s = SaveSchedule::new();
    assert!(s.changed());
    assert!(!s.changed());
    s.written();
    assert!(s.changed());
}

#[test]
fn sort_key_names() {
    assert_eq!(InstanceContentSortKey::Name.name(), "Name");
    assert_eq!(InstanceContentSortKey::ModId.name(), "Mod Id");
    assert_eq!(InstanceContentSortKey::ModifiedTime.name(), "Modified Time");
    assert_eq!(InstanceContentSortKey::FileSize.name(), "Filesize");
    assert_eq!(InstancesViewMode::List.name(), "List");
}

#[test]
fn sorts_names_naturally() {
    let a = item("a.jar", Some("Mod 2"), None, 0, None);
    let b = item("b.jar", Some("Mod 10"), None, 0, None);
    assert_eq!(InstanceContentSortKey::Name.compare(&a, &b), Ordering::Less);
    assert_eq!(InstanceContentSortKey::Name.compare(&b, &a), Ordering::Greater);
    assert_eq!(InstanceContentSortKey::Name.compare(&a, &a), Ordering::Equal);
    let c = item("zeta.jar", None, Some("alpha"), 0, None);
    let d = item("alpha.jar", None, Some("zeta"), 0, None);
    assert_eq!(InstanceContentSortKey::ModId.compare(&c, &d), Ordering::Less);
    assert_eq!(InstanceContentSortKey::Filename.compare(&c, &d), Ordering::Greater);
    let upper = item("B.jar", None, None, 0, None);
    let lower = item("a.jar", None, None, 0, None);
    assert_eq!(InstanceContentSortKey::Filename.compare(&lower, &upper), Ordering::Less);
}

#[test]
fn sorts_newest_and_largest_first() {
    let old = item("a", None, None, 1000, Some(5));
    let new = item("b", None, None, 2000, None);
    assert_eq!(InstanceContentSortKey::ModifiedTime.compare(&new, &old), Ordering::Less);
    assert_eq!(InstanceContentSortKey::ModifiedTime.compare(&old, &new), Ordering::Greater);
    assert_eq!(InstanceContentSortKey::FileSize.compare(&old, &new), Ordering::Less);
    assert_eq!(InstanceContentSortKey::FileSize.compare(&new, &new), Ordering::Equal);
}

#[test]
fn digit_runs() {
    assert!(has_short_digit_runs("mod-1234567890123456789.jar"));
    assert!(!has_short_digit_runs("mod-12345678901234567890.jar"));
    assert!(has_short_digit_runs("é"));
    assert!(!has_short_digit_runs("1éé"));
    assert!(has_short_digit_runs(""));
}
