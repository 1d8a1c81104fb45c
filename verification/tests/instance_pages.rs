use quartz_launcher::config::{CurseforgeClassId, InstanceSubpageType, InstancesViewMode, InterfaceConfig};
use quartz_launcher::content_page::{sort_mode_row, ContentType};
use quartz_launcher::instance_tabs::{
    run_controls, shows_shader_tab, tab_index, tab_page, InstanceStatus, InstanceSubpageCache, RunControls,
};
use quartz_launcher::instances_page::{
    instances_view, page_scrolls, saved_theme_name, should_show_whats_new, InstancesView, SearchDebounce, VersionList,
};
use quartz_launcher::model::{ContentFolder, ModrinthHit, ModrinthProjectType};
use quartz_launcher::recommendation_state::{RecommendationsState, SectionFooter};
use quartz_launcher::recommendations::RecommendedContentKind;
use quartz_launcher::sort_key::InstanceContentSortKey;

#[test]
fn content_types_map_to_folders_and_kinds() {
    assert_eq!(ContentType::Mods.content_folder(), ContentFolder::Mods);
    assert_eq!(ContentType::Shaders.content_folder(), ContentFolder::Shaders);
    assert_eq!(ContentType::ResourcePacks.recommended_kind(), RecommendedContentKind::ResourcePack);
    assert_eq!(ContentType::ResourcePacks.modrinth_project_type(), ModrinthProjectType::Resourcepack);
    assert_eq!(ContentType::Shaders.curseforge_class_id(), CurseforgeClassId::Shader);
    assert_eq!(u8::from(ContentType::Mods), 0);
    assert_eq!(u8::from(ContentType::Shaders), 2);
}

#[test]
fn sort_modes_and_fallback() {
    assert_eq!(ContentType::Mods.valid_sort_modes().len(), 5);
    assert_eq!(
        ContentType::Shaders.valid_sort_modes(),
        vec![InstanceContentSortKey::Filename, InstanceContentSortKey::ModifiedTime, InstanceContentSortKey::FileSize]
    );
    let mut config = InterfaceConfig::default();
    assert_eq!(ContentType::ResourcePacks.effective_sort_key(&config), InstanceContentSortKey::Filename);
    assert_eq!(ContentType::Mods.effective_sort_key(&config), InstanceContentSortKey::Name);
    config.instance_shaders_sort_key = InstanceContentSortKey::FileSize;
    assert_eq!(ContentType::Shaders.effective_sort_key(&config), InstanceContentSortKey::FileSize);
    let modes = ContentType::Shaders.valid_sort_modes();
    assert_eq!(sort_mode_row(&modes, InstanceContentSortKey::FileSize), 2);
    assert_eq!(sort_mode_row(&modes, InstanceContentSortKey::Name), 0);
}

#[test]
fn choosing_sort_settings() {
    let mut config = InterfaceConfig::default();
    assert!(!ContentType::Mods.choose_sort_key(&mut config, InstanceContentSortKey::Name));
    assert!(ContentType::Mods.choose_sort_key(&mut config, InstanceContentSortKey::ModId));
    assert_eq!(config.instance_mods_sort_key, InstanceContentSortKey::ModId);
    assert_eq!(config.instance_shaders_sort_key, InstanceContentSortKey::Name);
    assert!(ContentType::Shaders.choose_sort_enabled_first(&mut config, true));
    assert!(!ContentType::Shaders.choose_sort_enabled_first(&mut config, true));
    assert!(config.instance_shaders_sort_enabled_first);
    assert!(!config.instance_mods_sort_enabled_first);
    assert!(ContentType::Shaders.sort_enabled_first(&config));
    assert_eq!(ContentType::Mods.sort_key(&config), InstanceContentSortKey::ModId);
}

fn hit(id: &str) -> ModrinthHit {
    ModrinthHit {
        project_id: id.to_string(),
        project_type: ModrinthProjectType::Mod,
        title: None,
        description: None,
        author: String::new(),
        icon_url: None,
        downloads: 0,
        display_categories: None,
    }
}

#[test]
fn recommendation_answers_for_old_generations_are_dropped() {
    let mut s = RecommendationsState::new();
    assert!(s.should_request());
    let g = s.begin_request();
    assert!(!s.should_request());
    assert!(matches!(s.footer(), SectionFooter::Loading));
    s.content_changed();
    assert!(!s.finish_loaded(g, vec![hit("stale")]));
    assert!(s.hits.is_empty());
    let g2 = s.begin_request();
    assert_ne!(g, g2);
    assert!(s.finish_loaded(g2, vec![hit("fresh")]));
    assert_eq!(s.hits.len(), 1);
    assert!(!s.loading);
    assert!(matches!(s.footer(), SectionFooter::Nothing));
    let g3 = s.begin_request();
    assert!(s.finish_error(g3, "offline".to_string()));
    assert!(matches!(s.footer(), SectionFooter::Error(e) if e == "offline"));
    s.refresh();
    assert!(s.hits.is_empty());
    assert_eq!(s.error.as_deref(), Some("offline"));
    s.clear_hits();
    assert!(s.hits.is_empty());
}

#[test]
fn generations_wrap_around() {
    let mut s = RecommendationsState::new();
    s.generation = u64::MAX;
    s.content_changed();
    assert_eq!(s.generation, 0);
}

#[test]
fn tabs_and_pages() {
    assert!(shows_shader_tab(false, InstanceSubpageType::Shaders));
    assert!(!shows_shader_tab(false, InstanceSubpageType::Mods));
    assert_eq!(tab_index(InstanceSubpageType::Performance, true), 5);
    assert_eq!(tab_index(InstanceSubpageType::Performance, false), 4);
    assert_eq!(tab_index(InstanceSubpageType::Settings, false), 5);
    assert_eq!(tab_page(4, true), Some(InstanceSubpageType::Shaders));
    assert_eq!(tab_page(4, false), Some(InstanceSubpageType::Performance));
    assert_eq!(tab_page(6, false), None);
    assert_eq!(tab_page(6, true), Some(InstanceSubpageType::Settings));
    assert_eq!(tab_page(7, true), None);
}

#[test]
fn subpages_are_made_once() {
    let mut cache: InstanceSubpageCache<String> = InstanceSubpageCache::new();
    assert!(!cache.contains(InstanceSubpageType::Logs));
    cache.insert(InstanceSubpageType::Logs, "logs page".to_string());
    assert!(cache.contains(InstanceSubpageType::Logs));
    assert_eq!(cache.get(InstanceSubpageType::Logs).map(|s| s.as_str()), Some("logs page"));
    assert!(cache.get(InstanceSubpageType::Mods).is_none());
}

#[test]
fn run_controls_follow_status() {
    assert_eq!(run_controls(InstanceStatus::NotRunning), RunControls::Start);
    assert_eq!(run_controls(InstanceStatus::Launching), RunControls::Starting);
    assert_eq!(run_controls(InstanceStatus::Stopping), RunControls::Stopping);
    assert_eq!(run_controls(InstanceStatus::Running), RunControls::KillOrStartAgain);
}

#[test]
fn instances_page_decisions() {
    let mut d = SearchDebounce::new();
    let first = d.changed();
    let second = d.changed();
    assert!(!d.is_current(first));
    assert!(d.is_current(second));
    assert!(page_scrolls(InstancesViewMode::Cards));
    assert!(!page_scrolls(InstancesViewMode::List));
    assert_eq!(instances_view(true, true, true, InstancesViewMode::List), InstancesView::Welcome);
    assert_eq!(instances_view(false, true, true, InstancesViewMode::List), InstancesView::NoResults);
    assert_eq!(instances_view(false, true, false, InstancesViewMode::List), InstancesView::List);
    assert_eq!(instances_view(false, false, true, InstancesViewMode::Cards), InstancesView::Cards);
}

#[test]
fn version_search() {
    let mut list = VersionList::new();
    list.versions = vec!["1.20.1".into(), "1.21-RC1".into(), "24w10a".into(), "1.2.5".into()];
    list.perform_search("1.2");
    assert_eq!(list.matched_versions, vec!["1.20.1", "1.21-RC1", "1.2.5"]);
    list.perform_search("1.21-rc");
    assert_eq!(list.matched_versions, vec!["1.21-RC1"]);
    assert_eq!(list.items_count(), 1);
    assert_eq!(list.item(0).map(|s| s.as_str()), Some("1.21-RC1"));
    assert_eq!(list.item(1), None);
    assert_eq!(list.position("1.21-RC1"), Some(0));
    assert_eq!(list.position("1.20.1"), None);
    list.perform_search("");
    assert_eq!(list.items_count(), 4);
}

#[test]
fn theme_and_whats_new() {
    assert_eq!(saved_theme_name("  Catppuccin Mocha "), Some("Catppuccin Mocha".to_string()));
    assert_eq!(saved_theme_name("   "), None);
    assert!(should_show_whats_new(Some("5.2.38"), Some("5.2.37")));
    assert!(should_show_whats_new(Some("5.2.38"), None));
    assert!(!should_show_whats_new(Some("5.2.38"), Some("5.2.38")));
    assert!(!should_show_whats_new(None, Some("5.2.38")));
}

#[test]
fn subpages_are_reused_once_made() {
    let mut cache: InstanceSubpageCache<String> = InstanceSubpageCache::new();
    let mut made = 0;
    assert!(cache.get_or_insert_with(InstanceSubpageType::Mods, || {
        made += 1;
        "mods page".to_string()
    }));
    assert!(!cache.get_or_insert_with(InstanceSubpageType::Mods, || {
        made += 1;
        "another mods page".to_string()
    }));
    assert_eq!(made, 1);
    assert_eq!(cache.get(InstanceSubpageType::Mods).map(|s| s.as_str()), Some("mods page"));
    assert!(cache.get(InstanceSubpageType::Logs).is_none());
}

#[test]
fn empty_message_waits_for_loading() {
    let mut s = RecommendationsState::new();
    assert!(s.shows_empty_message());
    let g = s.begin_request();
    assert!(!s.shows_empty_message());
    assert!(s.finish_loaded(g, vec![]));
    assert!(s.shows_empty_message());
    let g = s.begin_request();
    assert!(s.finish_loaded(g, vec![hit("one")]));
    assert!(!s.shows_empty_message());
}
