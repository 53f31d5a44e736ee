use collie::cache::{GameResult, ScrapeCache, ScrapeProgress};

fn result(rom_name: String, timestamp: u64) -> GameResult {
    GameResult {
        rom_name,
        console: "NES".to_string(),
        metadata_status: "success".to_string(),
        guides_status: "failed".to_string(),
        timestamp,
    }
}

fn some_progress() -> ScrapeProgress {
    ScrapeProgress {
        total: 100,
        completed: 50,
        success_count: 40,
        fail_count: 5,
        skip_count: 5,
        current_rom: Some("test_rom.zip".to_string()),
    }
}

#[test]
fn test_cache_operations() {
    let mut cache = ScrapeCache::with_cache_dir("/tmp/collie_test_cache".to_string());

    assert!(!cache.has_metadata_failed("NES", "Super Mario Bros"));
    assert!(!cache.has_guides_failed("NES", "Super Mario Bros"));

    cache.mark_metadata_not_found("NES", "Super Mario Bros");
    cache.mark_guides_not_found("NES", "Super Mario Bros");

    assert!(cache.has_metadata_failed("NES", "Super Mario Bros"));
    assert!(cache.has_guides_failed("NES", "Super Mario Bros"));

    assert!(!cache.has_metadata_failed("SNES", "Super Mario Bros"));
    assert!(!cache.has_metadata_failed("NES", "Zelda"));

    cache.clear_metadata_failed("NES", "Super Mario Bros");
    assert!(!cache.has_metadata_failed("NES", "Super Mario Bros"));
    assert!(cache.has_guides_failed("NES", "Super Mario Bros"));
}

#[test]
fn test_sanitization() {
    let mut cache = ScrapeCache::with_cache_dir("/tmp/collie_test_cache_sanitize".to_string());

    cache.mark_metadata_not_found("Console/With:Slashes", "ROM*With?Special<Chars>");
    assert!(cache.has_metadata_failed("Console/With:Slashes", "ROM*With?Special<Chars>"));
}

#[test]
fn test_progress_cache() {
    let mut cache = ScrapeCache::with_cache_dir("/tmp/collie_test_progress".to_string());

    assert!(cache.load_progress().is_none());

    cache.save_progress(&some_progress());

    let loaded = cache.load_progress().unwrap();
    assert_eq!(loaded.total, 100);
    assert_eq!(loaded.completed, 50);
    assert_eq!(loaded.success_count, 40);
    assert_eq!(loaded.current_rom, Some("test_rom.zip".to_string()));
}

#[test]
fn test_results_cache() {
    let mut cache = ScrapeCache::with_cache_dir("/tmp/collie_test_results".to_string());

    assert!(cache.load_results().is_empty());

    for i in 0..15 {
        cache.add_result(result(format!("game_{}.zip", i), i));
    }

    let results = cache.load_results();
    assert_eq!(results.len(), 10);

    assert_eq!(results[0].rom_name, "game_14.zip");
    assert_eq!(results[9].rom_name, "game_5.zip");
}

#[test]
fn test_clear_session_cache() {
    let mut cache = ScrapeCache::with_cache_dir("/tmp/collie_test_clear_session".to_string());

    let mut progress = some_progress();
    progress.current_rom = Some("test.zip".to_string());
    cache.save_progress(&progress);
    cache.add_result(result("test.zip".to_string(), 123456));
    cache.mark_metadata_not_found("NES", "Zelda");

    cache.clear_session_cache();

    assert!(cache.load_progress().is_none());
    assert!(cache.load_results().is_empty());
    assert!(cache.has_metadata_failed("NES", "Zelda"));
}

#[test]
fn test_clear_all() {
    let mut cache = ScrapeCache::with_cache_dir("/tmp/collie_test_clear_all".to_string());

    cache.mark_metadata_not_found("NES", "Super Mario Bros");
    cache.mark_guides_not_found("SNES", "Zelda");
    cache.save_progress(&some_progress());
    cache.add_result(result("test.zip".to_string(), 123456));

    assert!(cache.has_metadata_failed("NES", "Super Mario Bros"));

    cache.clear_all();

    assert!(!cache.has_metadata_failed("NES", "Super Mario Bros"));
    assert!(!cache.has_guides_failed("SNES", "Zelda"));
    assert!(cache.load_progress().is_none());
    assert!(cache.load_results().is_empty());
    assert_eq!(cache.cache_dir, "/tmp/collie_test_clear_all");
}

#[test]
fn marks_stay_in_their_category() {
    let mut cache = ScrapeCache::new("/roms");
    cache.mark_metadata_not_found("NES", "Zelda");
    assert!(cache.has_metadata_failed("NES", "Zelda"));
    assert!(!cache.has_guides_failed("NES", "Zelda"));
    cache.clear_metadata_failed("NES", "Zelda");
    assert!(!cache.has_metadata_failed("NES", "Zelda"));

    cache.mark_guides_not_found("NES", "Zelda");
    assert!(cache.has_guides_failed("NES", "Zelda"));
    assert!(!cache.has_metadata_failed("NES", "Zelda"));
    cache.clear_guides_failed("NES", "Zelda");
    assert!(!cache.has_guides_failed("NES", "Zelda"));
}

#[test]
fn marking_twice_and_clearing_once_leaves_no_mark() {
    let mut cache = ScrapeCache::new("/roms");
    cache.mark_metadata_not_found("NES", "Zelda");
    cache.mark_metadata_not_found("NES", "Zelda");
    cache.clear_metadata_failed("NES", "Zelda");
    assert!(!cache.has_metadata_failed("NES", "Zelda"));
    cache.clear_metadata_failed("NES", "Never marked");
}

#[test]
fn hostile_names_share_a_marker() {
    let mut cache = ScrapeCache::new("/roms");
    cache.mark_guides_not_found("A/B", "x:y");
    assert!(cache.has_guides_failed("A\\B", "x?y"));
    assert!(cache.has_guides_failed("A_B", "x_y"));
    assert!(!cache.has_guides_failed("A_B", "xy"));
}

#[test]
fn cache_paths() {
    let cache = ScrapeCache::new("/roms");
    assert_eq!(cache.cache_dir, "/roms/.collie/cache");
    assert_eq!(ScrapeCache::default_cache_dir("/roms/"), "/roms/.collie/cache");
    assert_eq!(ScrapeCache::default_cache_dir(""), ".collie/cache");
    assert_eq!(cache.metadata_dir(), "/roms/.collie/cache/metadata_not_found");
    assert_eq!(cache.guides_dir(), "/roms/.collie/cache/guides_not_found");
    assert_eq!(cache.progress_file(), "/roms/.collie/cache/progress.json");
    assert_eq!(cache.results_file(), "/roms/.collie/cache/results.json");
    assert_eq!(
        cache.get_cache_file_path(&cache.metadata_dir(), "Console/With:Slashes", "ROM*With?Special<Chars>"),
        "/roms/.collie/cache/metadata_not_found/Console_With_Slashes/ROM_With_Special_Chars_.marker"
    );
    assert_eq!(
        cache.get_cache_file_path(&cache.guides_dir(), "NES", "a\\b\"c|d>e"),
        "/roms/.collie/cache/guides_not_found/NES/a_b_c_d_e.marker"
    );
}

#[test]
fn results_below_the_bound_are_all_kept() {
    let mut cache = ScrapeCache::new("/roms");
    for i in 0..10 {
        cache.add_result(result(format!("game_{}.zip", i), i));
    }
    let results = cache.load_results();
    assert_eq!(results.len(), 10);
    assert_eq!(results[0].timestamp, 9);
    assert_eq!(results[9].timestamp, 0);
    cache.add_result(result("game_10.zip".to_string(), 10));
    let results = cache.load_results();
    assert_eq!(results.len(), 10);
    assert_eq!(results[0].timestamp, 10);
    assert_eq!(results[9].timestamp, 1);
    assert_eq!(results[9].console, "NES");
    assert_eq!(results[9].metadata_status, "success");
    assert_eq!(results[9].guides_status, "failed");
}

#[test]
fn saved_progress_replaces_the_old_one() {
    let mut cache = ScrapeCache::new("/roms");
    cache.save_progress(&some_progress());
    let mut later = some_progress();
    later.completed = 51;
    later.fail_count = 6;
    later.current_rom = None;
    cache.save_progress(&later);
    let loaded = cache.load_progress().unwrap();
    assert_eq!(loaded.completed, 51);
    assert_eq!(loaded.fail_count, 6);
    assert_eq!(loaded.skip_count, 5);
    assert_eq!(loaded.current_rom, None);
}
