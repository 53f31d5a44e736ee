use collie::progress::{progress_update, ScrapingProgress};
use collie::server::api::directories::{list_directories, requested_path, ListedEntry};
use collie::server::api::games::{default_limit, get_games, load_scraped_index, PaginationParams};
use collie::server::api::images::{serve_image, ImageDecision};
use collie::server::api::scrape::{
    has_scrapers, run_complete_message, run_failed_event, save_settings, start_scraping, stop_scraping,
};
use collie::server::state::ScrapingState;
use collie::server::static_files::{asset_path, static_handler, StaticDecision};
use collie::text::is_path_within;

fn names(n: usize) -> Vec<String> {
    (0..n).map(|i| format!("game_{}.zip", i)).collect()
}

#[test]
fn index_lines_are_trimmed_and_empty_ones_dropped() {
    assert_eq!(
        load_scraped_index("a.nes\n  b.nes \r\n\n\t\nc d.nes"),
        vec!["a.nes", "b.nes", "c d.nes"]
    );
    assert!(load_scraped_index("").is_empty());
    assert!(load_scraped_index("\n \n").is_empty());
}

#[test]
fn pages_count_from_the_newest() {
    assert_eq!(default_limit(), 10);
    let all = names(25);
    let page = get_games(&all, PaginationParams { offset: 0, limit: 10 });
    assert_eq!((page.total, page.offset, page.limit), (25, 0, 10));
    assert_eq!(page.games.len(), 10);
    assert_eq!(page.games[0], "game_24.zip");
    assert_eq!(page.games[9], "game_15.zip");
    let page = get_games(&all, PaginationParams { offset: 20, limit: 10 });
    assert_eq!(page.games, vec!["game_4.zip", "game_3.zip", "game_2.zip", "game_1.zip", "game_0.zip"]);
    assert!(get_games(&all, PaginationParams { offset: 25, limit: 10 }).games.is_empty());
    assert!(get_games(&all, PaginationParams { offset: 3, limit: 0 }).games.is_empty());
    assert_eq!(get_games(&all, PaginationParams { offset: 24, limit: usize::MAX }).games, vec!["game_0.zip"]);
    assert_eq!(get_games(&all, PaginationParams { offset: usize::MAX, limit: usize::MAX }).total, 25);
}

#[test]
fn state_is_restored_without_a_run_under_way() {
    let stored = ScrapingState {
        scraping: true,
        progress: 5,
        total_games: 9,
        success_count: 3,
        fail_count: 1,
        skip_count: 1,
        current_message: "Processing: x".to_string(),
    };
    let restored = ScrapingState::restored(Some(stored));
    assert!(!restored.scraping);
    assert_eq!((restored.progress, restored.total_games), (5, 9));
    assert_eq!(restored.current_message, "Processing: x");
    let fresh = ScrapingState::restored(None);
    assert!(!fresh.scraping);
    assert_eq!((fresh.progress, fresh.total_games, fresh.success_count), (0, 0, 0));
    assert_eq!(fresh.current_message, "");
    assert!(ScrapingState::started().scraping);
    assert_eq!(ScrapingState::started().progress, 0);
}

#[test]
fn state_follows_the_progress_events() {
    let progress = ScrapingProgress {
        total: 9,
        completed: 4,
        current_rom: None,
        success_count: 2,
        fail_count: 1,
        skip_count: 1,
    };
    let mut state = ScrapingState::started();
    state.apply_update(&progress_update(&progress, "Downloaded image".to_string(), None));
    assert!(state.scraping);
    assert_eq!((state.progress, state.total_games), (4, 9));
    assert_eq!((state.success_count, state.fail_count, state.skip_count), (2, 1, 1));
    assert_eq!(state.current_message, "Downloaded image");
    assert_eq!(state.duplicate().current_message, "Downloaded image");
    assert_eq!(
        run_complete_message(&progress),
        "Scraping complete! Total: 9, Success: 2, Skipped: 1, Failed: 1"
    );
}

#[test]
fn handlers_answer_by_whether_a_run_is_under_way() {
    let started = start_scraping(false);
    assert!(started.success);
    assert_eq!(started.message, "Scraping started");
    let refused = start_scraping(true);
    assert!(!refused.success);
    assert_eq!(refused.message, "Scraping already in progress");
    assert_eq!(stop_scraping(true).message, "Scraping cancelled");
    assert!(stop_scraping(true).success);
    assert_eq!(stop_scraping(false).message, "No scraping in progress");
    assert!(!stop_scraping(false).success);

    let mut loaded = ScrapingState::default();
    loaded.progress = 7;
    let saved = save_settings(false, "/roms", loaded.clone());
    assert!(saved.success);
    assert_eq!(saved.message, "Settings saved. Loaded state from /roms");
    assert_eq!(saved.state.progress, 7);
    let busy = save_settings(true, "/roms", loaded);
    assert!(!busy.success);
    assert_eq!(busy.message, "Cannot change settings while scraping is in progress");
    assert_eq!(busy.state.progress, 0);
}

#[test]
fn a_run_needs_a_provider() {
    assert!(has_scrapers(1, 0).is_ok());
    assert!(has_scrapers(0, 1).is_ok());
    assert_eq!(
        has_scrapers(0, 0),
        Err("No scrapers configured. Please enable at least one metadata backend or guide backend.".to_string())
    );
    assert_eq!(
        run_failed_event("Failed to scan ROMs: gone"),
        "{\"message\": \"Scraping failed: Failed to scan ROMs: gone\", \"completed\": 0, \"total\": 0, \"success_count\": 0, \"fail_count\": 0, \"skip_count\": 0}"
    );
}

#[test]
fn images_are_served_only_from_below_the_rom_directory() {
    assert_eq!(serve_image("", Some("/roms/a.png"), Some("/roms"), true), ImageDecision::BadRequest);
    assert_eq!(serve_image("a.png", None, Some("/roms"), true), ImageDecision::Forbidden);
    assert_eq!(serve_image("a.png", Some("/roms/a.png"), None, true), ImageDecision::Forbidden);
    assert_eq!(serve_image("../etc/passwd", Some("/etc/passwd"), Some("/roms"), true), ImageDecision::Forbidden);
    assert_eq!(serve_image("../roms2/a.png", Some("/roms2/a.png"), Some("/roms"), true), ImageDecision::Forbidden);
    assert_eq!(serve_image("NES/Imgs", Some("/roms/NES/Imgs"), Some("/roms"), false), ImageDecision::NotFound);
    assert_eq!(serve_image("NES/Imgs/a.png", Some("/roms/NES/Imgs/a.png"), Some("/roms"), true), ImageDecision::Serve);
    assert!(is_path_within("/roms", "/roms"));
    assert!(is_path_within("/a", "/"));
    assert!(!is_path_within("/rom", "/roms"));
    assert!(!is_path_within("/roms", "/roms/"));
}

#[test]
fn front_end_files() {
    assert_eq!(asset_path("/assets/app.js"), "assets/app.js");
    assert_eq!(asset_path("///"), "");
    assert_eq!(asset_path("index.html"), "index.html");
    let dist = Some("/app/frontend/dist");
    assert_eq!(static_handler("", None, dist, false), StaticDecision::Index);
    assert_eq!(static_handler("index.html", None, None, false), StaticDecision::Index);
    assert_eq!(static_handler("missing.js", None, dist, false), StaticDecision::NotFound);
    assert_eq!(static_handler("settings", None, dist, false), StaticDecision::Index);
    assert_eq!(static_handler("app.js", Some("/app/frontend/dist/app.js"), None, true), StaticDecision::ServerError);
    assert_eq!(static_handler("../x.js", Some("/app/frontend/x.js"), dist, true), StaticDecision::Forbidden);
    assert_eq!(static_handler("assets", Some("/app/frontend/dist/assets"), dist, false), StaticDecision::Index);
    assert_eq!(static_handler("a.b", Some("/app/frontend/dist/a.b"), dist, false), StaticDecision::NotFound);
    assert_eq!(static_handler("app.js", Some("/app/frontend/dist/app.js"), dist, true), StaticDecision::Serve);
}

#[test]
fn directories_are_filtered_and_ordered() {
    let entry = |name: &str, is_dir: bool| ListedEntry {
        name: name.to_string(),
        path: format!("/home/user/{}", name),
        is_dir,
    };
    let entries = vec![
        entry("zebra", true),
        entry("Apple", true),
        entry(".hidden", true),
        entry("notes.txt", false),
        entry("apple", true),
        entry("Éclair", true),
        entry("banana", true),
        entry("APPLE", true),
    ];
    let response = list_directories(
        "/home/user".to_string(),
        Some("/home".to_string()),
        "/home",
        &entries,
    );
    assert_eq!(response.current_path, "/home/user");
    assert_eq!(response.parent_path, Some("/home".to_string()));
    let listed: Vec<&str> = response.directories.iter().map(|d| d.name.as_str()).collect();
    assert_eq!(listed, vec!["Apple", "apple", "APPLE", "banana", "zebra", "Éclair"]);
    assert_eq!(response.directories[3].path, "/home/user/banana");

    let outside = list_directories("/home".to_string(), Some("/".to_string()), "/home", &vec![]);
    assert_eq!(outside.parent_path, None);
    assert!(outside.directories.is_empty());
    let root = list_directories("/".to_string(), None, "/home", &vec![]);
    assert_eq!(root.parent_path, None);

    assert_eq!(requested_path("", "/cwd"), "/cwd");
    assert_eq!(requested_path(".", "/cwd"), "/cwd");
    assert_eq!(requested_path("/other", "/cwd"), "/other");
    assert_eq!(requested_path("./x", "/cwd"), "./x");
}
