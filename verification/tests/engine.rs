use std::collections::{HashMap, HashSet};

use collie::backoff::BackoffState;
use collie::guides::{GuidesAction, GuidesEvent, GuidesStage, GuidesTrack};
use collie::progress::{GameData, ProgressUpdate, ScrapeStatus, ScrapingProgress};
use collie::scrape_game_guides;
use collie::scrape_game_metadata;
use collie::scraper::{GameMetadata, ScraperError};
use collie::scraping::{DownloadOutcome, MetadataAction, MetadataEvent, MetadataStage, MetadataTrack};
use collie::session::{Session, SessionAction, SessionEvent, SessionStage, SessionSummary};
use collie::scrape;

/// What a scripted metadata provider answers for an item, one answer per call.
struct Provider {
    name: &'static str,
    answers: HashMap<String, Vec<Result<GameMetadata, ScraperError>>>,
    downloads_fail: bool,
}

/// What a scripted guides provider answers for an item, one answer per call.
struct GuideProvider {
    name: &'static str,
    answers: HashMap<String, Vec<Result<Vec<String>, ScraperError>>>,
    failing_guides: HashSet<String>,
}

/// Everything outside the library: the disk, the providers and what was seen.
struct World {
    providers: Vec<Provider>,
    guide_providers: Vec<GuideProvider>,
    images: HashSet<String>,
    guides_on_disk: HashMap<String, Vec<String>>,
    stored: HashMap<String, GameData>,
    skip_cache: bool,
    box_art_width: Option<u32>,
    directories_fail: bool,
    searches: Vec<(String, String)>,
    waits: Vec<u64>,
    resizes: Vec<u32>,
    updates: Vec<ProgressUpdate>,
    index: Vec<String>,
}

impl World {
    fn new() -> World {
        World {
            providers: vec![],
            guide_providers: vec![],
            images: HashSet::new(),
            guides_on_disk: HashMap::new(),
            stored: HashMap::new(),
            skip_cache: false,
            box_art_width: None,
            directories_fail: false,
            searches: vec![],
            waits: vec![],
            resizes: vec![],
            updates: vec![],
            index: vec![],
        }
    }

    fn messages(&self) -> Vec<&str> {
        self.updates.iter().map(|u| u.message.as_str()).collect()
    }
}

fn found(name: &str, image_url: Option<&str>) -> GameMetadata {
    GameMetadata {
        name: name.to_string(),
        description: Some("A game".to_string()),
        release_date: Some("1990-11-21".to_string()),
        developer: Some("Dev".to_string()),
        publisher: Some("Pub".to_string()),
        genre: Some("Platform".to_string()),
        players: Some("1-2".to_string()),
        rating: Some("4.5".to_string()),
        image_url: image_url.map(|u| u.to_string()),
        thumbnail_url: None,
    }
}

fn stem(rom: &str) -> String {
    match rom.rfind('.') {
        Some(k) if k > 0 => rom[..k].to_string(),
        _ => rom.to_string(),
    }
}

fn run_metadata(
    world: &mut World,
    rom: &str,
    game_data: &mut GameData,
    progress: &ScrapingProgress,
    backoff: &mut BackoffState,
) -> bool {
    let names = world.providers.iter().map(|p| p.name.to_string()).collect();
    let rel = format!("NES/Imgs/{}.png", stem(rom));
    let mut track = MetadataTrack::new(
        names,
        rom.to_string(),
        Some(rel.clone()),
        world.skip_cache,
        world.box_art_width,
    );
    let mut event = MetadataEvent::Begin;
    loop {
        let step = scrape_game_metadata(&mut track, event, game_data, progress, backoff);
        world.updates.extend(step.updates);
        event = match step.action {
            MetadataAction::CheckImage => MetadataEvent::ImageChecked(world.images.contains(&rel)),
            MetadataAction::LoadStored => MetadataEvent::StoredLoaded(world.stored.get(rom).cloned()),
            MetadataAction::Search { index } => {
                let provider = &mut world.providers[index];
                world.searches.push((provider.name.to_string(), rom.to_string()));
                let answers = provider.answers.get_mut(rom);
                MetadataEvent::Searched(match answers {
                    Some(list) if !list.is_empty() => list.remove(0),
                    _ => Err(ScraperError::GameNotFound),
                })
            }
            MetadataAction::Download { index, url: _ } => {
                MetadataEvent::Downloaded(if world.directories_fail {
                    DownloadOutcome::DirectoryFailed
                } else if world.providers[index].downloads_fail {
                    DownloadOutcome::Failed(ScraperError::Network("connection reset".to_string()))
                } else {
                    world.images.insert(rel.clone());
                    DownloadOutcome::Stored
                })
            }
            MetadataAction::Resize { width } => {
                world.resizes.push(width);
                MetadataEvent::Resized
            }
            MetadataAction::Wait { secs } => {
                world.waits.push(secs);
                MetadataEvent::Waited
            }
            MetadataAction::Done { handled } => {
                assert!(matches!(track.stage(), MetadataStage::Done { .. }));
                return handled;
            }
            MetadataAction::Rejected => panic!("the track rejected an event"),
        };
    }
}

fn run_guides(
    world: &mut World,
    rom: &str,
    game_data: &mut GameData,
    progress: &ScrapingProgress,
    backoff: &mut BackoffState,
) -> Vec<String> {
    let names = world.guide_providers.iter().map(|p| p.name.to_string()).collect();
    let mut track = GuidesTrack::new(names, rom.to_string(), world.skip_cache);
    let mut event = GuidesEvent::Begin;
    let mut written = vec![];
    loop {
        let step = scrape_game_guides(&mut track, event, game_data, progress, backoff);
        world.updates.extend(step.updates);
        event = match step.action {
            GuidesAction::CountGuides => {
                GuidesEvent::GuidesCounted(world.guides_on_disk.get(rom).map_or(0, |g| g.len()))
            }
            GuidesAction::LoadStored => GuidesEvent::StoredLoaded(world.stored.get(rom).cloned()),
            GuidesAction::Search { index } => {
                let provider = &mut world.guide_providers[index];
                world.searches.push((provider.name.to_string(), rom.to_string()));
                let answers = provider.answers.get_mut(rom);
                GuidesEvent::Searched(match answers {
                    Some(list) if !list.is_empty() => list.remove(0),
                    _ => Ok(vec![]),
                })
            }
            GuidesAction::PrepareDirectory => GuidesEvent::DirectoryPrepared(if world.directories_fail {
                Err("permission denied".to_string())
            } else {
                Ok(())
            }),
            GuidesAction::DownloadGuide { index, guide_path, file_name } => {
                if world.guide_providers[index].failing_guides.contains(&guide_path) {
                    GuidesEvent::GuideDownloaded(Err(ScraperError::Network(
                        "Failed to connect: refused".to_string(),
                    )))
                } else {
                    written.push(file_name);
                    GuidesEvent::GuideDownloaded(Ok(()))
                }
            }
            GuidesAction::Wait { secs } => {
                world.waits.push(secs);
                GuidesEvent::Waited
            }
            GuidesAction::Done => {
                assert_eq!(track.stage(), GuidesStage::Done);
                world.guides_on_disk.entry(rom.to_string()).or_default().extend(written.clone());
                return written;
            }
            GuidesAction::Rejected => panic!("the track rejected an event"),
        };
    }
}

/// Runs a whole session over `roms`; cancellation is requested once
/// `cancel_after` items are done.
fn run_session(world: &mut World, roms: &[&str], cancel_after: Option<usize>) -> SessionSummary {
    let mut session = Session::new(!world.guide_providers.is_empty());
    let mut backoff = BackoffState::new();
    let mut next = 0;
    let mut event = SessionEvent::Scanned { total: roms.len() };
    loop {
        let step = scrape(&mut session, event);
        world.updates.extend(step.updates);
        event = match step.action {
            SessionAction::Next => next_item(roms, next, cancel_after),
            SessionAction::Process { mut game_data, guides } => {
                let rom = roms[next];
                let progress = session.progress().duplicate();
                run_metadata(world, rom, &mut game_data, &progress, &mut backoff);
                if guides {
                    run_guides(world, rom, &mut game_data, &progress, &mut backoff);
                }
                SessionEvent::ItemDone(game_data)
            }
            SessionAction::Store { game_data } => {
                world.index.push(game_data.rom_name.clone());
                world.stored.insert(game_data.rom_name.clone(), game_data);
                next += 1;
                next_item(roms, next, cancel_after)
            }
            SessionAction::Finished { summary } => {
                assert_eq!(session.stage(), SessionStage::Finished);
                assert_eq!(session.summary(), summary);
                return summary;
            }
            SessionAction::Rejected => panic!("the session rejected an event"),
        };
    }
}

fn next_item(roms: &[&str], next: usize, cancel_after: Option<usize>) -> SessionEvent {
    if next < roms.len() {
        SessionEvent::NextItem {
            cancel_requested: cancel_after.is_some_and(|k| next >= k),
            rom_name: roms[next].to_string(),
            console_name: "NES".to_string(),
        }
    } else {
        SessionEvent::Exhausted
    }
}

fn three_items_world() -> World {
    let mut world = World::new();
    let mut answers = HashMap::new();
    answers.insert("one.nes".to_string(), vec![Ok(found("One", Some("https://example.com/1.png")))]);
    answers.insert("two.nes".to_string(), vec![Ok(found("Two", Some("https://example.com/2.png")))]);
    answers.insert("three.nes".to_string(), vec![Err(ScraperError::GameNotFound)]);
    world.providers.push(Provider { name: "ScreenScraper", answers, downloads_fail: false });
    world
}

#[test]
fn three_items_one_provider_no_guides() {
    let mut world = three_items_world();
    let summary = run_session(&mut world, &["one.nes", "two.nes", "three.nes"], None);
    assert_eq!(summary, SessionSummary { total: 3, success: 2, fail: 1, skip: 0, cancelled: false });
    assert_eq!(world.stored["one.nes"].metadata.status, ScrapeStatus::Success);
    assert_eq!(world.stored["two.nes"].metadata.status, ScrapeStatus::Success);
    assert_eq!(world.stored["three.nes"].metadata.status, ScrapeStatus::Failed);
    for rom in ["one.nes", "two.nes", "three.nes"] {
        assert_eq!(world.stored[rom].guides.status, ScrapeStatus::Pending);
        assert_eq!(world.stored[rom].guides.count, None);
    }
    assert_eq!(world.index, vec!["one.nes", "two.nes", "three.nes"]);
    assert_eq!(
        world.stored["one.nes"].metadata.image_path,
        Some("/api/images/NES/Imgs/one.png".to_string())
    );
    assert_eq!(
        world.messages(),
        vec![
            "Found 3 ROMs to process",
            "Processing: one.nes (NES)",
            "Searching for: one.nes",
            "Trying ScreenScraper for: one.nes",
            "ScreenScraper: Found One",
            "Downloaded image",
            "Added metadata to gamelist",
            "Processing: two.nes (NES)",
            "Searching for: two.nes",
            "Trying ScreenScraper for: two.nes",
            "ScreenScraper: Found Two",
            "Downloaded image",
            "Added metadata to gamelist",
            "Processing: three.nes (NES)",
            "Searching for: three.nes",
            "Trying ScreenScraper for: three.nes",
            "Not found in any source",
            "Scraping complete! Total: 3, Success: 2, Skipped: 0, Failed: 1",
        ]
    );
    let last = world.updates.last().unwrap();
    assert_eq!((last.total, last.completed), (3, 3));
    assert_eq!((last.success_count, last.fail_count, last.skip_count), (2, 1, 0));
    assert_eq!(last.current_rom, None);
}

#[test]
fn second_run_skips_every_item_with_an_image() {
    let mut world = three_items_world();
    world.providers[0].answers.insert(
        "three.nes".to_string(),
        vec![Ok(found("Three", Some("https://example.com/3.png")))],
    );
    let roms = ["one.nes", "two.nes", "three.nes"];
    let first = run_session(&mut world, &roms, None);
    assert_eq!(first, SessionSummary { total: 3, success: 3, fail: 0, skip: 0, cancelled: false });
    let after_first = world.stored.clone();
    let calls = world.searches.len();

    let second = run_session(&mut world, &roms, None);
    assert_eq!(second, SessionSummary { total: 3, success: 0, fail: 0, skip: 3, cancelled: false });
    assert_eq!(world.searches.len(), calls);
    for rom in roms {
        let (old, new) = (&after_first[rom].metadata, &world.stored[rom].metadata);
        assert_eq!(new.status, ScrapeStatus::Skipped);
        assert_eq!(new.name, old.name);
        assert_eq!(new.developer, old.developer);
        assert_eq!(new.publisher, old.publisher);
        assert_eq!(new.genre, old.genre);
        assert_eq!(new.release_date, old.release_date);
        assert_eq!(new.rating, old.rating);
        assert_eq!(new.image_path, old.image_path);
        assert_eq!(new.error_message, old.error_message);
    }
    let after_second = world.stored.clone();
    let third = run_session(&mut world, &roms, None);
    assert_eq!(third, second);
    for rom in roms {
        assert_eq!(format!("{:?}", world.stored[rom]), format!("{:?}", after_second[rom]));
    }
}

#[test]
fn existing_image_skips_without_asking_a_provider() {
    let mut world = three_items_world();
    world.images.insert("NES/Imgs/one.png".to_string());
    let mut stored = GameData::pending("one.nes");
    stored.metadata.status = ScrapeStatus::Success;
    stored.metadata.name = Some("One".to_string());
    stored.metadata.developer = Some("Nintendo EAD".to_string());
    stored.metadata.publisher = Some("Nintendo".to_string());
    stored.metadata.genre = Some("Platform".to_string());
    stored.metadata.rating = Some("4.5".to_string());
    stored.metadata.release_date = Some("1990-11-21".to_string());
    world.stored.insert("one.nes".to_string(), stored);

    let progress = Session::new(false).progress().duplicate();
    let mut backoff = BackoffState::new();
    let mut game_data = GameData::pending("one.nes");
    let handled = run_metadata(&mut world, "one.nes", &mut game_data, &progress, &mut backoff);

    assert!(handled);
    assert!(world.searches.is_empty());
    assert_eq!(game_data.metadata.status, ScrapeStatus::Skipped);
    assert_eq!(game_data.metadata.name, Some("One".to_string()));
    assert_eq!(game_data.metadata.developer, Some("Nintendo EAD".to_string()));
    assert_eq!(game_data.metadata.publisher, Some("Nintendo".to_string()));
    assert_eq!(game_data.metadata.genre, Some("Platform".to_string()));
    assert_eq!(game_data.metadata.rating, Some("4.5".to_string()));
    assert_eq!(game_data.metadata.release_date, Some("1990-11-21".to_string()));
    assert_eq!(game_data.metadata.image_path, Some("/api/images/NES/Imgs/one.png".to_string()));
    assert_eq!(world.messages(), vec!["Image already exists, skipping metadata scraping"]);
    let update = world.updates[0].game_update.as_ref().unwrap();
    assert_eq!(update.metadata.status, ScrapeStatus::Skipped);
    assert_eq!(update.metadata.developer, Some("Nintendo EAD".to_string()));
}

#[test]
fn existing_image_without_stored_record_is_skipped_too() {
    let mut world = three_items_world();
    world.images.insert("NES/Imgs/three.png".to_string());
    let summary = run_session(&mut world, &["three.nes"], None);
    assert_eq!(summary, SessionSummary { total: 1, success: 0, fail: 0, skip: 1, cancelled: false });
    assert!(world.searches.is_empty());
    assert_eq!(world.stored["three.nes"].metadata.name, None);
}

#[test]
fn forced_refresh_asks_the_provider_again() {
    let mut world = three_items_world();
    world.images.insert("NES/Imgs/one.png".to_string());
    world.skip_cache = true;
    let summary = run_session(&mut world, &["one.nes"], None);
    assert_eq!(summary, SessionSummary { total: 1, success: 1, fail: 0, skip: 0, cancelled: false });
    assert_eq!(world.searches, vec![("ScreenScraper".to_string(), "one.nes".to_string())]);
}

#[test]
fn cancellation_stops_before_the_next_item() {
    let mut world = three_items_world();
    let summary = run_session(&mut world, &["one.nes", "three.nes", "two.nes"], Some(2));
    assert_eq!(summary, SessionSummary { total: 3, success: 1, fail: 1, skip: 0, cancelled: true });
    assert_eq!(world.index, vec!["one.nes", "three.nes"]);
    assert_eq!(world.stored["one.nes"].metadata.status, ScrapeStatus::Success);
    assert_eq!(world.stored["three.nes"].metadata.status, ScrapeStatus::Failed);
    assert!(!world.stored.contains_key("two.nes"));
    assert!(world.searches.iter().all(|(_, rom)| rom != "two.nes"));
    let messages = world.messages();
    assert_eq!(
        messages[messages.len() - 2..],
        ["Scraping cancelled by user", "Scraping cancelled! Total: 3, Success: 1, Skipped: 0, Failed: 1"]
    );
    let last = world.updates.last().unwrap();
    assert_eq!((last.total, last.completed), (3, 2));
}

#[test]
fn cancellation_before_the_first_item_processes_nothing() {
    let mut world = three_items_world();
    let summary = run_session(&mut world, &["one.nes", "two.nes"], Some(0));
    assert_eq!(summary, SessionSummary { total: 2, success: 0, fail: 0, skip: 0, cancelled: true });
    assert!(world.searches.is_empty());
    assert!(world.index.is_empty());
}

#[test]
fn cancellation_after_the_last_item_comes_too_late() {
    let mut world = three_items_world();
    let summary = run_session(&mut world, &["one.nes", "two.nes"], Some(2));
    assert_eq!(summary, SessionSummary { total: 2, success: 2, fail: 0, skip: 0, cancelled: false });
}

#[test]
fn empty_scan_is_a_complete_run() {
    let mut world = three_items_world();
    let summary = run_session(&mut world, &[], None);
    assert_eq!(summary, SessionSummary { total: 0, success: 0, fail: 0, skip: 0, cancelled: false });
    assert_eq!(
        world.messages(),
        vec!["Found 0 ROMs to process", "Scraping complete! Total: 0, Success: 0, Skipped: 0, Failed: 0"]
    );
}

#[test]
fn session_rejects_what_it_did_not_ask_for() {
    let mut session = Session::new(false);
    assert!(matches!(scrape(&mut session, SessionEvent::Exhausted).action, SessionAction::Rejected));
    assert_eq!(session.stage(), SessionStage::Scanning);
    scrape(&mut session, SessionEvent::Scanned { total: 1 });
    assert!(matches!(
        scrape(&mut session, SessionEvent::ItemDone(GameData::pending("x"))).action,
        SessionAction::Rejected
    ));
    let item = || SessionEvent::NextItem {
        cancel_requested: false,
        rom_name: "x".to_string(),
        console_name: "NES".to_string(),
    };
    assert!(matches!(scrape(&mut session, item()).action, SessionAction::Process { guides: false, .. }));
    assert_eq!(session.progress().current_rom, Some("x".to_string()));
    assert!(matches!(scrape(&mut session, item()).action, SessionAction::Rejected));
    let mut done = GameData::pending("x");
    done.metadata.status = ScrapeStatus::Skipped;
    assert!(matches!(scrape(&mut session, SessionEvent::ItemDone(done)).action, SessionAction::Store { .. }));
    // the scan announced one item: a second one is turned away
    assert!(matches!(scrape(&mut session, item()).action, SessionAction::Rejected));
    assert!(matches!(scrape(&mut session, SessionEvent::Exhausted).action, SessionAction::Finished { .. }));
    assert!(matches!(scrape(&mut session, SessionEvent::Exhausted).action, SessionAction::Rejected));
    assert_eq!(session.summary(), SessionSummary { total: 1, success: 0, fail: 0, skip: 1, cancelled: false });
}

#[test]
fn first_provider_with_an_answer_wins() {
    let mut world = World::new();
    for (name, answer) in [
        ("ScreenScraper", Err(ScraperError::GameNotFound)),
        ("TheGamesDB", Ok(found("Zelda", Some("https://example.com/z.png")))),
        ("Third", Ok(found("Other Zelda", Some("https://example.com/o.png")))),
    ] {
        let mut answers = HashMap::new();
        answers.insert("zelda.nes".to_string(), vec![answer]);
        world.providers.push(Provider { name, answers, downloads_fail: false });
    }
    world.box_art_width = Some(250);
    let summary = run_session(&mut world, &["zelda.nes"], None);
    assert_eq!(summary.success, 1);
    assert_eq!(
        world.searches,
        vec![
            ("ScreenScraper".to_string(), "zelda.nes".to_string()),
            ("TheGamesDB".to_string(), "zelda.nes".to_string()),
        ]
    );
    assert_eq!(world.stored["zelda.nes"].metadata.name, Some("Zelda".to_string()));
    assert_eq!(world.resizes, vec![250]);
    let messages = world.messages();
    assert!(messages.contains(&"Trying TheGamesDB for: zelda.nes"));
    assert!(messages.contains(&"TheGamesDB: Found Zelda"));
    assert!(!messages.iter().any(|m| m.contains("Third")));
}

#[test]
fn answer_without_image_fails_but_keeps_the_metadata() {
    let mut world = World::new();
    let mut answers = HashMap::new();
    answers.insert("zelda.nes".to_string(), vec![Ok(found("Zelda", None))]);
    world.providers.push(Provider { name: "ScreenScraper", answers, downloads_fail: false });
    let mut answers = HashMap::new();
    answers.insert("zelda.nes".to_string(), vec![Ok(found("Zelda 2", Some("https://example.com/z.png")))]);
    world.providers.push(Provider { name: "TheGamesDB", answers, downloads_fail: false });
    let summary = run_session(&mut world, &["zelda.nes"], None);
    assert_eq!(summary.fail, 1);
    assert_eq!(world.searches.len(), 1);
    let record = &world.stored["zelda.nes"];
    assert_eq!(record.metadata.status, ScrapeStatus::Failed);
    assert_eq!(record.metadata.name, Some("Zelda".to_string()));
    assert_eq!(record.metadata.rating, Some("4.5".to_string()));
    assert_eq!(record.metadata.image_path, None);
    assert_eq!(*world.messages().iter().rev().nth(1).unwrap(), "Added metadata to gamelist");
}

#[test]
fn failed_download_fails_the_item_and_keeps_the_metadata() {
    let mut world = three_items_world();
    world.providers[0].downloads_fail = true;
    let summary = run_session(&mut world, &["one.nes"], None);
    assert_eq!(summary.fail, 1);
    let record = &world.stored["one.nes"];
    assert_eq!(record.metadata.status, ScrapeStatus::Failed);
    assert_eq!(record.metadata.name, Some("One".to_string()));
    assert_eq!(record.metadata.developer, Some("Dev".to_string()));
    assert!(world
        .messages()
        .contains(&"Failed to download image: Network error: connection reset"));
}

#[test]
fn directory_failure_moves_on_to_the_next_provider() {
    let mut world = three_items_world();
    world.directories_fail = true;
    let summary = run_session(&mut world, &["one.nes"], None);
    assert_eq!(summary.fail, 1);
    assert_eq!(world.stored["one.nes"].metadata.status, ScrapeStatus::Failed);
    assert_eq!(*world.messages().iter().rev().nth(1).unwrap(), "Not found in any source");
}

#[test]
fn rate_limit_pauses_and_is_no_evidence_of_absence() {
    let mut world = World::new();
    let mut answers = HashMap::new();
    answers.insert("a.nes".to_string(), vec![Err(ScraperError::RateLimitExceeded)]);
    answers.insert("b.nes".to_string(), vec![Err(ScraperError::RateLimitExceeded)]);
    answers.insert("c.nes".to_string(), vec![Ok(found("C", Some("https://example.com/c.png")))]);
    answers.insert("d.nes".to_string(), vec![Err(ScraperError::RateLimitExceeded)]);
    answers.insert("e.nes".to_string(), vec![Err(ScraperError::Network("timeout".to_string()))]);
    world.providers.push(Provider { name: "ScreenScraper", answers, downloads_fail: false });
    let summary = run_session(&mut world, &["a.nes", "b.nes", "c.nes", "d.nes", "e.nes"], None);
    assert_eq!(summary, SessionSummary { total: 5, success: 1, fail: 4, skip: 0, cancelled: false });
    assert_eq!(world.waits, vec![1, 2, 1]);
    let messages = world.messages();
    assert!(messages.contains(&"Pausing for 2s (rate limited by ScreenScraper)"));
    assert_eq!(messages.iter().filter(|m| **m == "Failed to scrape").count(), 4);
    assert!(!messages.contains(&"Not found in any source"));
}

#[test]
fn metadata_track_without_providers_leaves_the_record() {
    let mut world = World::new();
    world.images.insert("NES/Imgs/one.png".to_string());
    let progress = Session::new(false).progress().duplicate();
    let mut backoff = BackoffState::new();
    let mut game_data = GameData::pending("one.nes");
    let handled = run_metadata(&mut world, "one.nes", &mut game_data, &progress, &mut backoff);
    assert!(!handled);
    assert_eq!(game_data.metadata.status, ScrapeStatus::Pending);
    assert!(world.updates.is_empty());
}

#[test]
fn metadata_track_rejects_what_it_did_not_ask_for() {
    let progress = Session::new(false).progress().duplicate();
    let mut backoff = BackoffState::new();
    let mut game_data = GameData::pending("one.nes");
    let mut track = MetadataTrack::new(vec!["P".to_string()], "one.nes".to_string(), None, false, None);
    let step = scrape_game_metadata(&mut track, MetadataEvent::Waited, &mut game_data, &progress, &mut backoff);
    assert!(matches!(step.action, MetadataAction::Rejected));
    assert!(step.updates.is_empty());
    assert_eq!(track.stage(), MetadataStage::Start);
    let step = scrape_game_metadata(&mut track, MetadataEvent::Begin, &mut game_data, &progress, &mut backoff);
    assert!(matches!(step.action, MetadataAction::CheckImage));
    let step = scrape_game_metadata(&mut track, MetadataEvent::Begin, &mut game_data, &progress, &mut backoff);
    assert!(matches!(step.action, MetadataAction::Rejected));
    assert_eq!(track.stage(), MetadataStage::CheckingImage);
    assert_eq!(game_data.metadata.status, ScrapeStatus::Pending);
}

fn guides_world() -> World {
    let mut world = three_items_world();
    let mut answers = HashMap::new();
    answers.insert(
        "one.nes".to_string(),
        vec![Ok(vec![
            "/gamefaqs-archive/nes/one/FAQ-by-A.txt".to_string(),
            "/gamefaqs-archive/nes/one/Maps-by-B.txt".to_string(),
            "plain.txt".to_string(),
        ])],
    );
    answers.insert("two.nes".to_string(), vec![Ok(vec![])]);
    answers.insert("three.nes".to_string(), vec![Err(ScraperError::PlatformNotSupported)]);
    let mut failing_guides = HashSet::new();
    failing_guides.insert("/gamefaqs-archive/nes/one/Maps-by-B.txt".to_string());
    world.guide_providers.push(GuideProvider { name: "GameFAQs", answers, failing_guides });
    world
}

#[test]
fn guides_are_fetched_one_by_one() {
    let mut world = guides_world();
    let progress = Session::new(true).progress().duplicate();
    let mut backoff = BackoffState::new();
    let mut game_data = GameData::pending("one.nes");
    let written = run_guides(&mut world, "one.nes", &mut game_data, &progress, &mut backoff);
    assert_eq!(written, vec!["FAQ-by-A.txt", "plain.txt"]);
    assert_eq!(game_data.guides.status, ScrapeStatus::Success);
    assert_eq!(game_data.guides.count, None);
    assert_eq!(
        world.messages(),
        vec![
            "Searching for guides for: one.nes",
            "Failed to download guide: Network error: Failed to connect: refused",
            "Found 3 guide(s)",
        ]
    );
}

#[test]
fn merged_status_counts_when_guides_are_configured() {
    let mut world = guides_world();
    let summary = run_session(&mut world, &["one.nes", "two.nes", "three.nes"], None);
    // one: success + success; two: success + failed; three: failed + failed
    assert_eq!(summary, SessionSummary { total: 3, success: 2, fail: 1, skip: 0, cancelled: false });
    assert_eq!(world.stored["two.nes"].guides.status, ScrapeStatus::Failed);
    assert_eq!(world.stored["three.nes"].guides.status, ScrapeStatus::Failed);
    let messages = world.messages();
    assert!(messages.contains(&"No guides found"));
    assert!(messages.contains(&"Guide search error: Platform not supported"));

    let second = run_session(&mut world, &["one.nes", "two.nes", "three.nes"], None);
    // one: skipped + skipped; two: skipped + failed; three: failed + failed
    assert_eq!(second, SessionSummary { total: 3, success: 0, fail: 2, skip: 1, cancelled: false });
    assert_eq!(world.stored["one.nes"].guides.status, ScrapeStatus::Skipped);
    assert_eq!(world.stored["one.nes"].guides.count, Some(2));
    assert!(world.messages().contains(&"Guides already exist, skipping"));
}

#[test]
fn stored_guide_count_comes_back() {
    let mut world = guides_world();
    world.guides_on_disk.insert("one.nes".to_string(), vec!["a.txt".to_string()]);
    let mut stored = GameData::pending("one.nes");
    stored.guides.count = Some(7);
    world.stored.insert("one.nes".to_string(), stored);
    let progress = Session::new(true).progress().duplicate();
    let mut backoff = BackoffState::new();
    let mut game_data = GameData::pending("one.nes");
    run_guides(&mut world, "one.nes", &mut game_data, &progress, &mut backoff);
    assert_eq!(game_data.guides.status, ScrapeStatus::Skipped);
    assert_eq!(game_data.guides.count, Some(7));
    assert!(world.searches.is_empty());
}

#[test]
fn guides_rate_limit_pauses_before_the_error_is_reported() {
    let mut world = World::new();
    let mut answers = HashMap::new();
    answers.insert("one.nes".to_string(), vec![Err(ScraperError::RateLimitExceeded)]);
    world.guide_providers.push(GuideProvider { name: "GameFAQs", answers, failing_guides: HashSet::new() });
    let mut answers = HashMap::new();
    answers.insert("one.nes".to_string(), vec![Ok(vec!["/x/guide.txt".to_string()])]);
    world.guide_providers.push(GuideProvider { name: "Mirror", answers, failing_guides: HashSet::new() });
    let progress = Session::new(true).progress().duplicate();
    let mut backoff = BackoffState::new();
    let mut game_data = GameData::pending("one.nes");
    let written = run_guides(&mut world, "one.nes", &mut game_data, &progress, &mut backoff);
    assert_eq!(written, vec!["guide.txt"]);
    assert_eq!(world.waits, vec![1]);
    assert_eq!(game_data.guides.status, ScrapeStatus::Success);
    assert_eq!(
        world.messages(),
        vec![
            "Searching for guides for: one.nes",
            "Pausing for 1s (rate limited by GameFAQs)",
            "Guide search error: Rate limit exceeded",
            "Found 1 guide(s)",
        ]
    );
    assert_eq!(backoff.next_backoff("GameFAQs"), 2);
    assert_eq!(backoff.next_backoff("Mirror"), 1);
}

#[test]
fn guides_directory_failure_ends_the_track_with_a_warning() {
    let mut world = guides_world();
    world.directories_fail = true;
    let progress = Session::new(true).progress().duplicate();
    let mut backoff = BackoffState::new();
    let mut game_data = GameData::pending("one.nes");
    let written = run_guides(&mut world, "one.nes", &mut game_data, &progress, &mut backoff);
    assert!(written.is_empty());
    assert_eq!(game_data.guides.status, ScrapeStatus::Success);
    assert_eq!(
        *world.messages().last().unwrap(),
        "Warning: Failed to create guides directory: permission denied"
    );
}
