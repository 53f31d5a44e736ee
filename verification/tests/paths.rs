use collie::console::Console;
use collie::guides::{guide_file_name_of, GuidesStage, GuidesTrack};
use collie::progress::GameData;
use collie::scanner::RomFile;
use collie::scraper::screenscraper::{ScreenScraper, ScreenScraperConfig};
use collie::scraping::{parent_dir_of, strip_base, MetadataStage, ScrapingConfig};
use collie::server::api::games::load_game_by_rom_name;
use collie::server::api::scrape::get_state;
use collie::server::state::ScrapingState;
use collie::text::{join_path, parse_u32, split_text, split_words, trim_text};

fn config() -> ScrapingConfig {
    ScrapingConfig {
        roms_path: "/roms".to_string(),
        images_folder: "Imgs".to_string(),
        guides_folder: "Guides".to_string(),
        box_art_width: Some(250),
        skip_cache: false,
    }
}

fn rom(path: &str, name: &str, stem: &str) -> RomFile {
    RomFile {
        path: path.to_string(),
        name: name.to_string(),
        name_no_extension: stem.to_string(),
        console: Console {
            name: "GBA".to_string(),
            patterns: vec!["gba".to_string()],
            screenscraper_id: Some(12),
            thegamesdb_id: Some(12),
            gamefaqs_archive_id: Some("gba".to_string()),
        },
    }
}

#[test]
fn image_and_guides_lie_beside_the_rom() {
    let rom = rom("/roms/GBA/Advance Wars.gba", "Advance Wars.gba", "Advance Wars");
    assert_eq!(config().image_path(&rom), "/roms/GBA/Imgs/Advance Wars.png");
    assert_eq!(config().guides_dir(&rom), "/roms/GBA/Guides/Advance Wars");
    assert_eq!(parent_dir_of("/roms/GBA/a.gba"), "/roms/GBA");
    assert_eq!(parent_dir_of("/a.gba"), "/");
    assert_eq!(parent_dir_of("a.gba"), "");
    assert_eq!(parent_dir_of("GBA/"), "GBA");
}

#[test]
fn paths_relative_to_the_rom_directory() {
    assert_eq!(strip_base("/roms/GBA/Imgs/a.png", "/roms"), Some("GBA/Imgs/a.png".to_string()));
    assert_eq!(strip_base("/roms/GBA/Imgs/a.png", "/roms/"), Some("GBA/Imgs/a.png".to_string()));
    assert_eq!(strip_base("/roms", "/roms"), Some("".to_string()));
    assert_eq!(strip_base("/roms2/a.png", "/roms"), None);
    assert_eq!(strip_base("/other/a.png", "/roms"), None);
    assert_eq!(join_path("/roms", "/abs"), "/abs");
    assert_eq!(join_path("", "a"), "a");
    assert_eq!(join_path("a/", "b"), "a/b");
    assert_eq!(join_path("a", ""), "a/");
}

#[test]
fn tracks_for_a_rom_start_at_the_start() {
    let rom = rom("/roms/GBA/Advance Wars.gba", "Advance Wars.gba", "Advance Wars");
    let providers = vec!["ScreenScraper".to_string()];
    let track = config().metadata_track(&providers, &rom);
    assert_eq!(track.stage(), MetadataStage::Start);
    let track = GuidesTrack::for_rom(&providers, &rom, &config());
    assert_eq!(track.stage(), GuidesStage::Start);
}

#[test]
fn guide_file_names() {
    assert_eq!(guide_file_name_of("/gamefaqs-archive/gba/x/FAQ.txt"), "FAQ.txt");
    assert_eq!(guide_file_name_of("FAQ.txt"), "FAQ.txt");
    assert_eq!(guide_file_name_of("dir/"), "");
    assert_eq!(guide_file_name_of(""), "");
}

#[test]
fn provider_from_its_settings() {
    let with = |username: Option<&str>, password: Option<&str>| {
        ScreenScraper::from_config(ScreenScraperConfig {
            username: username.map(|s| s.to_string()),
            password: password.map(|s| s.to_string()),
            box_art_type: "box-3D".to_string(),
        })
    };
    let both = with(Some("user"), Some("secret"));
    assert_eq!(both.username, Some("user".to_string()));
    assert_eq!(both.password, Some("secret".to_string()));
    assert_eq!(both.box_art_type, "box-3D");
    assert_eq!(with(Some("user"), None).username, None);
    assert_eq!(with(None, Some("secret")).password, None);
}

#[test]
fn records_are_found_by_rom_name() {
    let mut second = GameData::pending("b.gba");
    second.metadata.name = Some("first B".to_string());
    let mut third = GameData::pending("b.gba");
    third.metadata.name = Some("second B".to_string());
    let records = vec![GameData::pending("a.gba"), second, third];
    assert_eq!(
        load_game_by_rom_name(&records, "b.gba").unwrap().metadata.name,
        Some("first B".to_string())
    );
    assert!(load_game_by_rom_name(&records, "c.gba").is_none());
    let mut live = ScrapingState::started();
    live.progress = 3;
    assert_eq!(get_state(true, &live, ScrapingState::default()).progress, 3);
    assert_eq!(get_state(false, &live, ScrapingState::default()).progress, 0);
}

#[test]
fn text_helpers() {
    assert_eq!(trim_text(" \t a b \u{3000}\n"), "a b");
    assert_eq!(trim_text("   "), "");
    assert_eq!(split_text("a,,b,", ','), vec!["a", "", "b", ""]);
    assert_eq!(split_text("", ','), vec![""]);
    assert_eq!(split_words("  one two\tthree\u{a0}four "), vec!["one", "two", "three", "four"]);
    assert!(split_words(" \n ").is_empty());
    assert_eq!(parse_u32("0042"), Some(42));
    assert_eq!(parse_u32("+7"), Some(7));
    assert_eq!(parse_u32("4294967295"), Some(u32::MAX));
    assert_eq!(parse_u32("4294967296"), None);
    assert_eq!(parse_u32("00000000000000000000001"), Some(1));
    for bad in ["", "+", "-1", "1 ", " 1", "1.0", "++1", "١"] {
        assert_eq!(parse_u32(bad), None);
    }
}
