use collie::console::Console;
use collie::scraper::gamefaqs::GameFAQsScraper;
use collie::scraper::ScraperError;

#[test]
fn test_parse_gopher_line() {
    let line = "0FAQ_Walkthrough-by--SGibson.txt\t/gamefaqs-archive/gba/advance-wars/FAQ_Walkthrough-by--SGibson.txt\tgopher.endangeredsoft.org\t70";
    let entry = GameFAQsScraper::parse_gopher_line(line).unwrap();

    assert_eq!(entry.item_type, '0');
    assert_eq!(entry.display_name, "FAQ_Walkthrough-by--SGibson.txt");
    assert_eq!(
        entry.path,
        "/gamefaqs-archive/gba/advance-wars/FAQ_Walkthrough-by--SGibson.txt"
    );
}

#[test]
fn gopher_line_without_path_says_nothing() {
    assert!(GameFAQsScraper::parse_gopher_line("").is_none());
    assert!(GameFAQsScraper::parse_gopher_line("0").is_none());
    assert!(GameFAQsScraper::parse_gopher_line("iJust a note").is_none());
    let entry = GameFAQsScraper::parse_gopher_line("1\t").unwrap();
    assert_eq!(entry.item_type, '1');
    assert_eq!(entry.display_name, "");
    assert_eq!(entry.path, "");
}

#[test]
fn listing_gives_text_files_up_to_the_closing_line() {
    let lines: Vec<String> = [
        "iWelcome\tfake\t(NULL)\t0",
        "0Guide A\t/gamefaqs-archive/gba/x/a.txt\thost\t70",
        "1Maps\t/gamefaqs-archive/gba/x/maps\thost\t70",
        "0Picture\t/gamefaqs-archive/gba/x/b.png\thost\t70",
        "0Guide C\t/gamefaqs-archive/gba/x/c.txt\thost\t70",
        ".",
        "0After the end\t/gamefaqs-archive/gba/x/d.txt\thost\t70",
    ]
    .iter()
    .map(|s| s.to_string())
    .collect();
    assert_eq!(
        GameFAQsScraper::guides_in_listing(&lines),
        vec![
            "/gamefaqs-archive/gba/x/a.txt".to_string(),
            "/gamefaqs-archive/gba/x/c.txt".to_string()
        ]
    );
    assert_eq!(GameFAQsScraper::guides_from_listing(Ok(lines)).len(), 2);
    assert!(GameFAQsScraper::guides_from_listing(Err(ScraperError::Network(
        "Failed to connect: refused".to_string()
    )))
    .is_empty());
}

#[test]
fn archive_directory_needs_a_platform() {
    let mut console = Console {
        name: "GBA".to_string(),
        patterns: vec!["gba".to_string()],
        screenscraper_id: Some(12),
        thegamesdb_id: Some(12),
        gamefaqs_archive_id: Some("gba".to_string()),
    };
    assert_eq!(
        GameFAQsScraper::archive_directory(&console, "advance-wars").unwrap(),
        "/gamefaqs-archive/gba/advance-wars"
    );
    console.gamefaqs_archive_id = None;
    assert!(matches!(
        GameFAQsScraper::archive_directory(&console, "advance-wars"),
        Err(ScraperError::PlatformNotSupported)
    ));
}

#[test]
fn server_address_and_request() {
    let scraper = GameFAQsScraper::new();
    assert_eq!(scraper.name(), "GameFAQs");
    assert_eq!(scraper.address(), "gopher.endangeredsoft.org:70");
    assert_eq!(GameFAQsScraper::request("/gamefaqs-archive/gba"), "/gamefaqs-archive/gba\r\n");
    assert_eq!(
        GameFAQsScraper::text_of_lines(&vec!["one".to_string(), "".to_string(), "two".to_string()]),
        "one\n\ntwo\n"
    );
}

#[test]
fn test_normalized_name() {
    let cases = [
        ("Advance Wars.gba", "advance-wars"),
        ("Advance Wars 2: Black Hole Rising.gba", "advance-wars-2-black-hole-rising"),
        ("Pokémon: Emerald.gba", "pokemon-emerald"),
        ("Mario & Luigi - Superstar Saga.gba", "mario-and-luigi-superstar-saga"),
        ("Mario Kart - Super Circuit.gba", "mario-kart-super-circuit"),
        ("Mario vs. Donkey Kong.gba", "mario-vs-donkey-kong"),
        ("Mother 1+2.gba", "mother-12"),
        ("Mother 3.gba", "mother-3"),
        ("Ninja Five-O.gba", "ninja-five-o"),
        ("Spider-Man - Mysterio's Menace.gba", "spider-man-mysterios-menace"),
        ("Yggdra Union - We'll Never Fight Alone.gba", "yggdra-union-well-never-fight-alone"),
    ];
    for (name, expected) in cases {
        assert_eq!(GameFAQsScraper::normalized_name(name), expected);
    }
}

#[test]
fn normalized_name_drops_numbers_notes_and_folders() {
    assert_eq!(GameFAQsScraper::normalized_name("/roms/GBA/12. Advance Wars (USA).gba"), "advance-wars");
    assert_eq!(GameFAQsScraper::normalized_name("/roms/GBA/3)Golden Sun [!].gba"), "golden-sun");
    assert_eq!(GameFAQsScraper::normalized_name("POKÉMON.gba"), "pokemon");
    assert_eq!(GameFAQsScraper::normalized_name("/roms/GBA/"), "");
    assert_eq!(GameFAQsScraper::normalized_name("   "), "");
}
