use collie::console::{Console, ConsolesConfig};

fn consoles() -> ConsolesConfig {
    ConsolesConfig {
        consoles: vec![
            Console {
                name: "SNES".to_string(),
                patterns: vec!["SNES".to_string(), "SFC".to_string()],
                screenscraper_id: Some(4),
                thegamesdb_id: Some(6),
                gamefaqs_archive_id: Some("snes".to_string()),
            },
            Console {
                name: "Game Boy".to_string(),
                patterns: vec!["GB".to_string()],
                screenscraper_id: Some(9),
                thegamesdb_id: Some(4),
                gamefaqs_archive_id: Some("gameboy".to_string()),
            },
            Console {
                name: "Super Famicom".to_string(),
                patterns: vec!["sfc".to_string()],
                screenscraper_id: None,
                thegamesdb_id: None,
                gamefaqs_archive_id: None,
            },
        ],
    }
}

#[test]
fn test_find_console() {
    let config = consoles();

    let sfc = config.find_console("SFC").unwrap();
    assert_eq!(sfc.name, "SNES");
    assert_eq!(sfc.screenscraper_id, Some(4));

    let gb = config.find_console("gb").unwrap();
    assert_eq!(gb.name, "Game Boy");
    assert_eq!(gb.screenscraper_id, Some(9));

    assert!(config.find_console("NOTEXIST").is_none());
}

#[test]
fn find_console_takes_the_first_match() {
    let config = consoles();
    assert_eq!(config.find_console("sfc").unwrap().name, "SNES");
    assert!(config.find_console("").is_none());
    assert!(config.find_console("SF").is_none());
}

#[test]
fn all_patterns_keeps_the_order() {
    assert_eq!(consoles().all_patterns(), vec!["SNES", "SFC", "GB", "sfc"]);
    assert!(ConsolesConfig { consoles: vec![] }.all_patterns().is_empty());
}
