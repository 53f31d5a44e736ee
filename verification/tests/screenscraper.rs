use collie::console::Console;
use collie::json::{parse, Json};
use collie::scraper::screenscraper::{default_box_art_type, ScreenScraper};
use collie::scraper::ScraperError;

fn json(text: &str) -> Json {
    parse(text).unwrap()
}

fn regions(list: &[&str]) -> Vec<String> {
    list.iter().map(|r| r.to_string()).collect()
}

fn pairs(list: &[(&str, &str)]) -> Vec<(String, String)> {
    list.iter().map(|(k, v)| (k.to_string(), v.to_string())).collect()
}

fn snes() -> Console {
    Console {
        name: "SNES".to_owned(),
        patterns: vec!["SNES".to_owned(), "SFC".to_owned()],
        thegamesdb_id: Some(4),
        screenscraper_id: Some(4),
        gamefaqs_archive_id: None,
    }
}

#[test]
fn test_build_api_url_without_auth() {
    let scraper = ScreenScraper::new();
    let url = scraper.build_api_url("jeuInfos.php", &pairs(&[("systemeid", "4"), ("romnom", "test")]));

    assert!(url.contains("devid="));
    assert!(url.contains("devpassword="));
    assert!(url.contains("softname=collie"));
    assert!(url.contains("output=json"));
    assert!(url.contains("systemeid=4"));
    assert!(url.contains("romnom=test"));
    assert!(!url.contains("ssid="));
    assert!(!url.contains("sspassword="));
}

#[test]
fn test_build_api_url_with_auth() {
    let mut scraper = ScreenScraper::new();
    scraper.username = Some("testuser".to_string());
    scraper.password = Some("testpass".to_string());

    let url = scraper.build_api_url("jeuInfos.php", &pairs(&[("systemeid", "4")]));

    assert!(url.contains("ssid=testuser"));
    assert!(url.contains("sspassword=testpass"));
}

#[test]
fn test_parse_game_metadata_full() {
    let scraper = ScreenScraper::new();
    let json = json(
        r#"{
        "response": {
            "jeu": {
                "id": "12345",
                "noms": [{"text": "Super Mario World"}],
                "synopsis": [{"text": "A classic platformer game"}],
                "dates": [{"text": "1990-11-21"}],
                "developpeur": {"text": "Nintendo EAD"},
                "editeur": {"text": "Nintendo"},
                "genres": [{"noms": [{"text": "Platform"}]}],
                "joueurs": {"text": "1-2"},
                "classifications": [{"text": "4.5"}]
            }
        }
    }"#,
    );

    let metadata = scraper.parse_game_metadata(&json).unwrap();

    assert_eq!(metadata.name, "Super Mario World");
    assert_eq!(metadata.description, Some("A classic platformer game".to_string()));
    assert_eq!(metadata.release_date, Some("1990-11-21".to_string()));
    assert_eq!(metadata.developer, Some("Nintendo EAD".to_string()));
    assert_eq!(metadata.publisher, Some("Nintendo".to_string()));
    assert_eq!(metadata.genre, Some("Platform".to_string()));
    assert_eq!(metadata.players, Some("1-2".to_string()));
    assert_eq!(metadata.rating.as_deref().and_then(|r| r.parse::<f32>().ok()), Some(4.5));
}

#[test]
fn test_parse_game_metadata_minimal() {
    let scraper = ScreenScraper::new();
    let json = json(r#"{ "jeu": { "noms": [{"text": "Test Game"}] } }"#);

    let metadata = scraper.parse_game_metadata(&json).unwrap();

    assert_eq!(metadata.name, "Test Game");
    assert_eq!(metadata.description, None);
    assert_eq!(metadata.release_date, None);
    assert_eq!(metadata.developer, None);
    assert_eq!(metadata.publisher, None);
    assert_eq!(metadata.genre, None);
    assert_eq!(metadata.players, None);
    assert_eq!(metadata.rating, None);
}

#[test]
fn test_parse_game_metadata_missing_jeu() {
    let scraper = ScreenScraper::new();
    let json = json(r#"{ "response": {} }"#);

    let result = scraper.parse_game_metadata(&json);
    assert!(result.is_err());
    assert!(matches!(result.unwrap_err(), ScraperError::ParseError(_)));
}

#[test]
fn test_get_media_url_exact_region_match() {
    let scraper = ScreenScraper::new();
    let json = json(
        r#"{ "response": { "jeu": { "medias": [
            { "type": "box-2D", "region": "us", "url": "https://example.com/us.jpg" },
            { "type": "box-2D", "region": "eu", "url": "https://example.com/eu.jpg" },
            { "type": "box-2D", "region": "jp", "url": "https://example.com/jp.jpg" }
        ] } } }"#,
    );

    let url = scraper.get_media_url(&json, "box-2D", &regions(&["eu", "us", "jp"]));

    assert_eq!(url, Some("https://example.com/eu.jpg".to_string()));
}

#[test]
fn test_get_media_url_fallback_region() {
    let scraper = ScreenScraper::new();
    let json = json(
        r#"{ "jeu": { "medias": [
            { "type": "box-2D", "region": "jp", "url": "https://example.com/jp.jpg" },
            { "type": "box-2D", "region": "us", "url": "https://example.com/us.jpg" }
        ] } }"#,
    );

    let url = scraper.get_media_url(&json, "box-2D", &regions(&["eu", "us", "jp"]));

    assert_eq!(url, Some("https://example.com/us.jpg".to_string()));
}

#[test]
fn test_get_media_url_wrong_type() {
    let scraper = ScreenScraper::new();
    let json = json(
        r#"{ "response": { "jeu": { "medias": [
            { "type": "screenshot", "region": "us", "url": "https://example.com/screenshot.jpg" }
        ] } } }"#,
    );

    let url = scraper.get_media_url(&json, "box-2D", &regions(&["us"]));

    assert_eq!(url, None);
}

#[test]
fn test_get_media_url_no_medias() {
    let scraper = ScreenScraper::new();
    let json = json(r#"{ "response": { "jeu": {} } }"#);

    let url = scraper.get_media_url(&json, "box-2D", &regions(&["us"]));

    assert_eq!(url, None);
}

#[test]
fn test_get_media_url_multiple_types_filter() {
    let scraper = ScreenScraper::new();
    let json = json(
        r#"{ "response": { "jeu": { "medias": [
            { "type": "screenshot", "region": "us", "url": "https://example.com/screenshot.jpg" },
            { "type": "box-2D", "region": "us", "url": "https://example.com/box.jpg" },
            { "type": "sstitle", "region": "us", "url": "https://example.com/title.jpg" }
        ] } } }"#,
    );

    let url = scraper.get_media_url(&json, "box-2D", &regions(&["us"]));

    assert_eq!(url, Some("https://example.com/box.jpg".to_string()));
}

#[test]
fn test_get_media_url_region_priority() {
    let scraper = ScreenScraper::new();
    let json = json(
        r#"{ "response": { "jeu": { "medias": [
            { "type": "box-2D", "region": "jp", "url": "https://example.com/jp.jpg" },
            { "type": "box-2D", "region": "wor", "url": "https://example.com/wor.jpg" },
            { "type": "box-2D", "region": "us", "url": "https://example.com/us.jpg" }
        ] } } }"#,
    );

    let url = scraper.get_media_url(&json, "box-2D", &regions(&["jp", "us", "eu"]));

    assert_eq!(url, Some("https://example.com/jp.jpg".to_string()));
}

#[test]
fn test_authenticate() {
    let mut scraper = ScreenScraper::new();

    assert!(scraper.username.is_none());
    assert!(scraper.password.is_none());

    scraper.authenticate("testuser", "testpass");

    assert_eq!(scraper.username, Some("testuser".to_string()));
    assert_eq!(scraper.password, Some("testpass".to_string()));
}

#[test]
fn test_screenscraper_new() {
    let scraper = ScreenScraper::new();

    assert!(scraper.username.is_none());
    assert!(scraper.password.is_none());
    assert_eq!(scraper.box_art_type, "box-2D");
    assert_eq!(default_box_art_type(), "box-2D");
    assert_eq!(scraper.name(), "ScreenScraper");
    assert_eq!(ScreenScraper::default().with_box_art_type("box-3D".to_string()).box_art_type, "box-3D");
}

#[test]
fn api_url_in_full() {
    let mut scraper = ScreenScraper::new();
    assert_eq!(
        scraper.build_api_url("jeuInfos.php", &pairs(&[("systemeid", "4"), ("romnom", "test")])),
        "https://api.screenscraper.fr/api2/jeuInfos.php?devid=Silenced8261&devpassword=d7jsIKm1Jt7&softname=collie&output=json&systemeid=4&romnom=test"
    );
    scraper.username = Some("user".to_string());
    assert!(!scraper.build_api_url("x", &vec![]).contains("ssid="));
    scraper.authenticate("user", "secret");
    assert_eq!(
        scraper.build_api_url("x", &vec![]),
        "https://api.screenscraper.fr/api2/x?devid=Silenced8261&devpassword=d7jsIKm1Jt7&softname=collie&ssid=user&sspassword=secret&output=json"
    );
}

#[test]
fn search_request_names_file_size_and_checksum() {
    let scraper = ScreenScraper::new();
    let contents = b"123456789".to_vec();
    let url = scraper
        .search_request("/roms/SFC/Super Mario World (USA) é.zip", &snes(), Some(9), Some(&contents))
        .unwrap();
    assert_eq!(
        url,
        "https://api.screenscraper.fr/api2/jeuInfos.php?devid=Silenced8261&devpassword=d7jsIKm1Jt7&softname=collie&output=json&romnom=Super%20Mario%20World%20%28USA%29%20%C3%A9.zip&systemeid=4&romtype=rom&romtaille=9&crc=cbf43926"
    );
    let url = scraper.search_request("game-1_a.b~c.sfc", &snes(), None, None).unwrap();
    assert!(url.ends_with("&output=json&romnom=game-1_a.b~c.sfc&systemeid=4&romtype=rom"));
    let empty: Vec<u8> = vec![];
    let url = scraper.search_request("a.sfc", &snes(), Some(0), Some(&empty)).unwrap();
    assert!(url.ends_with("&romtaille=0&crc=0"));
}

#[test]
fn search_request_needs_console_and_file() {
    let scraper = ScreenScraper::new();
    let mut console = snes();
    assert!(matches!(scraper.search_request("/roms/SFC/", &console, None, None), Err(ScraperError::GameNotFound)));
    assert!(matches!(scraper.search_request("", &console, None, None), Err(ScraperError::GameNotFound)));
    assert!(matches!(scraper.search_request("/roms/..", &console, None, None), Err(ScraperError::GameNotFound)));
    console.screenscraper_id = None;
    assert!(matches!(
        scraper.search_request("/roms/SFC/a.sfc", &console, None, None),
        Err(ScraperError::PlatformNotSupported)
    ));
    console.screenscraper_id = Some(-3);
    assert!(scraper.search_request("a.sfc", &console, None, None).unwrap().contains("&systemeid=-3&"));
}

#[test]
fn status_decides_before_the_body_is_read() {
    let scraper = ScreenScraper::new();
    assert!(matches!(scraper.search_result(403, "{}"), Err(ScraperError::AuthenticationFailed)));
    assert!(matches!(scraper.search_result(404, "{}"), Err(ScraperError::GameNotFound)));
    for status in [429, 430, 431] {
        assert!(matches!(scraper.search_result(status, "{}"), Err(ScraperError::RateLimitExceeded)));
    }
    match scraper.search_result(500, "Server is down") {
        Err(ScraperError::Network(text)) => assert_eq!(text, "Server is down"),
        other => panic!("unexpected: {:?}", other),
    }
    assert!(matches!(scraper.search_result(432, ""), Err(ScraperError::Network(_))));
    assert!(matches!(scraper.search_result(200, "not json"), Err(ScraperError::ParseError(_))));
    assert!(matches!(scraper.search_result(200, "{}"), Err(ScraperError::ParseError(_))));
    assert!(ScreenScraper::status_error(200, "anything").is_none());
}

#[test]
fn search_result_reads_metadata_and_picture() {
    let scraper = ScreenScraper::new();
    let body = r#"{ "response": { "jeu": {
        "noms": [{"text": "Super Mario World"}, {"text": "Other"}],
        "developpeur": {"text": "Nintendo EAD"},
        "classifications": [{"text": "4.5"}],
        "medias": [
            { "type": "box-2D", "region": "jp", "url": "https://example.com/jp.jpg" },
            { "type": "box-2D", "url": "https://example.com/none.jpg" },
            { "type": "box-3D", "region": "us", "url": "https://example.com/3d.jpg" },
            { "type": "box-2D", "region": "eu", "url": "https://example.com/eu.jpg" },
            { "type": "box-2D", "region": "eu", "url": "https://example.com/eu2.jpg" }
        ]
    } } }"#;
    let metadata = scraper.search_result(200, body).unwrap();
    assert_eq!(metadata.name, "Super Mario World");
    assert_eq!(metadata.developer, Some("Nintendo EAD".to_string()));
    assert_eq!(metadata.rating, Some("4.5".to_string()));
    assert_eq!(metadata.image_url, Some("https://example.com/eu.jpg".to_string()));
    assert_eq!(metadata.thumbnail_url, None);

    let three_d = ScreenScraper::new().with_box_art_type("box-3D".to_string());
    assert_eq!(three_d.search_result(200, body).unwrap().image_url, Some("https://example.com/3d.jpg".to_string()));
    let none = ScreenScraper::new().with_box_art_type("wheel".to_string());
    assert_eq!(none.search_result(200, body).unwrap().image_url, None);
}

#[test]
fn game_without_name_is_unknown() {
    let scraper = ScreenScraper::new();
    let metadata = scraper.parse_game_metadata(&json(r#"{ "jeu": { "noms": "text" } }"#)).unwrap();
    assert_eq!(metadata.name, "Unknown");
    let metadata = scraper.parse_game_metadata(&json(r#"{ "response": 3, "jeu": { "noms": [{"text": 5}] } }"#)).unwrap();
    assert_eq!(metadata.name, "Unknown");
    match scraper.parse_game_metadata(&json("[1, 2]")) {
        Err(e) => assert_eq!(e.message(), "Parse error: Missing 'jeu' field"),
        Ok(_) => panic!("no game expected"),
    }
}

#[test]
fn best_picture_without_address_gives_none() {
    let scraper = ScreenScraper::new();
    let json = json(
        r#"{ "jeu": { "medias": [
            { "type": "box-2D", "region": "us" },
            { "type": "box-2D", "region": "eu", "url": "https://example.com/eu.jpg" }
        ] } }"#,
    );
    assert_eq!(scraper.get_media_url(&json, "box-2D", &regions(&["us", "eu"])), None);
    assert_eq!(
        scraper.get_media_url(&json, "box-2D", &regions(&["eu", "us"])),
        Some("https://example.com/eu.jpg".to_string())
    );
    assert_eq!(scraper.get_media_url(&json, "box-2D", &regions(&[])), None);
}

#[test]
fn get_game_metadata_is_not_offered() {
    match ScreenScraper::new().get_game_metadata("12345") {
        Err(e) => assert_eq!(e.message(), "Parse error: Not implemented for ScreenScraper"),
        Ok(_) => panic!("no metadata expected"),
    }
}

#[test]
fn download_url_bounds_the_size() {
    assert_eq!(
        ScreenScraper::download_url("https://example.com/a.png"),
        "https://example.com/a.png?maxwidth=250&maxheight=360"
    );
    assert_eq!(
        ScreenScraper::download_url("https://example.com/a.php?id=3"),
        "https://example.com/a.php?id=3&maxwidth=250&maxheight=360"
    );
}

#[test]
fn json_values_are_walked_by_key_and_place() {
    let value = json(r#"{ "a": [1, "two", null, true, {"b": "c"}], "n": -1.5e3 }"#);
    assert!(value.get("missing").is_none());
    assert!(value.at(0).is_none());
    let list = value.get("a").unwrap();
    assert_eq!(list.as_array().unwrap().len(), 5);
    assert!(matches!(list.at(0), Some(Json::Number(n)) if n == "1"));
    assert_eq!(list.at(1).unwrap().as_str(), Some("two"));
    assert!(matches!(list.at(2), Some(Json::Null)));
    assert!(matches!(list.at(3), Some(Json::Bool(true))));
    assert_eq!(list.at(4).unwrap().get("b").unwrap().as_str(), Some("c"));
    assert!(list.at(5).is_none());
    assert!(list.get("b").is_none());
    assert!(list.as_str().is_none());
    assert!(value.as_array().is_none());
    assert!(parse("{").is_err());
}
