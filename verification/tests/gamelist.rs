use collie::gamelist::{Game, GameList};

#[test]
fn test_create_game() {
    let game = Game::new("./Game.gba".to_string(), "Test Game".to_string())
        .with_desc(Some("A test game".to_string()))
        .with_rating_text(Some(format!("{:.1}", 0.85f32)))
        .with_releasedate(Some("2000-01-01".to_string()))
        .with_developer(Some("Test Dev".to_string()))
        .with_publisher(Some("Test Pub".to_string()))
        .with_genre(Some("Action".to_string()))
        .with_players(Some("1-2".to_string()));

    assert_eq!(game.name, "Test Game");
    assert_eq!(game.desc, Some("A test game".to_string()));
    assert_eq!(game.rating, Some("0.9".to_string()));
    assert_eq!(game.releasedate, Some("20000101T000000".to_string()));
    assert_eq!(game.developer, Some("Test Dev".to_string()));
    assert_eq!(game.publisher, Some("Test Pub".to_string()));
    assert_eq!(game.genre, Some("Action".to_string()));
    assert_eq!(game.players, Some("1-2".to_string()));
}

#[test]
fn test_date_formatting() {
    assert_eq!(Game::format_date("2000-01-15"), "20000115T000000");
    assert_eq!(Game::format_date("2000/01/15"), "20000115T000000");
    assert_eq!(Game::format_date("15/01/2000"), "20000115T000000");
    assert_eq!(Game::format_date("2000"), "20000101T000000");
}

#[test]
fn test_gamelist_add_update() {
    let mut gamelist = GameList::default();

    let game1 = Game::new("./Game1.gba".to_string(), "Game 1".to_string());
    let game2 = Game::new("./Game2.gba".to_string(), "Game 2".to_string());

    gamelist.add_or_update_game(game1.clone());
    gamelist.add_or_update_game(game2.clone());

    assert_eq!(gamelist.games.len(), 2);

    let game1_updated = Game::new("./Game1.gba".to_string(), "Game 1 Updated".to_string());
    gamelist.add_or_update_game(game1_updated);

    assert_eq!(gamelist.games.len(), 2);
    assert_eq!(gamelist.games[0].name, "Game 1 Updated");
}

#[test]
fn date_already_in_form_is_kept() {
    assert_eq!(Game::format_date("19901121T000000"), "19901121T000000");
    assert_eq!(Game::format_date("19901121T0000001"), "19901121T0000001");
}

#[test]
fn date_with_single_digits_is_padded() {
    assert_eq!(Game::format_date("1990-1-2"), "19900102T000000");
    assert_eq!(Game::format_date("  1990-11-21  "), "19901121T000000");
    assert_eq!(Game::format_date("3/4/1991"), "19910403T000000");
    assert_eq!(Game::format_date("1990-+7-08"), "19900708T000000");
}

#[test]
fn date_that_cannot_be_read_gets_first_of_january() {
    assert_eq!(Game::format_date("soon"), "soon0101T000000");
    assert_eq!(Game::format_date("1990-xx-01"), "1990-xx-010101T000000");
    assert_eq!(Game::format_date("199"), "1990101T000000");
    assert_eq!(Game::format_date("T"), "T0101T000000");
    assert_eq!(Game::format_date("1990-11"), "1990-110101T000000");
}

#[test]
fn parse_date_reads_the_four_forms() {
    let ymd = |y: &str, m: &str, d: &str| Some((y.to_string(), m.to_string(), d.to_string()));
    assert_eq!(Game::parse_date("1990-11-21"), ymd("1990", "11", "21"));
    assert_eq!(Game::parse_date("1990/11/21"), ymd("1990", "11", "21"));
    assert_eq!(Game::parse_date("21/11/1990"), ymd("1990", "11", "21"));
    assert_eq!(Game::parse_date("1990"), ymd("1990", "01", "01"));
    assert_eq!(Game::parse_date("1990-11-21-extra"), ymd("1990", "11", "21"));
    assert_eq!(Game::parse_date("1990-4294967296-01"), None);
    assert_eq!(Game::parse_date("1990-4294967295-01"), ymd("1990", "4294967295", "01"));
    assert_eq!(Game::parse_date("nineteen"), None);
    assert_eq!(Game::parse_date(""), None);
    assert_eq!(Game::parse_date("19a0"), None);
}

#[test]
fn gamelist_is_ordered_by_path() {
    let mut gamelist = GameList::default();
    for path in ["./c.gba", "./a.gba", "./b.gba", "./A.gba", "./aa.gba"] {
        gamelist.add_or_update_game(Game::new(path.to_string(), path.to_uppercase()));
    }
    let paths: Vec<&str> = gamelist.games.iter().map(|g| g.path.as_str()).collect();
    assert_eq!(paths, vec!["./A.gba", "./a.gba", "./aa.gba", "./b.gba", "./c.gba"]);
}

#[test]
fn gamelist_update_replaces_every_entry_with_the_path() {
    let mut gamelist = GameList {
        games: vec![
            Game::new("./z.gba".to_string(), "Z".to_string()),
            Game::new("./a.gba".to_string(), "first".to_string()),
            Game::new("./a.gba".to_string(), "second".to_string()),
        ],
    };
    gamelist.add_or_update_game(Game::new("./a.gba".to_string(), "third".to_string()));
    assert_eq!(gamelist.games.len(), 2);
    assert_eq!(gamelist.games[0].name, "third");
    assert_eq!(gamelist.games[1].name, "Z");
}

#[test]
fn find_game_gives_the_entry_at_the_path() {
    let mut gamelist = GameList::default();
    gamelist.add_or_update_game(Game::new("./Game1.gba".to_string(), "Game 1".to_string()));
    gamelist.add_or_update_game(Game::new("./Game2.gba".to_string(), "Game 2".to_string()));
    assert_eq!(gamelist.find_game("./Game2.gba").map(|g| g.name.as_str()), Some("Game 2"));
    assert!(gamelist.find_game("./Game3.gba").is_none());
    assert!(gamelist.find_game("Game2.gba").is_none());
}

#[test]
fn builders_set_image_and_guides() {
    let game = Game::new("./Game.gba".to_string(), "Game".to_string())
        .with_image(Some("./Imgs/Game.png".to_string()))
        .with_guides(Some(vec!["./Guides/Game/faq.txt".to_string()]))
        .with_releasedate(None);
    assert_eq!(game.image, Some("./Imgs/Game.png".to_string()));
    assert_eq!(game.guides, Some(vec!["./Guides/Game/faq.txt".to_string()]));
    assert_eq!(game.releasedate, None);
}

#[test]
fn format_xml_puts_each_tag_on_a_line() {
    assert_eq!(GameList::format_xml("<a><b>t</b><c/></a>"), "<a>\n  <b>t</b>\n<c/>\n</a>\n");
    assert_eq!(
        GameList::format_xml("<?xml version=\"1.0\"?>\n<r>\n  <x> </x>\n</r>"),
        "<?xml version=\"1.0\"?>\n<r>\n  <x>\n  </x>\n</r>\n"
    );
    assert_eq!(
        GameList::format_xml("<gameList><game><path>./a.gba</path><name>A B</name></game></gameList>"),
        "<gameList>\n  <game>\n    <path>./a.gba  </path>\n  <name>A B</name>\n</game>\n</gameList>\n"
    );
}

#[test]
fn format_xml_leaves_out_what_is_no_tag() {
    assert_eq!(GameList::format_xml(""), "");
    assert_eq!(GameList::format_xml("a<b"), "");
    assert_eq!(GameList::format_xml("just text"), "");
    assert_eq!(GameList::format_xml("<a>text"), "<a>text");
    assert_eq!(GameList::format_xml("</a></b>x<c></c>"), "</a>\n</b>\n<c>\n</c>\n");
    assert_eq!(GameList::format_xml("<>"), "<>\n");
    assert_eq!(GameList::format_xml("</>"), "</>\n");
    assert_eq!(GameList::format_xml("<a>\u{a0}\u{3000}<b/>"), "<a>\n  <b/>\n");
}
