use collie::console::Console;
use collie::progress::GameData;
use collie::scanner::RomFile;
use collie::storage::{
    collie_dir_of, crawled_entry, crawled_file, game_data_file, game_file_name_of, games_dir,
    games_index_file, index_entry, state_file, stored_data,
};

fn rom(console: &str, path: &str, name: &str, stem: &str) -> RomFile {
    RomFile {
        path: path.to_string(),
        name: name.to_string(),
        name_no_extension: stem.to_string(),
        console: Console {
            name: console.to_string(),
            patterns: vec![console.to_lowercase()],
            screenscraper_id: None,
            thegamesdb_id: None,
            gamefaqs_archive_id: None,
        },
    }
}

#[test]
fn test_append_crawled_path_uses_correct_separator() {
    let rom = rom("GBA", "GBA/game.gba", "game.gba", "game");
    let content = crawled_entry(&rom);
    assert!(content.contains("GBA/game.gba"), "Expected Unix path separator (/), got: {}", content);
    assert_eq!(content, "GBA/game.gba\n");
    assert_eq!(crawled_file("/tmp/collie_test_crawled_path"), "/tmp/collie_test_crawled_path/.collie/crawled");
}

#[test]
fn test_save_and_load_game_data() {
    let rom = rom("PS", "PS/test.bin", "test.bin", "test");
    assert_eq!(
        game_data_file("/tmp/collie_test_game_data", &rom),
        "/tmp/collie_test_game_data/.collie/games/PS_test.json"
    );
    let mut game_data = GameData::pending("test.bin");
    game_data.metadata.name = Some("Test Game".to_string());
    assert_eq!(index_entry(&game_data), "test.bin\n");
    assert_eq!(game_data.duplicate().metadata.name, Some("Test Game".to_string()));
}

#[test]
fn test_path_safe_filename_generation() {
    let rom = rom("N64", "N64/test:game/special.z64", "test:game/special.z64", "test:game/special");
    assert_eq!(
        game_data_file("/tmp/collie_test_safe_filename", &rom),
        "/tmp/collie_test_safe_filename/.collie/games/N64_test_game_special.json"
    );
    assert_eq!(game_file_name_of("A/B\\C:D", "x*y?z"), "A_B_C_D_x*y?z.json");
}

#[test]
fn files_below_the_rom_directory() {
    assert_eq!(collie_dir_of("/roms"), "/roms/.collie");
    assert_eq!(games_dir("/roms/"), "/roms/.collie/games");
    assert_eq!(games_index_file("/roms"), "/roms/.collie/games.txt");
    assert_eq!(state_file("/roms"), "/roms/.collie/state.json");
    let (dir, files) = stored_data("/roms");
    assert_eq!(dir, "/roms/.collie/games");
    assert_eq!(files, vec!["/roms/.collie/games.txt", "/roms/.collie/state.json", "/roms/.collie/crawled"]);
}
