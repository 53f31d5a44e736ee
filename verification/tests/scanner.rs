use collie::console::{Console, ConsolesConfig};
use collie::scanner::{FolderEntry, FolderListing, RomScanner};

fn console(name: &str, pattern: &str) -> Console {
    Console {
        name: name.to_string(),
        patterns: vec![pattern.to_string()],
        screenscraper_id: None,
        thegamesdb_id: None,
        gamefaqs_archive_id: None,
    }
}

fn file(name: &str) -> FolderEntry {
    FolderEntry { name: name.to_string(), is_dir: false }
}

fn dir(name: &str) -> FolderEntry {
    FolderEntry { name: name.to_string(), is_dir: true }
}

#[test]
fn console_folder_keeps_roms_only() {
    let scanner = RomScanner::new(ConsolesConfig { consoles: vec![console("GBA", "gba")] });
    let gba = console("GBA", "gba");
    let entries = vec![
        file("Advance Wars.gba"),
        dir("Imgs"),
        file("Imgs"),
        file(".hidden.gba"),
        file("gamelist.xml"),
        file("launch.MiyooCmd"),
        file("settings.CFG"),
        file("cache.db"),
        file("readme.nfo"),
        file("README"),
        file("Mother 1+2.tar.gz"),
        file("trailing."),
        dir("Guides"),
    ];
    let roms = scanner.scan_console_folder("/roms/GBA", &entries, &gba);
    let names: Vec<&str> = roms.iter().map(|r| r.name.as_str()).collect();
    assert_eq!(names, vec!["Advance Wars.gba", "README", "Mother 1+2.tar.gz", "trailing."]);
    let stems: Vec<&str> = roms.iter().map(|r| r.name_no_extension.as_str()).collect();
    assert_eq!(stems, vec!["Advance Wars", "README", "Mother 1+2.tar", "trailing"]);
    assert_eq!(roms[0].path, "/roms/GBA/Advance Wars.gba");
    assert_eq!(roms[0].console.name, "GBA");
}

#[test]
fn directory_scan_follows_the_listing() {
    let scanner = RomScanner::new(ConsolesConfig {
        consoles: vec![console("SNES", "SFC"), console("Game Boy", "GB")],
    });
    let listings = vec![
        FolderListing { name: "gb".to_string(), is_dir: true, entries: vec![file("Tetris.gb")] },
        FolderListing { name: "notes.txt".to_string(), is_dir: false, entries: vec![] },
        FolderListing { name: "PS".to_string(), is_dir: true, entries: vec![file("Game.bin")] },
        FolderListing {
            name: "sfc".to_string(),
            is_dir: true,
            entries: vec![file("Zelda.sfc"), file("Zelda.xml"), file("Mario.sfc")],
        },
        FolderListing { name: "SFC".to_string(), is_dir: false, entries: vec![file("x.sfc")] },
    ];
    let roms = scanner.scan_directory("/roms", &listings);
    let found: Vec<(&str, &str)> =
        roms.iter().map(|r| (r.console.name.as_str(), r.path.as_str())).collect();
    assert_eq!(
        found,
        vec![
            ("Game Boy", "/roms/gb/Tetris.gb"),
            ("SNES", "/roms/sfc/Zelda.sfc"),
            ("SNES", "/roms/sfc/Mario.sfc"),
        ]
    );
    assert_eq!(scanner.consoles().consoles.len(), 2);
}
