//! Where the records of a run are kept below the ROM directory, and what is
//! written into its logs.

use vstd::prelude::*;
use crate::progress::{GameData, GameDataView};
use crate::scanner::{RomFile, RomFileView};
use crate::text::{join_path, joined, push_text, sanitize, sanitized};

verus! {

/// The characters that the name of a record file must not hold.
pub open spec fn unsafe_chars() -> Seq<char> {
    seq!['/', '\\', ':']
}

/// The name of the file that holds the record of an item: the console and
/// the item's name without extension, both made safe, with `_` between them.
pub open spec fn game_file_name(console_name: Seq<char>, name_no_extension: Seq<char>) -> Seq<char> {
    sanitized(console_name, unsafe_chars()) + "_"@ + sanitized(name_no_extension, unsafe_chars())
        + ".json"@
}

/// The directory of the library's own files below the ROM directory.
pub open spec fn collie_dir(roms_path: Seq<char>) -> Seq<char> {
    joined(roms_path, ".collie"@)
}

/// The file that holds the record of `rom`.
pub open spec fn game_data_path(roms_path: Seq<char>, rom: RomFileView) -> Seq<char> {
    joined(
        joined(collie_dir(roms_path), "games"@),
        game_file_name(rom.console.name, rom.name_no_extension),
    )
}

/// The line that the log of visited paths gets for `rom`: its console and
/// its file name as a path.
pub open spec fn crawled_line(rom: RomFileView) -> Seq<char> {
    joined(rom.console.name, rom.name) + "\n"@
}

/// The line that the index gets for an item: its file name.
pub open spec fn index_line(game_data: GameDataView) -> Seq<char> {
    game_data.rom_name + "\n"@
}

/// The directory of the library's own files below the ROM directory.
pub fn collie_dir_of(roms_path: &str) -> (r: String)
    ensures
        r@ == collie_dir(roms_path@),
{
    join_path(roms_path, ".collie")
}

/// The directory of the records.
pub fn games_dir(roms_path: &str) -> (r: String)
    ensures
        r@ == joined(collie_dir(roms_path@), "games"@),
{
    join_path(collie_dir_of(roms_path).as_str(), "games")
}

/// The index of the items that were processed.
pub fn games_index_file(roms_path: &str) -> (r: String)
    ensures
        r@ == joined(collie_dir(roms_path@), "games.txt"@),
{
    join_path(collie_dir_of(roms_path).as_str(), "games.txt")
}

/// The log of visited paths.
pub fn crawled_file(roms_path: &str) -> (r: String)
    ensures
        r@ == joined(collie_dir(roms_path@), "crawled"@),
{
    join_path(collie_dir_of(roms_path).as_str(), "crawled")
}

/// The file of the state of the last run.
pub fn state_file(roms_path: &str) -> (r: String)
    ensures
        r@ == joined(collie_dir(roms_path@), "state.json"@),
{
    join_path(collie_dir_of(roms_path).as_str(), "state.json")
}

/// The name of the file that holds the record of an item.
pub fn game_file_name_of(console_name: &str, name_no_extension: &str) -> (r: String)
    ensures
        r@ == game_file_name(console_name@, name_no_extension@),
{
    let bad = vec!['/', '\\', ':'];
    assert(bad@ =~= unsafe_chars());
    let mut r = sanitize(console_name, &bad);
    push_text(&mut r, "_");
    push_text(&mut r, sanitize(name_no_extension, &bad).as_str());
    push_text(&mut r, ".json");
    r
}

/// The file that holds the record of `rom`.
pub fn game_data_file(roms_path: &str, rom: &RomFile) -> (r: String)
    ensures
        r@ == game_data_path(roms_path@, rom@),
{
    let name = game_file_name_of(rom.console.name.as_str(), rom.name_no_extension.as_str());
    join_path(games_dir(roms_path).as_str(), name.as_str())
}

/// The line that the log of visited paths gets for `rom`.
pub fn crawled_entry(rom: &RomFile) -> (r: String)
    ensures
        r@ == crawled_line(rom@),
{
    let mut r = join_path(rom.console.name.as_str(), rom.name.as_str());
    push_text(&mut r, "\n");
    r
}

/// The line that the index gets for an item.
pub fn index_entry(game_data: &GameData) -> (r: String)
    ensures
        r@ == index_line(game_data@),
{
    let mut r = game_data.rom_name.clone();
    push_text(&mut r, "\n");
    r
}

/// What a forced refresh clears below the ROM directory, besides the cache:
/// the directory of the records, then the files of the index, of the state
/// and of the visited paths.
pub fn stored_data(roms_path: &str) -> (r: (String, Vec<String>))
    ensures
        r.0@ == joined(collie_dir(roms_path@), "games"@),
        r.1@.len() == 3,
        r.1@[0]@ == joined(collie_dir(roms_path@), "games.txt"@),
        r.1@[1]@ == joined(collie_dir(roms_path@), "state.json"@),
        r.1@[2]@ == joined(collie_dir(roms_path@), "crawled"@),
{
    let mut files: Vec<String> = Vec::new();
    files.push(games_index_file(roms_path));
    files.push(state_file(roms_path));
    files.push(crawled_file(roms_path));
    (games_dir(roms_path), files)
}

} // verus!
