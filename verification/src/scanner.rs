//! From the listing of a ROM directory to the items of a run: which folders
//! stand for a console, and which of their entries are ROMs.

use vstd::prelude::*;
use crate::console::{Console, ConsoleView, ConsolesConfig};
use crate::text::{
    after_last, after_last_index, ascii_lowered, chars_of, join_path, joined,
    same_ignoring_ascii_case, same_text, string_of_range,
};

verus! {

/// A ROM that the scan has found.
#[derive(Debug, Clone)]
pub struct RomFile {
    pub path: String,
    pub name: String,
    pub name_no_extension: String,
    pub console: Console,
}

/// The mathematical value of a [`RomFile`].
pub struct RomFileView {
    pub path: Seq<char>,
    pub name: Seq<char>,
    pub name_no_extension: Seq<char>,
    pub console: ConsoleView,
}

impl View for RomFile {
    type V = RomFileView;

    open spec fn view(&self) -> RomFileView {
        RomFileView {
            path: self.path@,
            name: self.name@,
            name_no_extension: self.name_no_extension@,
            console: self.console@,
        }
    }
}

/// The values of a list of ROMs, in order.
pub open spec fn roms_view(v: Seq<RomFile>) -> Seq<RomFileView> {
    Seq::new(v.len(), |i: int| v[i]@)
}

/// One entry of a folder: its name, and whether it is a directory.
#[derive(Debug, Clone)]
pub struct FolderEntry {
    pub name: String,
    pub is_dir: bool,
}

/// The mathematical value of a [`FolderEntry`].
pub struct FolderEntryView {
    pub name: Seq<char>,
    pub is_dir: bool,
}

impl View for FolderEntry {
    type V = FolderEntryView;

    open spec fn view(&self) -> FolderEntryView {
        FolderEntryView { name: self.name@, is_dir: self.is_dir }
    }
}

/// The values of a list of entries, in order.
pub open spec fn entries_view(v: Seq<FolderEntry>) -> Seq<FolderEntryView> {
    Seq::new(v.len(), |i: int| v[i]@)
}

/// One entry of the ROM directory together with what it holds, where it is a
/// directory.
#[derive(Debug, Clone)]
pub struct FolderListing {
    pub name: String,
    pub is_dir: bool,
    pub entries: Vec<FolderEntry>,
}

/// The mathematical value of a [`FolderListing`].
pub struct FolderListingView {
    pub name: Seq<char>,
    pub is_dir: bool,
    pub entries: Seq<FolderEntryView>,
}

impl View for FolderListing {
    type V = FolderListingView;

    open spec fn view(&self) -> FolderListingView {
        FolderListingView {
            name: self.name@,
            is_dir: self.is_dir,
            entries: entries_view(self.entries@),
        }
    }
}

/// The values of a list of listings, in order.
pub open spec fn listings_view(v: Seq<FolderListing>) -> Seq<FolderListingView> {
    Seq::new(v.len(), |i: int| v[i]@)
}

/// The extension of a file name: what stands behind its last `.`, unless the
/// name holds none or only begins with one.
pub open spec fn extension_of(name: Seq<char>) -> Option<Seq<char>> {
    if after_last(name, '.') >= 2 {
        Some(name.skip(after_last(name, '.')))
    } else {
        None
    }
}

/// A file name without its extension and the `.` before it.
pub open spec fn stem_of(name: Seq<char>) -> Seq<char> {
    if after_last(name, '.') >= 2 {
        name.take(after_last(name, '.') - 1)
    } else {
        name
    }
}

/// Whether files with this extension are left out of the scan: the
/// extensions `xml`, `miyoocmd`, `cfg`, `db` and `nfo`, in any case of their
/// letters.
pub open spec fn is_skipped_extension(ext: Seq<char>) -> bool {
    let low = ascii_lowered(ext);
    low == ascii_lowered("xml"@) || low == ascii_lowered("miyoocmd"@) || low == ascii_lowered(
        "cfg"@,
    ) || low == ascii_lowered("db"@) || low == ascii_lowered("nfo"@)
}

/// Whether an entry of a console folder is a ROM: a file that is not hidden,
/// is not named `Imgs` and has none of the extensions that are left out.
pub open spec fn is_rom_entry(entry: FolderEntryView) -> bool {
    &&& !entry.is_dir
    &&& !(entry.name.len() > 0 && entry.name[0] == '.')
    &&& entry.name != "Imgs"@
    &&& match extension_of(entry.name) {
        Some(ext) => !is_skipped_extension(ext),
        None => true,
    }
}

/// The ROM that the entry `name` of the folder `console_path` stands for.
pub open spec fn rom_of(console_path: Seq<char>, name: Seq<char>, console: ConsoleView) -> RomFileView {
    RomFileView {
        path: joined(console_path, name),
        name,
        name_no_extension: stem_of(name),
        console,
    }
}

/// The ROMs among the entries of a console folder, in the order of the
/// entries.
pub open spec fn roms_in_folder(
    console_path: Seq<char>,
    entries: Seq<FolderEntryView>,
    console: ConsoleView,
) -> Seq<RomFileView>
    decreases entries.len(),
{
    if entries.len() == 0 {
        Seq::empty()
    } else {
        let front = roms_in_folder(console_path, entries.drop_last(), console);
        if is_rom_entry(entries.last()) {
            front.push(rom_of(console_path, entries.last().name, console))
        } else {
            front
        }
    }
}

/// The place of the first console that matches `folder_name`, or the number
/// of consoles where none does.
pub open spec fn console_index(consoles: Seq<ConsoleView>, folder_name: Seq<char>) -> int
    decreases consoles.len(),
{
    if consoles.len() == 0 || consoles[0].matches(folder_name) {
        0
    } else {
        1 + console_index(consoles.drop_first(), folder_name)
    }
}

/// The ROMs of a ROM directory: for each of its directories that stands for
/// a console, in the order of the listing, the ROMs in it.
pub open spec fn roms_in_directory(
    roms_path: Seq<char>,
    listings: Seq<FolderListingView>,
    consoles: Seq<ConsoleView>,
) -> Seq<RomFileView>
    decreases listings.len(),
{
    if listings.len() == 0 {
        Seq::empty()
    } else {
        let front = roms_in_directory(roms_path, listings.drop_last(), consoles);
        let last = listings.last();
        let k = console_index(consoles, last.name);
        if last.is_dir && k < consoles.len() {
            front + roms_in_folder(joined(roms_path, last.name), last.entries, consoles[k])
        } else {
            front
        }
    }
}

/// Whether files with this extension are left out of the scan.
fn skipped_extension(ext: &str) -> (r: bool)
    ensures
        r == is_skipped_extension(ext@),
{
    same_ignoring_ascii_case(ext, "xml") || same_ignoring_ascii_case(ext, "miyoocmd")
        || same_ignoring_ascii_case(ext, "cfg") || same_ignoring_ascii_case(ext, "db")
        || same_ignoring_ascii_case(ext, "nfo")
}

/// Finds the ROMs of a directory from its listing.
pub struct RomScanner {
    consoles_config: ConsolesConfig,
}

impl View for RomScanner {
    type V = Seq<ConsoleView>;

    closed spec fn view(&self) -> Seq<ConsoleView> {
        self.consoles_config@
    }
}

impl RomScanner {
    /// A scanner for the consoles of `consoles_config`.
    pub fn new(consoles_config: ConsolesConfig) -> (r: RomScanner)
        ensures
            r@ == consoles_config@,
    {
        RomScanner { consoles_config }
    }

    /// The consoles that the scanner knows.
    pub fn consoles(&self) -> (r: &ConsolesConfig)
        ensures
            r@ == self@,
    {
        &self.consoles_config
    }

    /// The ROM that an entry of a console folder stands for, if it is one.
    pub fn rom_for_entry(console_path: &str, entry: &FolderEntry, console: &Console) -> (r: Option<
        RomFile,
    >)
        ensures
            match r {
                Some(rom) => is_rom_entry(entry@) && rom@ == rom_of(
                    console_path@,
                    entry@.name,
                    console@,
                ),
                None => !is_rom_entry(entry@),
            },
    {
        if entry.is_dir {
            return None;
        }
        let chars = chars_of(entry.name.as_str());
        if chars.len() > 0 && chars[0] == '.' {
            return None;
        }
        if same_text(entry.name.as_str(), "Imgs") {
            return None;
        }
        let a = after_last_index(&chars, '.');
        let stem = if a >= 2 {
            let ext = string_of_range(&chars, a, chars.len());
            assert(chars@.subrange(a as int, chars@.len() as int) =~= chars@.skip(a as int));
            if skipped_extension(ext.as_str()) {
                return None;
            }
            assert(chars@.subrange(0, a - 1) =~= chars@.take(a - 1));
            string_of_range(&chars, 0, a - 1)
        } else {
            entry.name.clone()
        };
        Some(
            RomFile {
                path: join_path(console_path, entry.name.as_str()),
                name: entry.name.clone(),
                name_no_extension: stem,
                console: console.duplicate(),
            },
        )
    }

    /// The ROMs among the entries of the folder `console_path` of `console`.
    pub fn scan_console_folder(
        &self,
        console_path: &str,
        entries: &Vec<FolderEntry>,
        console: &Console,
    ) -> (r: Vec<RomFile>)
        ensures
            roms_view(r@) == roms_in_folder(console_path@, entries_view(entries@), console@),
    {
        let mut roms: Vec<RomFile> = Vec::new();
        let ghost all = entries_view(entries@);
        let mut i: usize = 0;
        proof {
            assert(all.take(0) =~= Seq::<FolderEntryView>::empty());
            assert(roms_view(roms@) =~= Seq::<RomFileView>::empty());
        }
        while i < entries.len()
            invariant
                i <= entries@.len(),
                all == entries_view(entries@),
                roms_view(roms@) == roms_in_folder(console_path@, all.take(i as int), console@),
            decreases entries@.len() - i,
        {
            proof {
                assert(all.take(i + 1).drop_last() =~= all.take(i as int));
                assert(all.take(i + 1).last() == entries@[i as int]@);
            }
            match RomScanner::rom_for_entry(console_path, &entries[i], console) {
                Some(rom) => {
                    let ghost before = roms@;
                    roms.push(rom);
                    assert(roms_view(roms@) =~= roms_view(before).push(rom@));
                },
                None => {},
            }
            i += 1;
        }
        assert(all.take(all.len() as int) =~= all);
        roms
    }

    /// The ROMs of the directory `roms_path` with the given listing.
    pub fn scan_directory(&self, roms_path: &str, listings: &Vec<FolderListing>) -> (r: Vec<RomFile>)
        ensures
            roms_view(r@) == roms_in_directory(roms_path@, listings_view(listings@), self@),
    {
        let mut roms: Vec<RomFile> = Vec::new();
        let ghost all = listings_view(listings@);
        let mut i: usize = 0;
        proof {
            assert(all.take(0) =~= Seq::<FolderListingView>::empty());
            assert(roms_view(roms@) =~= Seq::<RomFileView>::empty());
        }
        while i < listings.len()
            invariant
                i <= listings@.len(),
                all == listings_view(listings@),
                roms_view(roms@) == roms_in_directory(roms_path@, all.take(i as int), self@),
            decreases listings@.len() - i,
        {
            let listing = &listings[i];
            proof {
                assert(all.take(i + 1).drop_last() =~= all.take(i as int));
                assert(all.take(i + 1).last() == listing@);
            }
            if listing.is_dir {
                match self.consoles_config.find_console(listing.name.as_str()) {
                    Some(console) => {
                        proof {
                            let k = choose|k: int|
                                0 <= k < self.consoles_config.consoles@.len() && *console
                                    == #[trigger] self.consoles_config.consoles@[k] && self@[k].matches(
                                    listing@.name,
                                ) && forall|m: int|
                                    0 <= m < k ==> !(#[trigger] self@[m]).matches(listing@.name);
                            lemma_console_index_unique(self@, listing@.name, k);
                            assert(self@[k] == console@);
                        }
                        let path = join_path(roms_path, listing.name.as_str());
                        let mut found = self.scan_console_folder(
                            path.as_str(),
                            &listing.entries,
                            console,
                        );
                        let ghost before = roms@;
                        let ghost added = found@;
                        roms.append(&mut found);
                        assert(roms_view(roms@) =~= roms_view(before) + roms_view(added));
                    },
                    None => {
                        proof {
                            lemma_console_index_unique(self@, listing@.name, self@.len() as int);
                        }
                    },
                }
            }
            i += 1;
        }
        assert(all.take(all.len() as int) =~= all);
        roms
    }
}

/// A place before which no console matches and at which one does, or which
/// is the end, is the console index.
proof fn lemma_console_index_unique(consoles: Seq<ConsoleView>, folder_name: Seq<char>, k: int)
    requires
        0 <= k <= consoles.len(),
        forall|i: int| 0 <= i < k ==> !(#[trigger] consoles[i]).matches(folder_name),
        k < consoles.len() ==> consoles[k].matches(folder_name),
    ensures
        console_index(consoles, folder_name) == k,
    decreases consoles.len(),
{
    if consoles.len() == 0 {
    } else if consoles[0].matches(folder_name) {
        if k > 0 {
            assert(!consoles[0].matches(folder_name));
        }
    } else {
        let rest = consoles.drop_first();
        assert forall|i: int| 0 <= i < k - 1 implies !(#[trigger] rest[i]).matches(folder_name) by {
            assert(rest[i] == consoles[i + 1]);
        }
        if k - 1 < rest.len() {
            assert(rest[k - 1] == consoles[k]);
        }
        lemma_console_index_unique(rest, folder_name, k - 1);
    }
}

} // verus!
