//! The GameFAQs archive, reached over gopher: what is asked of the server,
//! and what its directory listings mean.

use vstd::prelude::*;
use crate::console::Console;
use crate::scraper::{file_name_of, ScraperError, ScraperErrorView};
use crate::outside::{
    join_with, joined_with, lowercase, lowercased, regex_replace_all, regex_replace_first,
    replaced_all, replaced_first,
};
use crate::scanner::stem_of;
use crate::text::{
    after_last_index, chars_of, decimal, decimal_string, push_text, replace_char, same_text, split,
    split_range, split_words, string_of_range, strings_view, trim_text, trimmed, with_replaced,
    words,
};

verus! {

/// The settings of the provider: whether it is switched on.
#[derive(Debug, Clone)]
pub struct GameFAQsConfig(pub bool);

/// The GameFAQs archive on a gopher server.
pub struct GameFAQsScraper {
    host: String,
    port: u16,
}

/// One line of a gopher directory: the type of the item, the name under
/// which it is shown, and its path on the server.
#[derive(Debug)]
pub struct GopherEntry {
    pub item_type: char,
    pub display_name: String,
    pub path: String,
}

/// The mathematical value of a [`GopherEntry`].
pub struct GopherEntryView {
    pub item_type: char,
    pub display_name: Seq<char>,
    pub path: Seq<char>,
}

impl View for GopherEntry {
    type V = GopherEntryView;

    open spec fn view(&self) -> GopherEntryView {
        GopherEntryView {
            item_type: self.item_type,
            display_name: self.display_name@,
            path: self.path@,
        }
    }
}

/// The value of an optional entry.
pub open spec fn opt_entry_view(o: Option<GopherEntry>) -> Option<GopherEntryView> {
    match o {
        Some(e) => Some(e@),
        None => None,
    }
}

/// What a line of a gopher directory says: its first character is the type
/// of the item, and the fields behind it are parted by tabs; the first is the
/// name, the second the path. A line without a second field says nothing.
pub open spec fn gopher_entry(line: Seq<char>) -> Option<GopherEntryView> {
    if line.len() == 0 {
        None
    } else {
        let parts = split(line.skip(1), '\t');
        if parts.len() < 2 {
            None
        } else {
            Some(GopherEntryView { item_type: line[0], display_name: parts[0], path: parts[1] })
        }
    }
}


/// A text with the first match of `pattern` taken out; a pattern that cannot
/// be used leaves the text as it is.
pub open spec fn without_first(pattern: Seq<char>, text: Seq<char>) -> Seq<char> {
    match replaced_first(pattern, text, Seq::empty()) {
        Some(rest) => rest,
        None => text,
    }
}

/// A text with every match of `pattern` taken out; a pattern that cannot be
/// used leaves the text as it is.
pub open spec fn without_all(pattern: Seq<char>, text: Seq<char>) -> Seq<char> {
    match replaced_all(pattern, text, Seq::empty()) {
        Some(rest) => rest,
        None => text,
    }
}

/// The name of a game in the form that the archive uses. From the name of
/// the file at `path`, without its extension, a number at the start and a
/// bracketed note at the end are taken out; what is left is trimmed and
/// turned to lower case; `&` becomes `and` and `é` becomes `e`; every
/// character but the lower-case ASCII letters, the digits, the blank and the
/// hyphen is dropped; and the words, which blanks and hyphens part, are put
/// together with hyphens.
pub open spec fn normalized_name(path: Seq<char>) -> Seq<char> {
    let stem = match file_name_of(path) {
        Some(name) => stem_of(name),
        None => Seq::empty(),
    };
    let unnumbered = without_first("^\\d+[.\\)]"@, stem);
    let bare = without_first("[\\(\\[].+[\\)\\]]$"@, unnumbered);
    let low = lowercased(trimmed(bare));
    let plain = with_replaced(with_replaced(low, '&', " and "@), 'é', "e"@);
    let stripped = without_all("[^a-z0-9 -]"@, plain);
    joined_with(words(with_replaced(stripped, '-', " "@)), "-"@)
}

/// Whether `s` ends with `suffix`.
pub open spec fn ends_with(s: Seq<char>, suffix: Seq<char>) -> bool {
    s.len() >= suffix.len() && s.skip(s.len() - suffix.len()) == suffix
}

/// Whether an entry is a guide: a text file whose path ends in `.txt`.
pub open spec fn is_guide(entry: GopherEntryView) -> bool {
    entry.item_type == '0' && ends_with(entry.path, ".txt"@)
}

/// The number of lines before the line that ends the listing: a line that
/// holds a single `.`.
pub open spec fn listing_len(lines: Seq<Seq<char>>) -> int
    decreases lines.len(),
{
    if lines.len() == 0 || lines[0] == "."@ {
        0
    } else {
        1 + listing_len(lines.drop_first())
    }
}

/// The paths of the guides among `lines`, in their order.
pub open spec fn guides_among(lines: Seq<Seq<char>>) -> Seq<Seq<char>>
    decreases lines.len(),
{
    if lines.len() == 0 {
        Seq::empty()
    } else {
        let front = guides_among(lines.drop_last());
        match gopher_entry(lines.last()) {
            Some(entry) => if is_guide(entry) {
                front.push(entry.path)
            } else {
                front
            },
            None => front,
        }
    }
}

/// The paths of the guides that a directory listing names: the guides among
/// the lines before the one that ends the listing.
pub open spec fn guides_in_listing(lines: Seq<Seq<char>>) -> Seq<Seq<char>> {
    guides_among(lines.take(listing_len(lines)))
}

/// The directory of a game in the archive.
pub open spec fn archive_directory(platform: Seq<char>, normalized_name: Seq<char>) -> Seq<char> {
    "/gamefaqs-archive/"@ + platform + "/"@ + normalized_name
}

/// The text of a file that the server sent line by line.
pub open spec fn text_of_lines(lines: Seq<Seq<char>>) -> Seq<char>
    decreases lines.len(),
{
    if lines.len() == 0 {
        Seq::empty()
    } else {
        text_of_lines(lines.drop_last()) + lines.last() + "\n"@
    }
}

/// Whether `s` ends with `suffix`.
pub fn has_suffix(s: &str, suffix: &str) -> (r: bool)
    ensures
        r == ends_with(s@, suffix@),
{
    let a = chars_of(s);
    let b = chars_of(suffix);
    if a.len() < b.len() {
        return false;
    }
    let offset: usize = a.len() - b.len();
    let mut i: usize = 0;
    while i < b.len()
        invariant
            a@ == s@,
            b@ == suffix@,
            offset == a@.len() - b@.len(),
            a@.len() <= usize::MAX,
            i <= b@.len(),
            forall|j: int| 0 <= j < i ==> a@[offset + j] == b@[j],
        decreases b@.len() - i,
    {
        if a[offset + i] != b[i] {
            assert(s@.skip(offset as int)[i as int] != suffix@[i as int]);
            return false;
        }
        i += 1;
    }
    assert(s@.skip(offset as int) =~= suffix@);
    true
}

impl GameFAQsScraper {
    /// The archive on its usual server.
    pub fn new() -> (r: GameFAQsScraper)
        ensures
            r.host_view() == "gopher.endangeredsoft.org"@,
            r.port_view() == 70,
    {
        GameFAQsScraper { host: String::from_str("gopher.endangeredsoft.org"), port: 70 }
    }

    /// The name of the server.
    pub closed spec fn host_view(&self) -> Seq<char> {
        self.host@
    }

    /// The port of the server.
    pub closed spec fn port_view(&self) -> u16 {
        self.port
    }

    /// The name under which the provider is known.
    pub fn name(&self) -> (r: &'static str)
        ensures
            r@ == "GameFAQs"@,
    {
        "GameFAQs"
    }

    /// The address of the server, as host and port.
    pub fn address(&self) -> (r: String)
        ensures
            r@ == self.host_view() + ":"@ + decimal(self.port_view() as nat),
    {
        let mut r = self.host.clone();
        push_text(&mut r, ":");
        push_text(&mut r, decimal_string(self.port as u64).as_str());
        r
    }

    /// What is sent to the server to ask for `path`.
    pub fn request(path: &str) -> (r: String)
        ensures
            r@ == path@ + "\r\n"@,
    {
        let mut r = String::from_str(path);
        push_text(&mut r, "\r\n");
        r
    }

    /// The name of the game at `path` in the form that the archive uses.
    pub fn normalized_name(path: &str) -> (r: String)
        ensures
            r@ == normalized_name(path@),
    {
        let chars = chars_of(path);
        let start = after_last_index(&chars, '/');
        let file_name = string_of_range(&chars, start, chars.len());
        assert(chars@.subrange(start as int, chars@.len() as int) =~= path@.skip(start as int));
        let stem = if chars.len() == start || same_text(file_name.as_str(), "..") {
            String::new()
        } else {
            let name_chars = chars_of(file_name.as_str());
            let dot = after_last_index(&name_chars, '.');
            if dot >= 2 {
                assert(name_chars@.subrange(0, dot - 1) =~= name_chars@.take(dot - 1));
                string_of_range(&name_chars, 0, dot - 1)
            } else {
                file_name
            }
        };
        proof {
            reveal_strlit("");
            assert(""@ =~= Seq::<char>::empty());
        }
        let unnumbered = match regex_replace_first("^\\d+[.\\)]", stem.as_str(), "") {
            Some(rest) => rest,
            None => stem,
        };
        let bare = match regex_replace_first("[\\(\\[].+[\\)\\]]$", unnumbered.as_str(), "") {
            Some(rest) => rest,
            None => unnumbered,
        };
        let low = lowercase(trim_text(bare.as_str()).as_str());
        let plain = replace_char(replace_char(low.as_str(), '&', " and ").as_str(), 'é', "e");
        let stripped = match regex_replace_all("[^a-z0-9 -]", plain.as_str(), "") {
            Some(rest) => rest,
            None => plain,
        };
        let parts = split_words(replace_char(stripped.as_str(), '-', " ").as_str());
        join_with(&parts, "-")
    }

    /// Reads one line of a gopher directory.
    pub fn parse_gopher_line(line: &str) -> (r: Option<GopherEntry>)
        ensures
            opt_entry_view(r) == gopher_entry(line@),
    {
        let chars = chars_of(line);
        if chars.len() == 0 {
            return None;
        }
        let mut parts = split_range(&chars, 1, chars.len(), '\t');
        assert(chars@.subrange(1, chars@.len() as int) =~= chars@.skip(1));
        if parts.len() < 2 {
            return None;
        }
        proof {
            assert(strings_view(parts@)[0] == parts@[0]@);
            assert(strings_view(parts@)[1] == parts@[1]@);
        }
        let path = parts.swap_remove(1);
        let display_name = parts.swap_remove(0);
        Some(GopherEntry { item_type: chars[0], display_name, path })
    }

    /// The directory of the archive that holds the guides of a game on
    /// `console`, for the game name in the form that the archive uses. A
    /// console that the archive does not know is not supported.
    pub fn archive_directory(console: &Console, normalized_name: &str) -> (r: Result<
        String,
        ScraperError,
    >)
        ensures
            match r {
                Ok(dir) => console@.gamefaqs_archive_id is Some && dir@ == archive_directory(
                    console@.gamefaqs_archive_id->0,
                    normalized_name@,
                ),
                Err(e) => console@.gamefaqs_archive_id is None && e@
                    == ScraperErrorView::PlatformNotSupported,
            },
    {
        match &console.gamefaqs_archive_id {
            Some(platform) => {
                let mut dir = String::from_str("/gamefaqs-archive/");
                push_text(&mut dir, platform.as_str());
                push_text(&mut dir, "/");
                push_text(&mut dir, normalized_name);
                Ok(dir)
            },
            None => Err(ScraperError::PlatformNotSupported),
        }
    }

    /// The paths of the guides that a directory listing names.
    pub fn guides_in_listing(lines: &Vec<String>) -> (r: Vec<String>)
        ensures
            strings_view(r@) == guides_in_listing(strings_view(lines@)),
    {
        let ghost all = strings_view(lines@);
        let mut guides: Vec<String> = Vec::new();
        let mut i: usize = 0;
        proof {
            assert(all.take(0) =~= Seq::<Seq<char>>::empty());
            assert(strings_view(guides@) =~= Seq::<Seq<char>>::empty());
        }
        while i < lines.len() && !same_text(lines[i].as_str(), ".")
            invariant
                i <= lines@.len(),
                all == strings_view(lines@),
                forall|j: int| 0 <= j < i ==> #[trigger] all[j] != "."@,
                strings_view(guides@) == guides_among(all.take(i as int)),
            decreases lines@.len() - i,
        {
            assert(all[i as int] == lines@[i as int]@);
            proof {
                assert(all.take(i + 1).drop_last() =~= all.take(i as int));
                assert(all.take(i + 1).last() == lines@[i as int]@);
            }
            match GameFAQsScraper::parse_gopher_line(lines[i].as_str()) {
                Some(entry) => {
                    if entry.item_type == '0' && has_suffix(entry.path.as_str(), ".txt") {
                        let ghost before = guides@;
                        guides.push(entry.path);
                        assert(strings_view(guides@) =~= strings_view(before).push(entry@.path));
                    }
                },
                None => {},
            }
            i += 1;
        }
        proof {
            if i < lines@.len() {
                assert(all[i as int] == lines@[i as int]@);
            }
            lemma_listing_len_unique(all, i as int);
        }
        guides
    }

    /// The guides that a search has found, from what came of listing the
    /// game's directory: a listing that failed counts as one without guides.
    pub fn guides_from_listing(listing: Result<Vec<String>, ScraperError>) -> (r: Vec<String>)
        ensures
            strings_view(r@) == match listing {
                Ok(lines) => guides_in_listing(strings_view(lines@)),
                Err(_) => Seq::empty(),
            },
    {
        match listing {
            Ok(lines) => GameFAQsScraper::guides_in_listing(&lines),
            Err(_) => {
                let r: Vec<String> = Vec::new();
                assert(strings_view(r@) =~= Seq::<Seq<char>>::empty());
                r
            },
        }
    }

    /// The text of a file that the server sent line by line: every line is
    /// ended by a line feed.
    pub fn text_of_lines(lines: &Vec<String>) -> (r: String)
        ensures
            r@ == text_of_lines(strings_view(lines@)),
    {
        let ghost all = strings_view(lines@);
        let mut content = String::new();
        let mut i: usize = 0;
        proof {
            assert(all.take(0) =~= Seq::<Seq<char>>::empty());
        }
        while i < lines.len()
            invariant
                i <= lines@.len(),
                all == strings_view(lines@),
                content@ == text_of_lines(all.take(i as int)),
            decreases lines@.len() - i,
        {
            proof {
                assert(all.take(i + 1).drop_last() =~= all.take(i as int));
                assert(all.take(i + 1).last() == lines@[i as int]@);
            }
            push_text(&mut content, lines[i].as_str());
            push_text(&mut content, "\n");
            i += 1;
        }
        assert(all.take(all.len() as int) =~= all);
        content
    }
}

impl Default for GameFAQsScraper {
    fn default() -> (r: GameFAQsScraper)
        ensures
            r.host_view() == "gopher.endangeredsoft.org"@,
            r.port_view() == 70,
    {
        GameFAQsScraper::new()
    }
}

/// A place before which no line ends the listing and at which one does, or
/// which is the end, is the length of the listing.
proof fn lemma_listing_len_unique(lines: Seq<Seq<char>>, k: int)
    requires
        0 <= k <= lines.len(),
        forall|i: int| 0 <= i < k ==> #[trigger] lines[i] != "."@,
        k < lines.len() ==> lines[k] == "."@,
    ensures
        listing_len(lines) == k,
    decreases lines.len(),
{
    if lines.len() == 0 {
    } else if lines[0] == "."@ {
        if k > 0 {
            assert(lines[0] != "."@);
        }
    } else {
        let rest = lines.drop_first();
        assert forall|i: int| 0 <= i < k - 1 implies #[trigger] rest[i] != "."@ by {
            assert(rest[i] == lines[i + 1]);
        }
        if k - 1 < rest.len() {
            assert(rest[k - 1] == lines[k]);
        }
        lemma_listing_len_unique(rest, k - 1);
    }
}

} // verus!
