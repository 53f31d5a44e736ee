//! The game list of a console folder: its entries, ordered by path, and the
//! form in which their release dates are written.

use vstd::prelude::*;
use crate::outside::push_char;
use crate::text::{
    find_from, first_index, is_space, is_space_char, lemma_first_index, push_range,
    byte_length, chars_of, clone_opt, clone_strings, has_char, is_text_before, opt_view, pad2, padded2, parse_u32, parsed_u32,
    push_text, same_text, split, split_range, string_of_range, strings_view, text_before,
    trim_bounds, trimmed, lemma_text_before_transitive,
};

verus! {

/// One entry of a game list. Paths are texts with `/` between components and
/// are compared as texts.
#[derive(Debug, Clone)]
pub struct Game {
    pub path: String,
    pub name: String,
    pub desc: Option<String>,
    pub image: Option<String>,
    pub rating: Option<String>,
    pub releasedate: Option<String>,
    pub developer: Option<String>,
    pub publisher: Option<String>,
    pub genre: Option<String>,
    pub players: Option<String>,
    pub guides: Option<Vec<String>>,
}

/// The mathematical value of a [`Game`].
pub struct GameView {
    pub path: Seq<char>,
    pub name: Seq<char>,
    pub desc: Option<Seq<char>>,
    pub image: Option<Seq<char>>,
    pub rating: Option<Seq<char>>,
    pub releasedate: Option<Seq<char>>,
    pub developer: Option<Seq<char>>,
    pub publisher: Option<Seq<char>>,
    pub genre: Option<Seq<char>>,
    pub players: Option<Seq<char>>,
    pub guides: Option<Seq<Seq<char>>>,
}

/// The texts of an optional list of strings.
pub open spec fn opt_strings_view(o: Option<Vec<String>>) -> Option<Seq<Seq<char>>> {
    match o {
        Some(v) => Some(strings_view(v@)),
        None => None,
    }
}

impl View for Game {
    type V = GameView;

    open spec fn view(&self) -> GameView {
        GameView {
            path: self.path@,
            name: self.name@,
            desc: opt_view(self.desc),
            image: opt_view(self.image),
            rating: opt_view(self.rating),
            releasedate: opt_view(self.releasedate),
            developer: opt_view(self.developer),
            publisher: opt_view(self.publisher),
            genre: opt_view(self.genre),
            players: opt_view(self.players),
            guides: opt_strings_view(self.guides),
        }
    }
}

/// The number of bytes that a text takes in UTF-8.
pub open spec fn byte_len(s: Seq<char>) -> nat {
    vstd::utf8::encode_utf8(s).len()
}

/// Year, month and day of a date whose month and day are written as numbers:
/// both are brought to two digits; `None` where one of them is no number.
pub open spec fn date_of_parts(year: Seq<char>, month: Seq<char>, day: Seq<char>) -> Option<
    (Seq<char>, Seq<char>, Seq<char>),
> {
    match (parsed_u32(month), parsed_u32(day)) {
        (Some(m), Some(d)) => Some((year, padded2(m as nat), padded2(d as nat))),
        _ => None,
    }
}

/// Year, month and day of a date in one of the forms `YYYY-MM-DD`,
/// `YYYY/MM/DD`, `DD/MM/YYYY` or `YYYY`, white space around it left out. A
/// date with at least two `-` is read in the first form; else one with at
/// least two `/` is read in the second form where its first part takes four
/// bytes and in the third where it does not; else a number of four bytes is a
/// year, with the first of January as its day.
pub open spec fn parsed_date(date: Seq<char>) -> Option<(Seq<char>, Seq<char>, Seq<char>)> {
    let t = trimmed(date);
    let dash = split(t, '-');
    let slash = split(t, '/');
    if dash.len() >= 3 {
        date_of_parts(dash[0], dash[1], dash[2])
    } else if slash.len() >= 3 {
        if byte_len(slash[0]) == 4 {
            date_of_parts(slash[0], slash[1], slash[2])
        } else {
            date_of_parts(slash[2], slash[1], slash[0])
        }
    } else if byte_len(t) == 4 && parsed_u32(t) is Some {
        Some((t, "01"@, "01"@))
    } else {
        None
    }
}

/// A release date in the form `YYYYMMDDTHHMMSS`: a text of at least fifteen
/// bytes that holds a `T` is taken to have that form already; a date that
/// can be read is written with midnight as its time; any other text gets
/// the first of January and midnight put behind it.
pub open spec fn formatted_date(date: Seq<char>) -> Seq<char> {
    if date.contains('T') && byte_len(date) >= 15 {
        date
    } else {
        match parsed_date(date) {
            Some((year, month, day)) => year + month + day + "T000000"@,
            None => date + "0101T000000"@,
        }
    }
}

/// The value of an optional date after it was brought into form.
pub open spec fn opt_formatted_date(o: Option<Seq<char>>) -> Option<Seq<char>> {
    match o {
        Some(d) => Some(formatted_date(d)),
        None => None,
    }
}

/// Year, month and day from three parts of a date.
fn date_from_parts(year: &String, month: &String, day: &String) -> (r: Option<
    (String, String, String),
>)
    ensures
        match r {
            Some(t) => date_of_parts(year@, month@, day@) == Some((t.0@, t.1@, t.2@)),
            None => date_of_parts(year@, month@, day@) is None,
        },
{
    match parse_u32(month.as_str()) {
        Some(m) => match parse_u32(day.as_str()) {
            Some(d) => Some((year.clone(), pad2(m), pad2(d))),
            None => None,
        },
        None => None,
    }
}

impl Game {
    /// An entry with a path and a name and nothing else.
    pub fn new(path: String, name: String) -> (r: Game)
        ensures
            r@ == (GameView {
                path: path@,
                name: name@,
                desc: None,
                image: None,
                rating: None,
                releasedate: None,
                developer: None,
                publisher: None,
                genre: None,
                players: None,
                guides: None,
            }),
    {
        Game {
            path,
            name,
            desc: None,
            image: None,
            rating: None,
            releasedate: None,
            developer: None,
            publisher: None,
            genre: None,
            players: None,
            guides: None,
        }
    }

    /// The entry with this description.
    pub fn with_desc(self, desc: Option<String>) -> (r: Game)
        ensures
            r@ == (GameView { desc: opt_view(desc), ..self@ }),
    {
        let mut r = self;
        r.desc = desc;
        r
    }

    /// The entry with this image path, relative to the game list.
    pub fn with_image(self, image: Option<String>) -> (r: Game)
        ensures
            r@ == (GameView { image: opt_view(image), ..self@ }),
    {
        let mut r = self;
        r.image = image;
        r
    }

    /// The entry with this rating, as the text under which it is stored.
    pub fn with_rating_text(self, rating: Option<String>) -> (r: Game)
        ensures
            r@ == (GameView { rating: opt_view(rating), ..self@ }),
    {
        let mut r = self;
        r.rating = rating;
        r
    }

    /// The entry with this release date, brought into the form
    /// `YYYYMMDDTHHMMSS`.
    pub fn with_releasedate(self, date: Option<String>) -> (r: Game)
        ensures
            r@ == (GameView { releasedate: opt_formatted_date(opt_view(date)), ..self@ }),
    {
        let mut r = self;
        r.releasedate =
        match date {
            Some(d) => Some(Game::format_date(d.as_str())),
            None => None,
        };
        r
    }

    /// The entry with this developer.
    pub fn with_developer(self, developer: Option<String>) -> (r: Game)
        ensures
            r@ == (GameView { developer: opt_view(developer), ..self@ }),
    {
        let mut r = self;
        r.developer = developer;
        r
    }

    /// The entry with this publisher.
    pub fn with_publisher(self, publisher: Option<String>) -> (r: Game)
        ensures
            r@ == (GameView { publisher: opt_view(publisher), ..self@ }),
    {
        let mut r = self;
        r.publisher = publisher;
        r
    }

    /// The entry with this genre.
    pub fn with_genre(self, genre: Option<String>) -> (r: Game)
        ensures
            r@ == (GameView { genre: opt_view(genre), ..self@ }),
    {
        let mut r = self;
        r.genre = genre;
        r
    }

    /// The entry with this number of players.
    pub fn with_players(self, players: Option<String>) -> (r: Game)
        ensures
            r@ == (GameView { players: opt_view(players), ..self@ }),
    {
        let mut r = self;
        r.players = players;
        r
    }

    /// The entry with these guides.
    pub fn with_guides(self, guides: Option<Vec<String>>) -> (r: Game)
        ensures
            r@ == (GameView { guides: opt_strings_view(guides), ..self@ }),
    {
        let mut r = self;
        r.guides = guides;
        r
    }

    /// Brings a release date into the form `YYYYMMDDTHHMMSS`.
    pub fn format_date(date: &str) -> (r: String)
        ensures
            r@ == formatted_date(date@),
    {
        let chars = chars_of(date);
        if has_char(&chars, 'T') && byte_length(date) >= 15 {
            return String::from_str(date);
        }
        match Game::parse_date(date) {
            Some((year, month, day)) => {
                let mut r = year;
                push_text(&mut r, month.as_str());
                push_text(&mut r, day.as_str());
                push_text(&mut r, "T000000");
                r
            },
            None => {
                let mut r = String::from_str(date);
                push_text(&mut r, "0101T000000");
                r
            },
        }
    }

    /// Reads year, month and day from a date in one of the forms
    /// `YYYY-MM-DD`, `YYYY/MM/DD`, `DD/MM/YYYY` and `YYYY`.
    pub fn parse_date(date: &str) -> (r: Option<(String, String, String)>)
        ensures
            match r {
                Some(t) => parsed_date(date@) == Some((t.0@, t.1@, t.2@)),
                None => parsed_date(date@) is None,
            },
    {
        let chars = chars_of(date);
        let (start, end) = trim_bounds(&chars);
        let dash = split_range(&chars, start, end, '-');
        if dash.len() >= 3 {
            proof {
                assert(strings_view(dash@)[0] == dash@[0]@);
                assert(strings_view(dash@)[1] == dash@[1]@);
                assert(strings_view(dash@)[2] == dash@[2]@);
            }
            return date_from_parts(&dash[0], &dash[1], &dash[2]);
        }
        let slash = split_range(&chars, start, end, '/');
        if slash.len() >= 3 {
            proof {
                assert(strings_view(slash@)[0] == slash@[0]@);
                assert(strings_view(slash@)[1] == slash@[1]@);
                assert(strings_view(slash@)[2] == slash@[2]@);
            }
            if byte_length(slash[0].as_str()) == 4 {
                return date_from_parts(&slash[0], &slash[1], &slash[2]);
            } else {
                return date_from_parts(&slash[2], &slash[1], &slash[0]);
            }
        }
        let t = string_of_range(&chars, start, end);
        if byte_length(t.as_str()) == 4 && parse_u32(t.as_str()).is_some() {
            return Some((t, String::from_str("01"), String::from_str("01")));
        }
        None
    }

    /// A copy with the same value.
    pub fn duplicate(&self) -> (r: Game)
        ensures
            r@ == self@,
    {
        Game {
            path: self.path.clone(),
            name: self.name.clone(),
            desc: clone_opt(&self.desc),
            image: clone_opt(&self.image),
            rating: clone_opt(&self.rating),
            releasedate: clone_opt(&self.releasedate),
            developer: clone_opt(&self.developer),
            publisher: clone_opt(&self.publisher),
            genre: clone_opt(&self.genre),
            players: clone_opt(&self.players),
            guides: match &self.guides {
                Some(v) => Some(clone_strings(v)),
                None => None,
            },
        }
    }
}

/// The white space before a line that stands `indent` levels deep: two
/// blanks for each level.
pub open spec fn indentation(indent: nat) -> Seq<char> {
    Seq::new(2 * indent, |i: int| ' ')
}

/// Whether a run of characters holds anything but white space.
pub open spec fn has_text(run: Seq<char>) -> bool {
    exists|i: int| 0 <= i < run.len() && !is_space(#[trigger] run[i])
}

/// Whether `s` begins with `prefix`.
pub open spec fn starts_with(s: Seq<char>, prefix: Seq<char>) -> bool {
    s.len() >= prefix.len() && s.take(prefix.len() as int) == prefix
}

/// What the tag or the character at one place of an XML text gives: the
/// text of its line, the place at which reading goes on, and the depth
/// there.
pub struct XmlStep {
    pub text: Seq<char>,
    pub next: int,
    pub indent: nat,
}

/// The step at place `i` of an XML text, at a depth of `indent`. A character
/// outside a tag is left out, and so is a `<` that no `>` follows. A tag gets
/// a line of its own, two blanks deep for each element that is open around
/// it: a declaration is not indented; a closing tag stands one level higher
/// than what it closes; an element with text keeps its text on the line of
/// its opening tag, which is then not ended; any other opening tag goes one
/// level deeper.
pub open spec fn xml_step(chars: Seq<char>, i: int, indent: nat) -> XmlStep {
    let j = i + 1 + first_index(chars.skip(i + 1), '>');
    if chars[i] != '<' || j >= chars.len() {
        XmlStep { text: Seq::empty(), next: i + 1, indent }
    } else {
        let tag = chars.subrange(i + 1, j);
        let whole = chars.subrange(i, j + 1);
        if starts_with(tag, "?xml"@) {
            XmlStep { text: whole + "\n"@, next: j + 1, indent }
        } else if tag.len() > 0 && tag[0] == '/' {
            let higher = if indent > 0 {
                (indent - 1) as nat
            } else {
                0
            };
            XmlStep { text: indentation(higher) + whole + "\n"@, next: j + 1, indent: higher }
        } else if tag.len() > 0 && tag.last() == '/' {
            XmlStep { text: indentation(indent) + whole + "\n"@, next: j + 1, indent }
        } else {
            let end = j + 1 + first_index(chars.skip(j + 1), '<');
            if has_text(chars.subrange(j + 1, end)) {
                XmlStep {
                    text: indentation(indent) + whole + chars.subrange(j + 1, end),
                    next: end,
                    indent,
                }
            } else {
                XmlStep {
                    text: indentation(indent) + whole + "\n"@,
                    next: j + 1,
                    indent: indent + 1,
                }
            }
        }
    }
}

/// A step goes forward.
pub proof fn lemma_xml_step_advances(chars: Seq<char>, i: int, indent: nat)
    requires
        0 <= i < chars.len(),
    ensures
        i < xml_step(chars, i, indent).next <= chars.len(),
{
    lemma_first_index(chars.skip(i + 1), '>');
    let j = i + 1 + first_index(chars.skip(i + 1), '>');
    if j < chars.len() {
        lemma_first_index(chars.skip(j + 1), '<');
    }
}

/// The lines of an XML text from place `i` on, at a depth of `indent`: the
/// texts of its steps, one after the other.
pub open spec fn xml_lines(chars: Seq<char>, i: int, indent: nat) -> Seq<char>
    decreases chars.len() - i,
    via xml_lines_decreases
{
    if i < 0 || i >= chars.len() {
        Seq::empty()
    } else {
        let step = xml_step(chars, i, indent);
        step.text + xml_lines(chars, step.next, step.indent)
    }
}

#[via_fn]
proof fn xml_lines_decreases(chars: Seq<char>, i: int, indent: nat) {
    if 0 <= i < chars.len() {
        lemma_xml_step_advances(chars, i, indent);
    }
}

/// An XML text with one tag on each line, indented by its depth.
pub open spec fn formatted_xml(xml: Seq<char>) -> Seq<char> {
    xml_lines(xml, 0, 0)
}

/// Appends the white space for a depth of `indent`.
fn push_indentation(s: &mut String, indent: usize)
    ensures
        final(s)@ == old(s)@ + indentation(indent as nat),
{
    let mut i: usize = 0;
    assert(s@ =~= old(s)@ + indentation(0));
    while i < indent
        invariant
            i <= indent,
            s@ == old(s)@ + indentation(i as nat),
        decreases indent - i,
    {
        push_char(s, ' ');
        push_char(s, ' ');
        assert(s@ =~= old(s)@ + indentation((i + 1) as nat));
        i += 1;
    }
}

/// Whether `v[from..to]` holds anything but white space.
fn any_text(v: &Vec<char>, from: usize, to: usize) -> (r: bool)
    requires
        from <= to <= v@.len(),
    ensures
        r == has_text(v@.subrange(from as int, to as int)),
{
    let ghost run = v@.subrange(from as int, to as int);
    let mut k: usize = from;
    while k < to
        invariant
            from <= k <= to <= v@.len(),
            run == v@.subrange(from as int, to as int),
            forall|i: int| 0 <= i < k - from ==> is_space(#[trigger] run[i]),
        decreases to - k,
    {
        if !is_space_char(v[k]) {
            assert(!is_space(run[k - from]));
            return true;
        }
        k += 1;
    }
    false
}

/// Whether `v[from..to]` begins with `?xml`.
fn is_declaration(v: &Vec<char>, from: usize, to: usize) -> (r: bool)
    requires
        from <= to <= v@.len(),
    ensures
        r == starts_with(v@.subrange(from as int, to as int), "?xml"@),
{
    proof {
        reveal_strlit("?xml");
    }
    let ghost tag = v@.subrange(from as int, to as int);
    if to - from < 4 {
        return false;
    }
    let r = v[from] == '?' && v[from + 1] == 'x' && v[from + 2] == 'm' && v[from + 3] == 'l';
    proof {
        let head = tag.take(4);
        assert(head[0] == v@[from as int]);
        assert(head[1] == v@[from + 1]);
        assert(head[2] == v@[from + 2]);
        assert(head[3] == v@[from + 3]);
        if r {
            assert(head =~= "?xml"@);
        }
    }
    r
}

/// Appends the line of the tag at place `i`, if a tag stands there, and
/// gives the place at which reading goes on and the depth there.
fn format_step(chars: &Vec<char>, i: usize, indent: usize, formatted: &mut String) -> (r: (
    usize,
    usize,
))
    requires
        i < chars@.len(),
        indent <= i,
    ensures
        final(formatted)@ == old(formatted)@ + xml_step(chars@, i as int, indent as nat).text,
        r.0 == xml_step(chars@, i as int, indent as nat).next,
        r.1 == xml_step(chars@, i as int, indent as nat).indent,
        r.1 <= r.0,
{
    let n = chars.len();
    proof {
        reveal_strlit("\n");
        assert(formatted@ =~= formatted@ + Seq::<char>::empty());
    }
    if chars[i] != '<' {
        return (i + 1, indent);
    }
    let j = find_from(chars, i + 1, '>');
    if j >= n {
        return (i + 1, indent);
    }
    let ghost tag = chars@.subrange(i + 1, j as int);
    proof {
        if j > i + 1 {
            assert(tag[0] == chars@[i + 1]);
            assert(tag.last() == chars@[j - 1]);
        }
    }
    if is_declaration(chars, i + 1, j) {
        push_range(formatted, chars, i, j + 1);
        push_char(formatted, '\n');
        (j + 1, indent)
    } else if j > i + 1 && chars[i + 1] == '/' {
        let higher: usize = if indent > 0 {
            indent - 1
        } else {
            0
        };
        push_indentation(formatted, higher);
        push_range(formatted, chars, i, j + 1);
        push_char(formatted, '\n');
        (j + 1, higher)
    } else if j > i + 1 && chars[j - 1] == '/' {
        push_indentation(formatted, indent);
        push_range(formatted, chars, i, j + 1);
        push_char(formatted, '\n');
        (j + 1, indent)
    } else {
        let end = find_from(chars, j + 1, '<');
        push_indentation(formatted, indent);
        push_range(formatted, chars, i, j + 1);
        if any_text(chars, j + 1, end) {
            push_range(formatted, chars, j + 1, end);
            (end, indent)
        } else {
            push_char(formatted, '\n');
            (j + 1, indent + 1)
        }
    }
}

/// The entries of one `gamelist.xml`.
#[derive(Debug, Clone)]
pub struct GameList {
    pub games: Vec<Game>,
}

/// The values of a list of entries, in order.
pub open spec fn games_view(v: Seq<Game>) -> Seq<GameView> {
    Seq::new(v.len(), |i: int| v[i]@)
}

impl View for GameList {
    type V = Seq<GameView>;

    open spec fn view(&self) -> Seq<GameView> {
        games_view(self.games@)
    }
}

impl Default for GameList {
    fn default() -> (r: GameList)
        ensures
            r@ == Seq::<GameView>::empty(),
    {
        let r = GameList { games: Vec::new() };
        assert(r@ =~= Seq::<GameView>::empty());
        r
    }
}

/// Where `game` goes into `games`: before the first entry whose path stands
/// behind its own, or at the end.
pub open spec fn insert_index(games: Seq<GameView>, game: GameView) -> int
    decreases games.len(),
{
    if games.len() == 0 || text_before(game.path, games[0].path) {
        0
    } else {
        1 + insert_index(games.drop_first(), game)
    }
}

/// `games` with `game` put in at its place.
pub open spec fn inserted(games: Seq<GameView>, game: GameView) -> Seq<GameView> {
    games.insert(insert_index(games, game), game)
}

/// `games` ordered by path; entries with the same path keep their order.
pub open spec fn sorted_by_path(games: Seq<GameView>) -> Seq<GameView>
    decreases games.len(),
{
    if games.len() == 0 {
        Seq::empty()
    } else {
        inserted(sorted_by_path(games.drop_last()), games.last())
    }
}

/// `games` without the entries at `path`.
pub open spec fn without_path(games: Seq<GameView>, path: Seq<char>) -> Seq<GameView> {
    games.filter(|g: GameView| g.path != path)
}

/// Whether no entry stands before one with a smaller path.
pub open spec fn ordered_by_path(games: Seq<GameView>) -> bool {
    forall|i: int, j: int|
        0 <= i < j < games.len() ==> !text_before(
            (#[trigger] games[j]).path,
            (#[trigger] games[i]).path,
        )
}

/// The place of the first entry at `path`, or the number of entries where
/// there is none.
pub open spec fn index_of_path(games: Seq<GameView>, path: Seq<char>) -> int
    decreases games.len(),
{
    if games.len() == 0 || games[0].path == path {
        0
    } else {
        1 + index_of_path(games.drop_first(), path)
    }
}

/// The insert index lies in the list; the new entry does not stand before
/// any entry in front of it, and stands before the entry at it.
pub proof fn lemma_insert_index(games: Seq<GameView>, game: GameView)
    ensures
        0 <= insert_index(games, game) <= games.len(),
        forall|i: int|
            0 <= i < insert_index(games, game) ==> !text_before(
                game.path,
                (#[trigger] games[i]).path,
            ),
        insert_index(games, game) < games.len() ==> text_before(
            game.path,
            games[insert_index(games, game)].path,
        ),
    decreases games.len(),
{
    if games.len() == 0 || text_before(game.path, games[0].path) {
    } else {
        let rest = games.drop_first();
        lemma_insert_index(rest, game);
        assert forall|i: int| 0 <= i < insert_index(games, game) implies !text_before(
            game.path,
            (#[trigger] games[i]).path,
        ) by {
            if i > 0 {
                assert(rest[i - 1] == games[i]);
            }
        }
        if insert_index(games, game) < games.len() {
            assert(rest[insert_index(rest, game)] == games[insert_index(games, game)]);
        }
    }
}

/// A place with the two properties of the insert index is the insert index.
proof fn lemma_insert_index_unique(games: Seq<GameView>, game: GameView, k: int)
    requires
        0 <= k <= games.len(),
        forall|i: int| 0 <= i < k ==> !text_before(game.path, (#[trigger] games[i]).path),
        k < games.len() ==> text_before(game.path, games[k].path),
    ensures
        insert_index(games, game) == k,
    decreases games.len(),
{
    if games.len() == 0 {
    } else if text_before(game.path, games[0].path) {
        if k > 0 {
            assert(!text_before(game.path, games[0].path));
        }
    } else {
        let rest = games.drop_first();
        assert forall|i: int| 0 <= i < k - 1 implies !text_before(
            game.path,
            (#[trigger] rest[i]).path,
        ) by {
            assert(rest[i] == games[i + 1]);
        }
        if k - 1 < rest.len() {
            assert(rest[k - 1] == games[k]);
        }
        lemma_insert_index_unique(rest, game, k - 1);
    }
}

/// Putting an entry into an ordered list leaves it ordered.
pub proof fn lemma_inserted_ordered(games: Seq<GameView>, game: GameView)
    requires
        ordered_by_path(games),
    ensures
        ordered_by_path(inserted(games, game)),
{
    lemma_insert_index(games, game);
    let k = insert_index(games, game);
    let out = inserted(games, game);
    assert forall|i: int, j: int| 0 <= i < j < out.len() implies !text_before(
        (#[trigger] out[j]).path,
        (#[trigger] out[i]).path,
    ) by {
        if j == k {
            assert(out[i] == games[i]);
            assert(!text_before(game.path, games[i].path));
        } else if i == k {
            assert(out[j] == games[j - 1]);
            if text_before(games[j - 1].path, game.path) {
                lemma_text_before_transitive(games[j - 1].path, game.path, games[k].path);
                if j - 1 > k {
                    assert(!text_before(games[j - 1].path, games[k].path));
                } else {
                    crate::text::lemma_text_before_irreflexive(games[k].path);
                }
            }
        } else {
            let a = if i < k {
                i
            } else {
                i - 1
            };
            let b = if j < k {
                j
            } else {
                j - 1
            };
            assert(out[i] == games[a]);
            assert(out[j] == games[b]);
            assert(!text_before(games[b].path, games[a].path));
        }
    }
}

/// Sorting orders the entries and neither loses nor invents one.
pub proof fn lemma_sorted_by_path(games: Seq<GameView>)
    ensures
        ordered_by_path(sorted_by_path(games)),
        sorted_by_path(games).to_multiset() == games.to_multiset(),
        sorted_by_path(games).len() == games.len(),
    decreases games.len(),
{
    broadcast use vstd::seq_lib::group_to_multiset_ensures;

    if games.len() == 0 {
        assert(sorted_by_path(games).to_multiset() =~= games.to_multiset());
    } else {
        let front = games.drop_last();
        lemma_sorted_by_path(front);
        let s = sorted_by_path(front);
        lemma_insert_index(s, games.last());
        lemma_inserted_ordered(s, games.last());
        assert(games =~= front.push(games.last()));
        assert(inserted(s, games.last()).to_multiset() =~= s.to_multiset().insert(games.last()));
        assert(front.push(games.last()).to_multiset() =~= front.to_multiset().insert(
            games.last(),
        ));
    }
}

impl GameList {
    /// Puts every tag of an XML text on a line of its own, indented by its
    /// depth.
    pub fn format_xml(xml: &str) -> (r: String)
        ensures
            r@ == formatted_xml(xml@),
    {
        let chars = chars_of(xml);
        let n = chars.len();
        let mut formatted = String::new();
        let mut indent: usize = 0;
        let mut i: usize = 0;
        assert(formatted@ + xml_lines(chars@, 0, 0) =~= xml_lines(chars@, 0, 0));
        while i < n
            invariant
                n == chars@.len(),
                chars@ == xml@,
                i <= n,
                indent <= i,
                formatted@ + xml_lines(chars@, i as int, indent as nat) == xml_lines(chars@, 0, 0),
            decreases n - i,
        {
            let ghost before = formatted@;
            let ghost step = xml_step(chars@, i as int, indent as nat);
            proof {
                lemma_xml_step_advances(chars@, i as int, indent as nat);
                assert(before + (step.text + xml_lines(chars@, step.next, step.indent)) =~= (
                before + step.text) + xml_lines(chars@, step.next, step.indent));
            }
            let (next, depth) = format_step(&chars, i, indent, &mut formatted);
            i = next;
            indent = depth;
        }
        assert(formatted@ + xml_lines(chars@, n as int, indent as nat) =~= formatted@);
        formatted
    }

    /// Puts `game` into the list in place of every entry with the same path,
    /// and orders the list by path.
    pub fn add_or_update_game(&mut self, game: Game)
        ensures
            final(self)@ == sorted_by_path(without_path(old(self)@, game@.path).push(game@)),
            ordered_by_path(final(self)@),
            final(self)@.to_multiset() == without_path(old(self)@, game@.path).push(
                game@,
            ).to_multiset(),
    {
        let ghost keep = |g: GameView| g.path != game@.path;
        let ghost all = self@;
        let mut sorted: Vec<Game> = Vec::new();
        let mut rest: Vec<Game> = Vec::new();
        std::mem::swap(&mut rest, &mut self.games);
        let mut i: usize = 0;
        proof {
            assert(all.take(0) =~= Seq::<GameView>::empty());
            assert(games_view(sorted@) =~= Seq::<GameView>::empty());
        }
        while i < rest.len()
            invariant
                i <= rest@.len(),
                all == games_view(rest@),
                keep == (|g: GameView| g.path != game@.path),
                games_view(sorted@) == sorted_by_path(all.take(i as int).filter(keep)),
            decreases rest@.len() - i,
        {
            proof {
                assert(all.take(i + 1) =~= all.take(i as int).push(all[i as int]));
                all.take(i as int).lemma_filter_push(all[i as int], keep);
                assert(all[i as int] == rest@[i as int]@);
            }
            if !same_text(rest[i].path.as_str(), game.path.as_str()) {
                let entry = rest[i].duplicate();
                proof {
                    let kept = all.take(i as int).filter(keep);
                    assert(kept.push(entry@).drop_last() =~= kept);
                }
                insert_sorted(&mut sorted, entry);
            }
            i += 1;
        }
        proof {
            assert(all.take(all.len() as int) =~= all);
            let kept = without_path(all, game@.path);
            assert(kept.push(game@).drop_last() =~= kept);
            lemma_sorted_by_path(kept.push(game@));
        }
        insert_sorted(&mut sorted, game);
        self.games = sorted;
    }

    /// The first entry at `path`, if there is one.
    pub fn find_game(&self, path: &str) -> (r: Option<&Game>)
        ensures
            match r {
                Some(game) => index_of_path(self@, path@) < self@.len() && *game
                    == self.games@[index_of_path(self@, path@)] && game@.path == path@,
                None => index_of_path(self@, path@) == self@.len() && forall|k: int|
                    0 <= k < self@.len() ==> (#[trigger] self@[k]).path != path@,
            },
    {
        let mut i: usize = 0;
        while i < self.games.len()
            invariant
                i <= self.games@.len(),
                forall|k: int| 0 <= k < i ==> (#[trigger] self@[k]).path != path@,
            decreases self.games@.len() - i,
        {
            assert(self@[i as int] == self.games@[i as int]@);
            if same_text(self.games[i].path.as_str(), path) {
                proof {
                    lemma_index_of_path_unique(self@, path@, i as int);
                }
                return Some(&self.games[i]);
            }
            i += 1;
        }
        proof {
            lemma_index_of_path_unique(self@, path@, self@.len() as int);
        }
        None
    }
}

/// A place before which no entry is at `path` and at which one is, or which
/// is the end, is the index of the path.
proof fn lemma_index_of_path_unique(games: Seq<GameView>, path: Seq<char>, k: int)
    requires
        0 <= k <= games.len(),
        forall|i: int| 0 <= i < k ==> (#[trigger] games[i]).path != path,
        k < games.len() ==> games[k].path == path,
    ensures
        index_of_path(games, path) == k,
    decreases games.len(),
{
    if games.len() == 0 {
    } else if games[0].path == path {
        if k > 0 {
            assert(games[0].path != path);
        }
    } else {
        let rest = games.drop_first();
        assert forall|i: int| 0 <= i < k - 1 implies (#[trigger] rest[i]).path != path by {
            assert(rest[i] == games[i + 1]);
        }
        if k - 1 < rest.len() {
            assert(rest[k - 1] == games[k]);
        }
        lemma_index_of_path_unique(rest, path, k - 1);
    }
}

/// Puts `game` into `games` at its place.
fn insert_sorted(games: &mut Vec<Game>, game: Game)
    ensures
        games_view(final(games)@) == inserted(games_view(old(games)@), game@),
{
    let ghost before = games_view(games@);
    let mut k: usize = 0;
    while k < games.len() && !is_text_before(game.path.as_str(), games[k].path.as_str())
        invariant
            k <= games@.len(),
            before == games_view(games@),
            forall|i: int| 0 <= i < k ==> !text_before(game@.path, (#[trigger] before[i]).path),
        decreases games@.len() - k,
    {
        assert(before[k as int] == games@[k as int]@);
        k += 1;
    }
    proof {
        if k < games@.len() {
            assert(before[k as int] == games@[k as int]@);
        }
        lemma_insert_index_unique(before, game@, k as int);
    }
    games.insert(k, game);
    assert(games_view(games@) =~= before.insert(k as int, game@));
}

} // verus!
