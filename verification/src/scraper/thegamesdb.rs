//! TheGamesDB: how its API is addressed and how its answers are read.

use vstd::prelude::*;
use crate::console::{Console, ConsoleView};
use crate::json::{json_views, opt_text, text_in, Json, JsonView};
use crate::outside::{percent_encoded, url_encode};
use crate::scanner::stem_of;
use crate::scraper::{
    file_name_of, found_view, url_view, GameMetadata, GameMetadataView, ScraperError,
    ScraperErrorView,
};
use crate::text::{
    after_last_index, chars_of, clone_opt, decimal, decimal_of_i32, decimal_string,
    opt_view, push_text, same_text, signed_decimal, string_of_range,
};

verus! {

/// The settings of the provider: the key of its API.
#[derive(Debug, Clone)]
pub struct TheGamesDBConfig {
    pub api_key: String,
}

/// One game of an answer.
#[derive(Debug, Clone)]
pub struct GamesDBGame {
    pub id: u64,
    pub game_title: String,
    pub release_date: Option<String>,
    pub platform: Option<u64>,
    pub players: Option<u32>,
    pub overview: Option<String>,
    pub rating: Option<String>,
}

/// The box art of an answer: the address before every file name, and the
/// pictures by the identifier of their game.
#[derive(Debug)]
pub struct GamesDBBoxart {
    pub base_url: String,
    pub data: Json,
}

/// An answer of the API: its games and, where it was sent along, their box
/// art.
#[derive(Debug)]
pub struct GamesDBResponse {
    pub games: Vec<GamesDBGame>,
    pub boxart: Option<GamesDBBoxart>,
}

/// TheGamesDB, with the key under which it is asked.
pub struct TheGamesDB {
    pub api_key: Option<String>,
}

/// The platform of TheGamesDB that stands for a console identifier.
pub open spec fn platform_of(id: Seq<char>) -> Option<Seq<char>> {
    if id == "3"@ {
        Some("7"@)
    } else if id == "4"@ {
        Some("6"@)
    } else if id == "1"@ {
        Some("36"@)
    } else if id == "2"@ {
        Some("35"@)
    } else if id == "9"@ {
        Some("4"@)
    } else if id == "10"@ {
        Some("5"@)
    } else if id == "12"@ {
        Some("12"@)
    } else if id == "15"@ {
        Some("8"@)
    } else if id == "57"@ {
        Some("10"@)
    } else if id == "58"@ {
        Some("11"@)
    } else {
        None
    }
}

/// The value of an optional string slice.
pub open spec fn opt_str_view(o: Option<&str>) -> Option<Seq<char>> {
    match o {
        Some(s) => Some(s@),
        None => None,
    }
}

/// The name of the game at a path: the name of its file without the
/// extension.
pub open spec fn game_name_of(path: Seq<char>) -> Option<Seq<char>> {
    match file_name_of(path) {
        Some(name) => Some(stem_of(name)),
        None => None,
    }
}

/// The address of a search by name: the key, the encoded name, the platform
/// where the console has one, and the wish for box art.
pub open spec fn search_url(api_key: Seq<char>, game_name: Seq<char>, platform: Option<Seq<char>>) -> Seq<
    char,
> {
    "https://api.thegamesdb.net/v1"@ + "/Games/ByGameName?apikey="@ + api_key + "&name="@
        + percent_encoded(vstd::utf8::encode_utf8(game_name)) + (match platform {
        Some(p) => "&filter[platform]="@ + p,
        None => Seq::empty(),
    }) + "&include=boxart"@
}

/// The address that is asked for a ROM: the console must be known to the
/// provider, a key must be set, and the path must name a file.
pub open spec fn search_request(api_key: Option<Seq<char>>, path: Seq<char>, console: ConsoleView) -> Result<
    Seq<char>,
    ScraperErrorView,
> {
    match console.thegamesdb_id {
        None => Err(ScraperErrorView::PlatformNotSupported),
        Some(id) => match api_key {
            None => Err(ScraperErrorView::AuthenticationFailed),
            Some(key) => match game_name_of(path) {
                None => Err(ScraperErrorView::GameNotFound),
                Some(name) => Ok(search_url(key, name, platform_of(signed_decimal(id as int)))),
            },
        },
    }
}

/// The address that is asked for a game by its identifier.
pub open spec fn game_url(api_key: Seq<char>, game_id: Seq<char>) -> Seq<char> {
    "https://api.thegamesdb.net/v1"@ + "/Games/ByGameID?apikey="@ + api_key + "&id="@ + game_id
        + "&include=boxart"@
}

/// What the status of an answer to a search means: 403 says that the
/// provider wants a pause, and every other status outside 200 to 299 is a
/// failure of the network that is named by the words of the status.
pub open spec fn status_error(status: u16, status_text: Seq<char>) -> Option<ScraperErrorView> {
    if status == 403 {
        Some(ScraperErrorView::RateLimitExceeded)
    } else if !(200 <= status <= 299) {
        Some(ScraperErrorView::Network("HTTP error: "@ + status_text))
    } else {
        None
    }
}

/// The value of an optional number of players.
pub open spec fn players_text(players: Option<u32>) -> Option<Seq<char>> {
    match players {
        Some(n) => Some(decimal(n as nat)),
        None => None,
    }
}

/// The metadata of a game of an answer, without a picture. The rating is
/// the provider's text, not yet read as a number.
pub open spec fn metadata_of(game: GamesDBGame) -> GameMetadataView {
    GameMetadataView {
        name: game.game_title@,
        description: opt_view(game.overview),
        release_date: opt_view(game.release_date),
        developer: None,
        publisher: None,
        genre: None,
        players: players_text(game.players),
        rating: opt_view(game.rating),
        image_url: None,
        thumbnail_url: None,
    }
}

/// Whether a picture shows the front of the box and has a file name.
pub open spec fn is_front(image: JsonView) -> bool {
    opt_text(image.member("filename"@)) is Some && opt_text(image.member("side"@)) == Some(
        "front"@,
    )
}

/// The place of the first picture of the front, or the number of pictures
/// where there is none.
pub open spec fn front_index(images: Seq<JsonView>) -> int
    decreases images.len(),
{
    if images.len() == 0 || is_front(images[0]) {
        0
    } else {
        1 + front_index(images.drop_first())
    }
}

/// The file name of the picture to take: that of the first picture of the
/// front, or else that of the first picture, if it has one.
pub open spec fn boxart_file(images: Seq<JsonView>) -> Option<Seq<char>> {
    let k = front_index(images);
    if k < images.len() {
        opt_text(images[k].member("filename"@))
    } else if images.len() > 0 {
        opt_text(images[0].member("filename"@))
    } else {
        None
    }
}

/// The address of the picture of the game `id`, where the box art lists
/// pictures for it.
pub open spec fn boxart_url(boxart: Option<GamesDBBoxart>, id: u64) -> Option<Seq<char>> {
    match boxart {
        None => None,
        Some(b) => match b.data@.member(decimal(id as nat)) {
            None => None,
            Some(entry) => match entry.items() {
                None => None,
                Some(images) => match boxart_file(images) {
                    Some(file) => Some(b.base_url@ + file),
                    None => None,
                },
            },
        },
    }
}

/// What an answer to a search says: the first of its games, with its
/// picture; an answer without games says that the game is unknown.
pub open spec fn search_result(response: GamesDBResponse) -> Result<
    GameMetadataView,
    ScraperErrorView,
> {
    if response.games@.len() == 0 {
        Err(ScraperErrorView::GameNotFound)
    } else {
        Ok(
            GameMetadataView {
                image_url: boxart_url(response.boxart, response.games@[0].id),
                ..metadata_of(response.games@[0])
            },
        )
    }
}

/// What an answer to a question by identifier says: the first of its games,
/// without a picture.
pub open spec fn game_result(response: GamesDBResponse) -> Result<GameMetadataView, ScraperErrorView> {
    if response.games@.len() == 0 {
        Err(ScraperErrorView::GameNotFound)
    } else {
        Ok(metadata_of(response.games@[0]))
    }
}

/// A place before which no picture is of the front and at which one is, or
/// which is the end, is the front index.
proof fn lemma_front_index_unique(images: Seq<JsonView>, k: int)
    requires
        0 <= k <= images.len(),
        forall|i: int| 0 <= i < k ==> !is_front(#[trigger] images[i]),
        k < images.len() ==> is_front(images[k]),
    ensures
        front_index(images) == k,
    decreases images.len(),
{
    if images.len() == 0 {
    } else if is_front(images[0]) {
        if k > 0 {
            assert(!is_front(images[0]));
        }
    } else {
        let rest = images.drop_first();
        assert forall|i: int| 0 <= i < k - 1 implies !is_front(#[trigger] rest[i]) by {
            assert(rest[i] == images[i + 1]);
        }
        if k - 1 < rest.len() {
            assert(rest[k - 1] == images[k]);
        }
        lemma_front_index_unique(rest, k - 1);
    }
}

/// The metadata of a game of an answer, without a picture.
fn metadata_from(game: &GamesDBGame) -> (r: GameMetadata)
    ensures
        r@ == metadata_of(*game),
{
    GameMetadata {
        name: game.game_title.clone(),
        description: clone_opt(&game.overview),
        release_date: clone_opt(&game.release_date),
        developer: None,
        publisher: None,
        genre: None,
        players: match game.players {
            Some(n) => Some(decimal_string(n as u64)),
            None => None,
        },
        rating: clone_opt(&game.rating),
        image_url: None,
        thumbnail_url: None,
    }
}

/// The address of the picture of the game `id`.
fn boxart_url_of(boxart: &Option<GamesDBBoxart>, id: u64) -> (r: Option<String>)
    ensures
        opt_view(r) == boxart_url(*boxart, id),
{
    let b = match boxart {
        Some(b) => b,
        None => {
            return None;
        },
    };
    let entry = match b.data.get(decimal_string(id).as_str()) {
        Some(entry) => entry,
        None => {
            return None;
        },
    };
    let images = match entry.as_array() {
        Some(images) => images,
        None => {
            return None;
        },
    };
    let ghost views = json_views(images@);
    let mut k: usize = 0;
    let mut file: Option<String> = None;
    while k < images.len() && file.is_none()
        invariant
            k <= images@.len(),
            views == json_views(images@),
            forall|i: int|
                0 <= i < (if file is Some {
                    k - 1
                } else {
                    k as int
                }) ==> !is_front(#[trigger] views[i]),
            file is Some ==> k >= 1 && is_front(views[k - 1]) && opt_view(file) == opt_text(
                views[k - 1].member("filename"@),
            ),
        decreases images@.len() - k,
    {
        assert(views[k as int] == images@[k as int]@);
        let name = text_in(images[k].get("filename"));
        let side = text_in(images[k].get("side"));
        let front = match side {
            Some(s) => same_text(s.as_str(), "front"),
            None => false,
        };
        if name.is_some() && front {
            file = name;
        }
        k += 1;
    }
    proof {
        if file is Some {
            lemma_front_index_unique(views, k - 1);
        } else {
            lemma_front_index_unique(views, views.len() as int);
        }
        if images@.len() > 0 {
            assert(views[0] == images@[0]@);
        }
    }
    if file.is_none() && images.len() > 0 {
        file = text_in(images[0].get("filename"));
    }
    match file {
        Some(name) => {
            let mut url = b.base_url.clone();
            push_text(&mut url, name.as_str());
            Some(url)
        },
        None => None,
    }
}

impl Default for TheGamesDB {
    fn default() -> (r: TheGamesDB)
        ensures
            r.api_key is None,
    {
        TheGamesDB::new()
    }
}

impl TheGamesDB {
    /// The provider without a key.
    pub fn new() -> (r: TheGamesDB)
        ensures
            r.api_key is None,
    {
        TheGamesDB { api_key: None }
    }

    /// The provider with a key.
    pub fn with_api_key(api_key: String) -> (r: TheGamesDB)
        ensures
            r.api_key == Some(api_key),
    {
        TheGamesDB { api_key: Some(api_key) }
    }

    /// The key; without one, nothing can be asked.
    pub fn get_api_key(&self) -> (r: Result<&str, ScraperError>)
        ensures
            match r {
                Ok(key) => opt_view(self.api_key) == Some(key@),
                Err(e) => self.api_key is None && e@ == ScraperErrorView::AuthenticationFailed,
            },
    {
        match &self.api_key {
            Some(key) => Ok(key.as_str()),
            None => Err(ScraperError::AuthenticationFailed),
        }
    }

    /// The platform of TheGamesDB that stands for a console identifier of
    /// ScreenScraper.
    pub fn map_screenscraper_to_thegamesdb(screenscraper_id: &str) -> (r: Option<&'static str>)
        ensures
            opt_str_view(r) == platform_of(screenscraper_id@),
    {
        if same_text(screenscraper_id, "3") {
            Some("7")
        } else if same_text(screenscraper_id, "4") {
            Some("6")
        } else if same_text(screenscraper_id, "1") {
            Some("36")
        } else if same_text(screenscraper_id, "2") {
            Some("35")
        } else if same_text(screenscraper_id, "9") {
            Some("4")
        } else if same_text(screenscraper_id, "10") {
            Some("5")
        } else if same_text(screenscraper_id, "12") {
            Some("12")
        } else if same_text(screenscraper_id, "15") {
            Some("8")
        } else if same_text(screenscraper_id, "57") {
            Some("10")
        } else if same_text(screenscraper_id, "58") {
            Some("11")
        } else {
            None
        }
    }

    /// The name under which the provider is known.
    pub fn name(&self) -> (r: &'static str)
        ensures
            r@ == "TheGamesDB"@,
    {
        "TheGamesDB"
    }

    /// Sets the key: the provider knows no accounts, so the user name is
    /// taken for the key and the password is left aside.
    pub fn authenticate(&mut self, username: &str, password: &str)
        ensures
            opt_view(final(self).api_key) == Some(username@),
    {
        self.api_key = Some(String::from_str(username));
    }

    /// The address that is asked for the ROM at `path` on `console`.
    pub fn search_request(&self, path: &str, console: &Console) -> (r: Result<String, ScraperError>)
        ensures
            url_view(r) == search_request(opt_view(self.api_key), path@, console@),
    {
        let console_id = match console.thegamesdb_id {
            Some(id) => id,
            None => {
                return Err(ScraperError::PlatformNotSupported);
            },
        };
        let api_key = match self.get_api_key() {
            Ok(key) => key,
            Err(e) => {
                return Err(e);
            },
        };
        let platform = TheGamesDB::map_screenscraper_to_thegamesdb(
            decimal_of_i32(console_id).as_str(),
        );
        let chars = chars_of(path);
        let start = after_last_index(&chars, '/');
        let file_name = string_of_range(&chars, start, chars.len());
        assert(chars@.subrange(start as int, chars@.len() as int) =~= path@.skip(start as int));
        if chars.len() == start || same_text(file_name.as_str(), "..") {
            return Err(ScraperError::GameNotFound);
        }
        let name_chars = chars_of(file_name.as_str());
        let dot = after_last_index(&name_chars, '.');
        let game_name = if dot >= 2 {
            assert(name_chars@.subrange(0, dot - 1) =~= name_chars@.take(dot - 1));
            string_of_range(&name_chars, 0, dot - 1)
        } else {
            file_name
        };
        let mut url = String::from_str("https://api.thegamesdb.net/v1");
        push_text(&mut url, "/Games/ByGameName?apikey=");
        push_text(&mut url, api_key);
        push_text(&mut url, "&name=");
        push_text(&mut url, url_encode(game_name.as_str()).as_str());
        match platform {
            Some(p) => {
                let ghost before = url@;
                push_text(&mut url, "&filter[platform]=");
                push_text(&mut url, p);
                assert(url@ =~= before + ("&filter[platform]="@ + p@));
            },
            None => {
                assert(url@ =~= url@ + Seq::<char>::empty());
            },
        }
        push_text(&mut url, "&include=boxart");
        Ok(url)
    }

    /// The address that is asked for the game `game_id`.
    pub fn game_request(&self, game_id: &str) -> (r: Result<String, ScraperError>)
        ensures
            url_view(r) == match opt_view(self.api_key) {
                Some(key) => Ok::<Seq<char>, ScraperErrorView>(game_url(key, game_id@)),
                None => Err::<Seq<char>, ScraperErrorView>(ScraperErrorView::AuthenticationFailed),
            },
    {
        match self.get_api_key() {
            Ok(api_key) => {
                let mut url = String::from_str("https://api.thegamesdb.net/v1");
                push_text(&mut url, "/Games/ByGameID?apikey=");
                push_text(&mut url, api_key);
                push_text(&mut url, "&id=");
                push_text(&mut url, game_id);
                push_text(&mut url, "&include=boxart");
                Ok(url)
            },
            Err(e) => Err(e),
        }
    }

    /// The error that the status of an answer to a search stands for, if it
    /// stands for one. `status_text` is the status in words.
    pub fn status_error(status: u16, status_text: &str) -> (r: Option<ScraperError>)
        ensures
            match r {
                Some(e) => status_error(status, status_text@) == Some(e@),
                None => status_error(status, status_text@) is None,
            },
    {
        if status == 403 {
            Some(ScraperError::RateLimitExceeded)
        } else if !(200 <= status && status <= 299) {
            let mut text = String::from_str("HTTP error: ");
            push_text(&mut text, status_text);
            Some(ScraperError::Network(text))
        } else {
            None
        }
    }

    /// What an answer to a search says of the game.
    pub fn search_result(response: &GamesDBResponse) -> (r: Result<GameMetadata, ScraperError>)
        ensures
            found_view(r) == search_result(*response),
    {
        if response.games.len() == 0 {
            return Err(ScraperError::GameNotFound);
        }
        let game = &response.games[0];
        let mut metadata = metadata_from(game);
        metadata.image_url = boxart_url_of(&response.boxart, game.id);
        Ok(metadata)
    }

    /// What an answer to a question by identifier says of the game.
    pub fn get_game_metadata(response: &GamesDBResponse) -> (r: Result<GameMetadata, ScraperError>)
        ensures
            found_view(r) == game_result(*response),
    {
        if response.games.len() == 0 {
            return Err(ScraperError::GameNotFound);
        }
        Ok(metadata_from(&response.games[0]))
    }
}

} // verus!
