//! ScreenScraper: how its API is addressed and how its answers are read.

use vstd::prelude::*;
use crate::console::{Console, ConsoleView};
use crate::json::{
    at_in, get_in, json_views, opt_item, opt_member, opt_text, text_in, Json,
    JsonView,
};
use crate::outside::{crc32, crc32_of, parse_json, parsed_json, percent_encoded, url_encode};
use crate::scraper::{
    file_name_of, found_view, url_view, GameMetadata, GameMetadataView, ScraperError,
    ScraperErrorView,
};
use crate::text::{
    after_last, after_last_index, chars_of, decimal, decimal_of_i32, decimal_string,
    has_char, hex, hex_string, opt_view, push_text, same_text, signed_decimal, string_of_range,
    strings_view,
};

verus! {

/// The settings of the provider.
#[derive(Debug, Clone)]
pub struct ScreenScraperConfig {
    pub username: Option<String>,
    pub password: Option<String>,
    pub box_art_type: String,
}

/// The kind of picture that is fetched unless another is configured.
pub fn default_box_art_type() -> (r: String)
    ensures
        r@ == "box-2D"@,
{
    String::from_str("box-2D")
}

/// ScreenScraper, with the account under which it is asked and the kind of
/// picture that is wanted.
pub struct ScreenScraper {
    pub username: Option<String>,
    pub password: Option<String>,
    pub box_art_type: String,
}

/// The mathematical value of a [`ScreenScraper`].
pub struct ScreenScraperView {
    pub username: Option<Seq<char>>,
    pub password: Option<Seq<char>>,
    pub box_art_type: Seq<char>,
}

impl View for ScreenScraper {
    type V = ScreenScraperView;

    open spec fn view(&self) -> ScreenScraperView {
        ScreenScraperView {
            username: opt_view(self.username),
            password: opt_view(self.password),
            box_art_type: self.box_art_type@,
        }
    }
}

/// The values of a list of pairs of strings.
pub open spec fn pairs_view(v: Seq<(String, String)>) -> Seq<(Seq<char>, Seq<char>)> {
    Seq::new(v.len(), |i: int| (v[i].0@, v[i].1@))
}

/// Parameters as they stand in a query: `&`, the key, `=` and the value for
/// each.
pub open spec fn query_of(params: Seq<(Seq<char>, Seq<char>)>) -> Seq<char>
    decreases params.len(),
{
    if params.len() == 0 {
        Seq::empty()
    } else {
        query_of(params.drop_last()) + "&"@ + params.last().0 + "="@ + params.last().1
    }
}

/// The part of a query that names the user's account, where both its name
/// and its password are set.
pub open spec fn account_query(scraper: ScreenScraperView) -> Seq<char> {
    if scraper.username is Some && scraper.password is Some {
        "&ssid="@ + scraper.username->0 + "&sspassword="@ + scraper.password->0
    } else {
        Seq::empty()
    }
}

/// The address of an endpoint of the API with the given parameters: the
/// developer's account and the name of the software come first, then the
/// user's account, the wanted form of the answer, and the parameters.
pub open spec fn api_url(
    scraper: ScreenScraperView,
    endpoint: Seq<char>,
    params: Seq<(Seq<char>, Seq<char>)>,
) -> Seq<char> {
    "https://api.screenscraper.fr/api2"@ + "/"@ + endpoint + "?devid="@ + "Silenced8261"@
        + "&devpassword="@ + "d7jsIKm1Jt7"@ + "&softname="@ + "collie"@ + account_query(scraper)
        + "&output=json"@ + query_of(params)
}

/// The parameters of a search: the encoded file name, the console, the kind
/// of file, and the size and the checksum of the file where they are known.
pub open spec fn search_params(
    rom_name: Seq<char>,
    console_id: Seq<char>,
    rom_size: Option<u64>,
    crc: Option<Seq<char>>,
) -> Seq<(Seq<char>, Seq<char>)> {
    let base = seq![
        ("romnom"@, percent_encoded(vstd::utf8::encode_utf8(rom_name))),
        ("systemeid"@, console_id),
        ("romtype"@, "rom"@),
    ];
    let sized = match rom_size {
        Some(size) => base.push(("romtaille"@, decimal(size as nat))),
        None => base,
    };
    match crc {
        Some(c) => sized.push(("crc"@, c)),
        None => sized,
    }
}

/// The checksum of a file as it is sent: the CRC-32 of its bytes in
/// lower-case hexadecimal digits.
pub open spec fn checksum_text(contents: Seq<u8>) -> Seq<char> {
    hex(crc32_of(contents) as nat)
}

/// The value of optional bytes.
pub open spec fn opt_bytes_view(o: Option<&Vec<u8>>) -> Option<Seq<u8>> {
    match o {
        Some(v) => Some(v@),
        None => None,
    }
}

/// The address that is asked for a ROM: the console must be known to the
/// provider and the path must name a file.
pub open spec fn search_request(
    scraper: ScreenScraperView,
    path: Seq<char>,
    console: ConsoleView,
    rom_size: Option<u64>,
    contents: Option<Seq<u8>>,
) -> Result<Seq<char>, ScraperErrorView> {
    match console.screenscraper_id {
        None => Err(ScraperErrorView::PlatformNotSupported),
        Some(id) => match file_name_of(path) {
            None => Err(ScraperErrorView::GameNotFound),
            Some(name) => Ok(
                api_url(
                    scraper,
                    "jeuInfos.php"@,
                    search_params(
                        name,
                        signed_decimal(id as int),
                        rom_size,
                        match contents {
                            Some(bytes) => Some(checksum_text(bytes)),
                            None => None,
                        },
                    ),
                ),
            ),
        },
    }
}

/// What the status of an answer means: only 200 carries a result; 403 says
/// that the account was refused, 404 that the game is unknown, 429 to 431
/// that the provider wants a pause, and every other status is a failure of the
/// network with the body as its text.
pub open spec fn status_error(status: u16, body: Seq<char>) -> Option<ScraperErrorView> {
    if status == 200 {
        None
    } else if status == 403 {
        Some(ScraperErrorView::AuthenticationFailed)
    } else if status == 404 {
        Some(ScraperErrorView::GameNotFound)
    } else if 429 <= status <= 431 {
        Some(ScraperErrorView::RateLimitExceeded)
    } else {
        Some(ScraperErrorView::Network(body))
    }
}

/// The game of an answer: the member `jeu` of the member `response`, or
/// else the member `jeu` of the answer itself.
pub open spec fn jeu_of(json: JsonView) -> Option<JsonView> {
    match opt_member(json.member("response"@), "jeu"@) {
        Some(jeu) => Some(jeu),
        None => json.member("jeu"@),
    }
}

/// The text of the first item of the list under `key`.
pub open spec fn first_text(parent: JsonView, key: Seq<char>) -> Option<Seq<char>> {
    opt_text(opt_member(opt_item(parent.member(key), 0), "text"@))
}

/// The text of the member under `key`.
pub open spec fn direct_text(parent: JsonView, key: Seq<char>) -> Option<Seq<char>> {
    opt_text(opt_member(parent.member(key), "text"@))
}

/// The first name of the first genre.
pub open spec fn genre_text(jeu: JsonView) -> Option<Seq<char>> {
    opt_text(
        opt_member(
            opt_item(opt_member(opt_item(jeu.member("genres"@), 0), "noms"@), 0),
            "text"@,
        ),
    )
}

/// The metadata that an answer holds. An answer without a game cannot be
/// read; a game without a name is called `Unknown`. The rating is the text of
/// the first classification, not yet read as a number, and no picture is
/// chosen yet.
pub open spec fn metadata_of(json: JsonView) -> Result<GameMetadataView, ScraperErrorView> {
    match jeu_of(json) {
        None => Err(ScraperErrorView::ParseError("Missing 'jeu' field"@)),
        Some(jeu) => Ok(
            GameMetadataView {
                name: match first_text(jeu, "noms"@) {
                    Some(name) => name,
                    None => "Unknown"@,
                },
                description: first_text(jeu, "synopsis"@),
                release_date: first_text(jeu, "dates"@),
                developer: direct_text(jeu, "developpeur"@),
                publisher: direct_text(jeu, "editeur"@),
                genre: genre_text(jeu),
                players: direct_text(jeu, "joueurs"@),
                rating: first_text(jeu, "classifications"@),
                image_url: None,
                thumbnail_url: None,
            },
        ),
    }
}

/// The pictures of an answer: the member `medias` of the game under
/// `response`, or else of the game of the answer itself.
pub open spec fn medias_of(json: JsonView) -> Option<JsonView> {
    match opt_member(opt_member(json.member("response"@), "jeu"@), "medias"@) {
        Some(medias) => Some(medias),
        None => opt_member(json.member("jeu"@), "medias"@),
    }
}

/// Whether a picture is of the wanted kind.
pub open spec fn is_media_type(media: JsonView, media_type: Seq<char>) -> bool {
    opt_text(media.member("type"@)) == Some(media_type)
}

/// The place of `region` among the preferred regions, or their number where
/// it is not among them.
pub open spec fn region_index(preferences: Seq<Seq<char>>, region: Seq<char>) -> int
    decreases preferences.len(),
{
    if preferences.len() == 0 || preferences[0] == region {
        0
    } else {
        1 + region_index(preferences.drop_first(), region)
    }
}

/// The rank of a picture: the place of its region among the preferred ones,
/// and 999 for a region that is not preferred. A picture without a region
/// counts as of the region `unknown`.
pub open spec fn media_rank(media: JsonView, preferences: Seq<Seq<char>>) -> int {
    let region = match opt_text(media.member("region"@)) {
        Some(r) => r,
        None => "unknown"@,
    };
    let k = region_index(preferences, region);
    if k < preferences.len() {
        k
    } else {
        999
    }
}

/// The place of the picture to take among `medias`: the first of those of
/// the wanted kind whose rank is lowest; `None` where none is of that kind.
pub open spec fn best_media(
    medias: Seq<JsonView>,
    media_type: Seq<char>,
    preferences: Seq<Seq<char>>,
) -> Option<int>
    decreases medias.len(),
{
    if medias.len() == 0 {
        None
    } else {
        let front = best_media(medias.drop_last(), media_type, preferences);
        let last = medias.len() - 1;
        if is_media_type(medias[last], media_type) {
            match front {
                Some(k) => if media_rank(medias[last], preferences) < media_rank(
                    medias[k],
                    preferences,
                ) {
                    Some(last)
                } else {
                    front
                },
                None => Some(last),
            }
        } else {
            front
        }
    }
}

/// The chosen picture is of the wanted kind, no picture of that kind has a
/// lower rank, and none before it has the same.
pub proof fn lemma_best_media(medias: Seq<JsonView>, media_type: Seq<char>, preferences: Seq<Seq<char>>)
    ensures
        match best_media(medias, media_type, preferences) {
            Some(k) => 0 <= k < medias.len() && is_media_type(medias[k], media_type) && (forall|
                i: int,
            |
                0 <= i < medias.len() && is_media_type(#[trigger] medias[i], media_type)
                    ==> media_rank(medias[k], preferences) <= media_rank(medias[i], preferences))
                && (forall|i: int|
                0 <= i < k && is_media_type(#[trigger] medias[i], media_type) ==> media_rank(
                    medias[k],
                    preferences,
                ) < media_rank(medias[i], preferences)),
            None => forall|i: int|
                0 <= i < medias.len() ==> !is_media_type(#[trigger] medias[i], media_type),
        },
    decreases medias.len(),
{
    if medias.len() > 0 {
        let front = medias.drop_last();
        lemma_best_media(front, media_type, preferences);
        assert forall|i: int| 0 <= i < front.len() implies front[i] == medias[i] by {}
    }
}

/// The address of the picture of the wanted kind for the preferred regions.
/// The picture is chosen first; where the chosen one has no address, there
/// is none.
pub open spec fn media_url(json: JsonView, media_type: Seq<char>, preferences: Seq<Seq<char>>) -> Option<
    Seq<char>,
> {
    match medias_of(json) {
        None => None,
        Some(medias) => match medias.items() {
            None => None,
            Some(items) => match best_media(items, media_type, preferences) {
                None => None,
                Some(k) => opt_text(items[k].member("url"@)),
            },
        },
    }
}

/// The regions in the order in which their pictures are preferred.
pub open spec fn preferred_regions() -> Seq<Seq<char>> {
    seq!["us"@, "wor"@, "eu"@, "jp"@, "ss"@]
}

/// What a JSON answer says of the game: its metadata, with the address of
/// its picture of the wanted kind.
pub open spec fn found_in(json: JsonView, box_art_type: Seq<char>) -> Result<
    GameMetadataView,
    ScraperErrorView,
> {
    match metadata_of(json) {
        Ok(metadata) => Ok(
            GameMetadataView {
                image_url: media_url(json, box_art_type, preferred_regions()),
                ..metadata
            },
        ),
        Err(e) => Err(e),
    }
}

/// What an answer to a search says: the error that its status stands for,
/// or what its body says once it is read as JSON; a body that cannot be read
/// is a parse error with the reader's words.
pub open spec fn search_result(status: u16, body: Seq<char>, box_art_type: Seq<char>) -> Result<
    GameMetadataView,
    ScraperErrorView,
> {
    match status_error(status, body) {
        Some(e) => Err(e),
        None => match parsed_json(body) {
            Ok(json) => found_in(json, box_art_type),
            Err(words) => Err(ScraperErrorView::ParseError(words)),
        },
    }
}

/// The address from which a picture is fetched: the picture's address with
/// the bounds of its size as parameters.
pub open spec fn download_url(url: Seq<char>) -> Seq<char> {
    if url.contains('?') {
        url + "&maxwidth=250&maxheight=360"@
    } else {
        url + "?maxwidth=250&maxheight=360"@
    }
}

/// The rank of a picture.
fn rank_of(media: &Json, preferences: &Vec<String>) -> (r: usize)
    ensures
        r == media_rank(media@, strings_view(preferences@)),
{
    let region = match text_in(media.get("region")) {
        Some(r) => r,
        None => String::from_str("unknown"),
    };
    let ghost prefs = strings_view(preferences@);
    let mut k: usize = 0;
    while k < preferences.len() && !same_text(preferences[k].as_str(), region.as_str())
        invariant
            k <= preferences@.len(),
            prefs == strings_view(preferences@),
            forall|i: int| 0 <= i < k ==> #[trigger] prefs[i] != region@,
        decreases preferences@.len() - k,
    {
        assert(prefs[k as int] == preferences@[k as int]@);
        k += 1;
    }
    proof {
        if k < preferences@.len() {
            assert(prefs[k as int] == preferences@[k as int]@);
        }
        lemma_region_index_unique(prefs, region@, k as int);
    }
    if k < preferences.len() {
        k
    } else {
        999
    }
}

/// A place before which no region is `region` and at which it stands, or
/// which is the end, is the index of the region.
proof fn lemma_region_index_unique(preferences: Seq<Seq<char>>, region: Seq<char>, k: int)
    requires
        0 <= k <= preferences.len(),
        forall|i: int| 0 <= i < k ==> #[trigger] preferences[i] != region,
        k < preferences.len() ==> preferences[k] == region,
    ensures
        region_index(preferences, region) == k,
    decreases preferences.len(),
{
    if preferences.len() == 0 {
    } else if preferences[0] == region {
        if k > 0 {
            assert(preferences[0] != region);
        }
    } else {
        let rest = preferences.drop_first();
        assert forall|i: int| 0 <= i < k - 1 implies #[trigger] rest[i] != region by {
            assert(rest[i] == preferences[i + 1]);
        }
        if k - 1 < rest.len() {
            assert(rest[k - 1] == preferences[k]);
        }
        lemma_region_index_unique(rest, region, k - 1);
    }
}

impl Default for ScreenScraper {
    fn default() -> (r: ScreenScraper)
        ensures
            r@ == (ScreenScraperView { username: None, password: None, box_art_type: "box-2D"@ }),
    {
        ScreenScraper::new()
    }
}

impl ScreenScraper {
    /// The provider without an account, for the usual kind of picture.
    pub fn new() -> (r: ScreenScraper)
        ensures
            r@ == (ScreenScraperView { username: None, password: None, box_art_type: "box-2D"@ }),
    {
        ScreenScraper { username: None, password: None, box_art_type: default_box_art_type() }
    }

    /// The provider for another kind of picture.
    pub fn with_box_art_type(self, box_art_type: String) -> (r: ScreenScraper)
        ensures
            r@ == (ScreenScraperView { box_art_type: box_art_type@, ..self@ }),
    {
        let mut r = self;
        r.box_art_type = box_art_type;
        r
    }

    /// The provider as the settings describe it: the kind of picture is
    /// taken over, and the account where both its name and its password are
    /// set.
    pub fn from_config(config: ScreenScraperConfig) -> (r: ScreenScraper)
        ensures
            r@ == (ScreenScraperView {
                username: if config.username is Some && config.password is Some {
                    opt_view(config.username)
                } else {
                    None
                },
                password: if config.username is Some && config.password is Some {
                    opt_view(config.password)
                } else {
                    None
                },
                box_art_type: config.box_art_type@,
            }),
    {
        match (config.username, config.password) {
            (Some(username), Some(password)) => ScreenScraper {
                username: Some(username),
                password: Some(password),
                box_art_type: config.box_art_type,
            },
            _ => ScreenScraper { username: None, password: None, box_art_type: config.box_art_type },
        }
    }

    /// The name under which the provider is known.
    pub fn name(&self) -> (r: &'static str)
        ensures
            r@ == "ScreenScraper"@,
    {
        "ScreenScraper"
    }

    /// Sets the account under which the provider is asked.
    pub fn authenticate(&mut self, username: &str, password: &str)
        ensures
            final(self)@ == (ScreenScraperView {
                username: Some(username@),
                password: Some(password@),
                ..old(self)@
            }),
    {
        self.username = Some(String::from_str(username));
        self.password = Some(String::from_str(password));
    }

    /// The address of an endpoint of the API with the given parameters.
    pub fn build_api_url(&self, endpoint: &str, params: &Vec<(String, String)>) -> (r: String)
        ensures
            r@ == api_url(self@, endpoint@, pairs_view(params@)),
    {
        let mut url = String::from_str("https://api.screenscraper.fr/api2");
        push_text(&mut url, "/");
        push_text(&mut url, endpoint);
        push_text(&mut url, "?devid=");
        push_text(&mut url, "Silenced8261");
        push_text(&mut url, "&devpassword=");
        push_text(&mut url, "d7jsIKm1Jt7");
        push_text(&mut url, "&softname=");
        push_text(&mut url, "collie");
        match (&self.username, &self.password) {
            (Some(username), Some(password)) => {
                let ghost before = url@;
                push_text(&mut url, "&ssid=");
                push_text(&mut url, username.as_str());
                push_text(&mut url, "&sspassword=");
                push_text(&mut url, password.as_str());
                assert(url@ =~= before + account_query(self@));
            },
            _ => {
                assert(url@ =~= url@ + account_query(self@));
            },
        }
        push_text(&mut url, "&output=json");
        let ghost head = url@;
        let ghost all = pairs_view(params@);
        let mut i: usize = 0;
        proof {
            assert(all.take(0) =~= Seq::<(Seq<char>, Seq<char>)>::empty());
            assert(url@ =~= head + query_of(all.take(0)));
        }
        while i < params.len()
            invariant
                i <= params@.len(),
                all == pairs_view(params@),
                url@ == head + query_of(all.take(i as int)),
            decreases params@.len() - i,
        {
            proof {
                assert(all.take(i + 1).drop_last() =~= all.take(i as int));
                assert(all.take(i + 1).last() == (params@[i as int].0@, params@[i as int].1@));
            }
            let ghost before = url@;
            push_text(&mut url, "&");
            push_text(&mut url, params[i].0.as_str());
            push_text(&mut url, "=");
            push_text(&mut url, params[i].1.as_str());
            assert(url@ =~= head + query_of(all.take(i + 1)));
            i += 1;
        }
        assert(all.take(all.len() as int) =~= all);
        url
    }

    /// The address that is asked for the ROM at `path` on `console`.
    /// `rom_size` and `contents` are the size and the bytes of the file,
    /// where it could be read.
    pub fn search_request(
        &self,
        path: &str,
        console: &Console,
        rom_size: Option<u64>,
        contents: Option<&Vec<u8>>,
    ) -> (r: Result<String, ScraperError>)
        ensures
            url_view(r) == search_request(self@, path@, console@, rom_size, opt_bytes_view(contents)),
    {
        let console_id = match console.screenscraper_id {
            Some(id) => id,
            None => {
                return Err(ScraperError::PlatformNotSupported);
            },
        };
        let chars = chars_of(path);
        let start = after_last_index(&chars, '/');
        let file_name = string_of_range(&chars, start, chars.len());
        assert(chars@.subrange(start as int, chars@.len() as int) =~= path@.skip(start as int));
        if chars.len() == start || same_text(file_name.as_str(), "..") {
            return Err(ScraperError::GameNotFound);
        }
        let mut params: Vec<(String, String)> = Vec::new();
        params.push((String::from_str("romnom"), url_encode(file_name.as_str())));
        params.push((String::from_str("systemeid"), decimal_of_i32(console_id)));
        params.push((String::from_str("romtype"), String::from_str("rom")));
        match rom_size {
            Some(size) => {
                params.push((String::from_str("romtaille"), decimal_string(size)));
            },
            None => {},
        }
        match contents {
            Some(bytes) => {
                params.push((String::from_str("crc"), hex_string(crc32(bytes.as_slice()))));
            },
            None => {},
        }
        assert(pairs_view(params@) =~= search_params(
            file_name@,
            signed_decimal(console_id as int),
            rom_size,
            match opt_bytes_view(contents) {
                Some(bytes) => Some(checksum_text(bytes)),
                None => None,
            },
        ));
        Ok(self.build_api_url("jeuInfos.php", &params))
    }

    /// The error that the status of an answer stands for, if it stands for
    /// one.
    pub fn status_error(status: u16, body: &str) -> (r: Option<ScraperError>)
        ensures
            match r {
                Some(e) => status_error(status, body@) == Some(e@),
                None => status_error(status, body@) is None,
            },
    {
        if status == 200 {
            None
        } else if status == 403 {
            Some(ScraperError::AuthenticationFailed)
        } else if status == 404 {
            Some(ScraperError::GameNotFound)
        } else if 429 <= status && status <= 431 {
            Some(ScraperError::RateLimitExceeded)
        } else {
            Some(ScraperError::Network(String::from_str(body)))
        }
    }

    /// Reads the metadata of the game from a JSON answer.
    pub fn parse_game_metadata(&self, json: &Json) -> (r: Result<GameMetadata, ScraperError>)
        ensures
            found_view(r) == metadata_of(json@),
    {
        let jeu = match get_in(json.get("response"), "jeu") {
            Some(jeu) => jeu,
            None => match json.get("jeu") {
                Some(jeu) => jeu,
                None => {
                    return Err(ScraperError::ParseError(String::from_str("Missing 'jeu' field")));
                },
            },
        };
        let name = match text_in(get_in(at_in(jeu.get("noms"), 0), "text")) {
            Some(name) => name,
            None => String::from_str("Unknown"),
        };
        Ok(
            GameMetadata {
                name,
                description: text_in(get_in(at_in(jeu.get("synopsis"), 0), "text")),
                release_date: text_in(get_in(at_in(jeu.get("dates"), 0), "text")),
                developer: text_in(get_in(jeu.get("developpeur"), "text")),
                publisher: text_in(get_in(jeu.get("editeur"), "text")),
                genre: text_in(
                    get_in(at_in(get_in(at_in(jeu.get("genres"), 0), "noms"), 0), "text"),
                ),
                players: text_in(get_in(jeu.get("joueurs"), "text")),
                rating: text_in(get_in(at_in(jeu.get("classifications"), 0), "text")),
                image_url: None,
                thumbnail_url: None,
            },
        )
    }

    /// The address of the picture of the kind `media_type` for the regions
    /// in `region_preferences`, the most preferred first.
    pub fn get_media_url(
        &self,
        json: &Json,
        media_type: &str,
        region_preferences: &Vec<String>,
    ) -> (r: Option<String>)
        ensures
            opt_view(r) == media_url(json@, media_type@, strings_view(region_preferences@)),
    {
        let medias = match get_in(get_in(json.get("response"), "jeu"), "medias") {
            Some(medias) => medias,
            None => match get_in(json.get("jeu"), "medias") {
                Some(medias) => medias,
                None => {
                    return None;
                },
            },
        };
        let items = match medias.as_array() {
            Some(items) => items,
            None => {
                return None;
            },
        };
        let ghost prefs = strings_view(region_preferences@);
        let ghost views = json_views(items@);
        let mut best: Option<(usize, usize)> = None;
        let mut i: usize = 0;
        proof {
            assert(views.take(0) =~= Seq::<JsonView>::empty());
        }
        while i < items.len()
            invariant
                i <= items@.len(),
                prefs == strings_view(region_preferences@),
                views == json_views(items@),
                match best {
                    Some(b) => best_media(views.take(i as int), media_type@, prefs) == Some(
                        b.0 as int,
                    ) && b.0 < i && b.1 == media_rank(views[b.0 as int], prefs),
                    None => best_media(views.take(i as int), media_type@, prefs) is None,
                },
            decreases items@.len() - i,
        {
            proof {
                assert(views.take(i + 1).drop_last() =~= views.take(i as int));
                assert(views.take(i + 1)[i as int] == views[i as int]);
                assert(views[i as int] == items@[i as int]@);
                match best {
                    Some(b) => {
                        assert(views.take(i + 1)[b.0 as int] == views[b.0 as int]);
                    },
                    None => {},
                }
            }
            let media = &items[i];
            let of_type = match text_in(media.get("type")) {
                Some(t) => same_text(t.as_str(), media_type),
                None => false,
            };
            if of_type {
                let rank = rank_of(media, region_preferences);
                match best {
                    Some(b) => {
                        if rank < b.1 {
                            best = Some((i, rank));
                        }
                    },
                    None => {
                        best = Some((i, rank));
                    },
                }
            }
            i += 1;
        }
        proof {
            assert(views.take(views.len() as int) =~= views);
            match best {
                Some(b) => {
                    assert(views[b.0 as int] == items@[b.0 as int]@);
                },
                None => {},
            }
        }
        match best {
            Some(b) => text_in(items[b.0].get("url")),
            None => None,
        }
    }

    /// What a JSON answer says of the game: its metadata, with the address
    /// of its picture of the configured kind.
    pub fn found_in(&self, json: &Json) -> (r: Result<GameMetadata, ScraperError>)
        ensures
            found_view(r) == found_in(json@, self@.box_art_type),
    {
        match self.parse_game_metadata(json) {
            Ok(metadata) => {
                let mut regions: Vec<String> = Vec::new();
                regions.push(String::from_str("us"));
                regions.push(String::from_str("wor"));
                regions.push(String::from_str("eu"));
                regions.push(String::from_str("jp"));
                regions.push(String::from_str("ss"));
                assert(strings_view(regions@) =~= preferred_regions());
                let mut metadata = metadata;
                metadata.image_url = self.get_media_url(json, self.box_art_type.as_str(), &regions);
                Ok(metadata)
            },
            Err(e) => Err(e),
        }
    }

    /// What an answer to a search says of the game, from its status and its
    /// body.
    pub fn search_result(&self, status: u16, body: &str) -> (r: Result<GameMetadata, ScraperError>)
        ensures
            found_view(r) == search_result(status, body@, self@.box_art_type),
    {
        match ScreenScraper::status_error(status, body) {
            Some(e) => Err(e),
            None => match parse_json(body) {
                Ok(json) => self.found_in(&json),
                Err(words) => Err(ScraperError::ParseError(words)),
            },
        }
    }

    /// The provider gives all it knows with the search; asking for a game
    /// by its identifier always fails.
    pub fn get_game_metadata(&self, game_id: &str) -> (r: Result<GameMetadata, ScraperError>)
        ensures
            found_view(r) == Err::<GameMetadataView, ScraperErrorView>(
                ScraperErrorView::ParseError("Not implemented for ScreenScraper"@),
            ),
    {
        Err(ScraperError::ParseError(String::from_str("Not implemented for ScreenScraper")))
    }

    /// The address from which the picture at `url` is fetched.
    pub fn download_url(url: &str) -> (r: String)
        ensures
            r@ == download_url(url@),
    {
        let chars = chars_of(url);
        let mut r = String::from_str(url);
        if has_char(&chars, '?') {
            push_text(&mut r, "&maxwidth=250&maxheight=360");
        } else {
            push_text(&mut r, "?maxwidth=250&maxheight=360");
        }
        r
    }
}

} // verus!
