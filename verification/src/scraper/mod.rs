//! What a provider hands back: the metadata it found, or the reason it found
//! none.

pub mod gamefaqs;
pub mod screenscraper;
pub mod thegamesdb;

use vstd::prelude::*;
use crate::text::{after_last, clone_opt, opt_view, push_text};

verus! {

/// Metadata of a game as a provider reports it. `rating` is the provider's
/// rating as text.
#[derive(Debug, Clone)]
pub struct GameMetadata {
    pub name: String,
    pub description: Option<String>,
    pub release_date: Option<String>,
    pub developer: Option<String>,
    pub publisher: Option<String>,
    pub genre: Option<String>,
    pub players: Option<String>,
    pub rating: Option<String>,
    pub image_url: Option<String>,
    pub thumbnail_url: Option<String>,
}

/// The mathematical value of a [`GameMetadata`].
pub struct GameMetadataView {
    pub name: Seq<char>,
    pub description: Option<Seq<char>>,
    pub release_date: Option<Seq<char>>,
    pub developer: Option<Seq<char>>,
    pub publisher: Option<Seq<char>>,
    pub genre: Option<Seq<char>>,
    pub players: Option<Seq<char>>,
    pub rating: Option<Seq<char>>,
    pub image_url: Option<Seq<char>>,
    pub thumbnail_url: Option<Seq<char>>,
}

impl View for GameMetadata {
    type V = GameMetadataView;

    open spec fn view(&self) -> GameMetadataView {
        GameMetadataView {
            name: self.name@,
            description: opt_view(self.description),
            release_date: opt_view(self.release_date),
            developer: opt_view(self.developer),
            publisher: opt_view(self.publisher),
            genre: opt_view(self.genre),
            players: opt_view(self.players),
            rating: opt_view(self.rating),
            image_url: opt_view(self.image_url),
            thumbnail_url: opt_view(self.thumbnail_url),
        }
    }
}

impl GameMetadata {
    /// A copy with the same value.
    pub fn duplicate(&self) -> (r: GameMetadata)
        ensures
            r@ == self@,
    {
        GameMetadata {
            name: self.name.clone(),
            description: clone_opt(&self.description),
            release_date: clone_opt(&self.release_date),
            developer: clone_opt(&self.developer),
            publisher: clone_opt(&self.publisher),
            genre: clone_opt(&self.genre),
            players: clone_opt(&self.players),
            rating: clone_opt(&self.rating),
            image_url: clone_opt(&self.image_url),
            thumbnail_url: clone_opt(&self.thumbnail_url),
        }
    }
}

/// Why a request to a provider gave no result. `Network`, `ParseError` and
/// `Io` carry the text of the underlying failure.
#[derive(Debug, Clone)]
pub enum ScraperError {
    Network(String),
    AuthenticationFailed,
    GameNotFound,
    RateLimitExceeded,
    ParseError(String),
    PlatformNotSupported,
    Io(String),
}

/// The mathematical value of a [`ScraperError`].
pub enum ScraperErrorView {
    Network(Seq<char>),
    AuthenticationFailed,
    GameNotFound,
    RateLimitExceeded,
    ParseError(Seq<char>),
    PlatformNotSupported,
    Io(Seq<char>),
}

/// What an error means for the item: the provider does not know the game,
/// the provider asks for a pause, or anything else.
#[derive(Debug, Copy, Clone, PartialEq, Eq, Structural)]
pub enum ErrorClass {
    NotFound,
    RateLimited,
    Other,
}

impl ScraperErrorView {
    /// The text that describes the error to a reader.
    pub open spec fn message(self) -> Seq<char> {
        match self {
            ScraperErrorView::Network(detail) => "Network error: "@ + detail,
            ScraperErrorView::AuthenticationFailed => "Authentication failed"@,
            ScraperErrorView::GameNotFound => "Game not found"@,
            ScraperErrorView::RateLimitExceeded => "Rate limit exceeded"@,
            ScraperErrorView::ParseError(detail) => "Parse error: "@ + detail,
            ScraperErrorView::PlatformNotSupported => "Platform not supported"@,
            ScraperErrorView::Io(detail) => "IO error: "@ + detail,
        }
    }

    /// The class of the error.
    pub open spec fn class(self) -> ErrorClass {
        match self {
            ScraperErrorView::GameNotFound => ErrorClass::NotFound,
            ScraperErrorView::RateLimitExceeded => ErrorClass::RateLimited,
            _ => ErrorClass::Other,
        }
    }
}

impl View for ScraperError {
    type V = ScraperErrorView;

    open spec fn view(&self) -> ScraperErrorView {
        match self {
            ScraperError::Network(detail) => ScraperErrorView::Network(detail@),
            ScraperError::AuthenticationFailed => ScraperErrorView::AuthenticationFailed,
            ScraperError::GameNotFound => ScraperErrorView::GameNotFound,
            ScraperError::RateLimitExceeded => ScraperErrorView::RateLimitExceeded,
            ScraperError::ParseError(detail) => ScraperErrorView::ParseError(detail@),
            ScraperError::PlatformNotSupported => ScraperErrorView::PlatformNotSupported,
            ScraperError::Io(detail) => ScraperErrorView::Io(detail@),
        }
    }
}

impl ScraperError {
    /// The text that describes the error to a reader.
    pub fn message(&self) -> (r: String)
        ensures
            r@ == self@.message(),
    {
        match self {
            ScraperError::Network(detail) => {
                let mut r = String::from_str("Network error: ");
                push_text(&mut r, detail.as_str());
                r
            },
            ScraperError::AuthenticationFailed => String::from_str("Authentication failed"),
            ScraperError::GameNotFound => String::from_str("Game not found"),
            ScraperError::RateLimitExceeded => String::from_str("Rate limit exceeded"),
            ScraperError::ParseError(detail) => {
                let mut r = String::from_str("Parse error: ");
                push_text(&mut r, detail.as_str());
                r
            },
            ScraperError::PlatformNotSupported => String::from_str("Platform not supported"),
            ScraperError::Io(detail) => {
                let mut r = String::from_str("IO error: ");
                push_text(&mut r, detail.as_str());
                r
            },
        }
    }

    /// The class of the error: only `GameNotFound` says that the provider
    /// does not know the game, and only `RateLimitExceeded` asks for a pause.
    pub fn class(&self) -> (r: ErrorClass)
        ensures
            r == self@.class(),
    {
        match self {
            ScraperError::GameNotFound => ErrorClass::NotFound,
            ScraperError::RateLimitExceeded => ErrorClass::RateLimited,
            _ => ErrorClass::Other,
        }
    }

    /// A copy with the same value.
    pub fn duplicate(&self) -> (r: ScraperError)
        ensures
            r@ == self@,
    {
        match self {
            ScraperError::Network(detail) => ScraperError::Network(detail.clone()),
            ScraperError::AuthenticationFailed => ScraperError::AuthenticationFailed,
            ScraperError::GameNotFound => ScraperError::GameNotFound,
            ScraperError::RateLimitExceeded => ScraperError::RateLimitExceeded,
            ScraperError::ParseError(detail) => ScraperError::ParseError(detail.clone()),
            ScraperError::PlatformNotSupported => ScraperError::PlatformNotSupported,
            ScraperError::Io(detail) => ScraperError::Io(detail.clone()),
        }
    }
}

/// The name of the file at a path: what stands behind the last `/`. A path
/// that is empty or ends in `/` or in `..` names no file.
pub open spec fn file_name_of(path: Seq<char>) -> Option<Seq<char>> {
    let name = path.skip(after_last(path, '/'));
    if name.len() == 0 || name == ".."@ {
        None
    } else {
        Some(name)
    }
}


/// The value of a result of a search.
pub open spec fn found_view(r: Result<GameMetadata, ScraperError>) -> Result<
    GameMetadataView,
    ScraperErrorView,
> {
    match r {
        Ok(m) => Ok(m@),
        Err(e) => Err(e@),
    }
}

/// The value of a result that is an address.
pub open spec fn url_view(r: Result<String, ScraperError>) -> Result<Seq<char>, ScraperErrorView> {
    match r {
        Ok(url) => Ok(url@),
        Err(e) => Err(e@),
    }
}


} // verus!
