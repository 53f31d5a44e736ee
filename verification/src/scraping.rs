//! The metadata track of one item, as a state machine: the caller performs
//! the action that the track asks for and hands back what came of it; the
//! track decides what that means for the item and what to do next.

use vstd::prelude::*;
use crate::backoff::{next_interval, pause_message, wait_of, BackoffState};
use crate::progress::{
    emit, event, GameData, GameDataView, GameMetadataView, ProgressUpdate, ProgressUpdateView,
    ScrapeStatus, ScrapingProgress, ScrapingProgressView, opt_data_view, updates_view,
};
use crate::scanner::{RomFile, RomFileView};
use crate::scraper::{
    ErrorClass, GameMetadata, GameMetadataView as FoundView, ScraperError, ScraperErrorView,
};
use crate::text::{
    after_last, after_last_index, chars_of, clone_strings, is_path_within, join_path, joined,
    opt_view, path_within, push_text, string_of_range, strings_view,
};

verus! {

/// The settings of a run.
pub struct ScrapingConfig {
    pub roms_path: String,
    pub images_folder: String,
    pub guides_folder: String,
    pub box_art_width: Option<u32>,
    pub skip_cache: bool,
}

/// The address under which the front end finds an image that lies at `rel`
/// below the ROM directory.
pub open spec fn api_image_path(rel: Seq<char>) -> Seq<char> {
    "/api/images/"@ + rel
}

/// What came of fetching an image: its directory could not be made, the
/// image is stored, or the download failed.
#[derive(Debug, Clone)]
pub enum DownloadOutcome {
    DirectoryFailed,
    Stored,
    Failed(ScraperError),
}

/// The mathematical value of a [`DownloadOutcome`].
pub enum DownloadOutcomeView {
    DirectoryFailed,
    Stored,
    Failed(ScraperErrorView),
}

impl View for DownloadOutcome {
    type V = DownloadOutcomeView;

    open spec fn view(&self) -> DownloadOutcomeView {
        match self {
            DownloadOutcome::DirectoryFailed => DownloadOutcomeView::DirectoryFailed,
            DownloadOutcome::Stored => DownloadOutcomeView::Stored,
            DownloadOutcome::Failed(e) => DownloadOutcomeView::Failed(e@),
        }
    }
}

/// What the caller reports to the metadata track.
#[derive(Debug)]
pub enum MetadataEvent {
    /// The track is to start.
    Begin,
    /// Whether the item's image file exists.
    ImageChecked(bool),
    /// The record that was stored for the item by an earlier run, if any.
    StoredLoaded(Option<GameData>),
    /// The answer of the provider that was asked.
    Searched(Result<GameMetadata, ScraperError>),
    /// What came of fetching the image.
    Downloaded(DownloadOutcome),
    /// The stored image was brought to the configured width, or that failed.
    Resized,
    /// The pause is over.
    Waited,
}

/// The mathematical value of a [`MetadataEvent`].
pub enum MetadataEventView {
    Begin,
    ImageChecked(bool),
    StoredLoaded(Option<GameDataView>),
    Searched(Result<FoundView, ScraperErrorView>),
    Downloaded(DownloadOutcomeView),
    Resized,
    Waited,
}

impl View for MetadataEvent {
    type V = MetadataEventView;

    open spec fn view(&self) -> MetadataEventView {
        match self {
            MetadataEvent::Begin => MetadataEventView::Begin,
            MetadataEvent::ImageChecked(b) => MetadataEventView::ImageChecked(*b),
            MetadataEvent::StoredLoaded(d) => MetadataEventView::StoredLoaded(opt_data_view(*d)),
            MetadataEvent::Searched(r) => MetadataEventView::Searched(
                match r {
                    Ok(m) => Ok(m@),
                    Err(e) => Err(e@),
                },
            ),
            MetadataEvent::Downloaded(o) => MetadataEventView::Downloaded(o@),
            MetadataEvent::Resized => MetadataEventView::Resized,
            MetadataEvent::Waited => MetadataEventView::Waited,
        }
    }
}

/// What the metadata track asks its caller to do next.
#[derive(Debug, Clone)]
pub enum MetadataAction {
    /// Report whether the item's image file exists.
    CheckImage,
    /// Load the record that an earlier run stored for the item.
    LoadStored,
    /// Ask the provider at `index` for the item.
    Search { index: usize },
    /// Make the image's directory and let the provider at `index` fetch
    /// `url` into the image file.
    Download { index: usize, url: String },
    /// Bring the stored image to `width`.
    Resize { width: u32 },
    /// Wait for `secs` seconds.
    Wait { secs: u64 },
    /// The track has ended. `handled` says whether the item was settled by
    /// the existing image or by a provider's answer.
    Done { handled: bool },
    /// The event did not answer what the track had asked for; nothing has
    /// changed.
    Rejected,
}

/// The mathematical value of a [`MetadataAction`].
pub enum MetadataActionView {
    CheckImage,
    LoadStored,
    Search { index: nat },
    Download { index: nat, url: Seq<char> },
    Resize { width: u32 },
    Wait { secs: nat },
    Done { handled: bool },
    Rejected,
}

impl View for MetadataAction {
    type V = MetadataActionView;

    open spec fn view(&self) -> MetadataActionView {
        match self {
            MetadataAction::CheckImage => MetadataActionView::CheckImage,
            MetadataAction::LoadStored => MetadataActionView::LoadStored,
            MetadataAction::Search { index } => MetadataActionView::Search { index: *index as nat },
            MetadataAction::Download { index, url } => MetadataActionView::Download {
                index: *index as nat,
                url: url@,
            },
            MetadataAction::Resize { width } => MetadataActionView::Resize { width: *width },
            MetadataAction::Wait { secs } => MetadataActionView::Wait { secs: *secs as nat },
            MetadataAction::Done { handled } => MetadataActionView::Done { handled: *handled },
            MetadataAction::Rejected => MetadataActionView::Rejected,
        }
    }
}

/// What the metadata track is waiting for.
#[derive(Debug, Copy, Clone, PartialEq, Eq, Structural)]
pub enum MetadataStage {
    /// Nothing was asked yet.
    Start,
    /// Whether the image exists.
    CheckingImage,
    /// The stored record.
    LoadingStored,
    /// The answer of the provider at `index`.
    Searching { index: usize },
    /// The image that the provider at `index` fetches.
    Downloading { index: usize },
    /// The resized image.
    Resizing,
    /// The end of the pause that the provider at `index` asked for.
    Waiting { index: usize },
    /// Nothing: the track has ended.
    Done { handled: bool },
}

/// The metadata track of one item.
pub struct MetadataTrack {
    providers: Vec<String>,
    rom_name: String,
    image_rel: Option<String>,
    skip_cache: bool,
    box_art_width: Option<u32>,
    stage: MetadataStage,
    all_not_found: bool,
}

/// The mathematical value of a [`MetadataTrack`].
pub struct MetadataTrackView {
    /// The names of the providers, in the order in which they are tried.
    pub providers: Seq<Seq<char>>,
    /// The item's file name.
    pub rom_name: Seq<char>,
    /// Where the item's image lies below the ROM directory, if it lies there.
    pub image_rel: Option<Seq<char>>,
    /// Whether the run ignores what earlier runs left.
    pub skip_cache: bool,
    /// The width to which a fetched image is brought, if any.
    pub box_art_width: Option<u32>,
    /// What the track is waiting for.
    pub stage: MetadataStage,
    /// Whether every provider that has answered so far said that it does not
    /// know the game.
    pub all_not_found: bool,
}

/// What one step of the metadata track leaves: the track, the item's record,
/// the backoff state, the events to publish, in order, and the next action.
pub struct MetadataOutcome {
    pub track: MetadataTrackView,
    pub data: GameDataView,
    pub backoff: Map<Seq<char>, nat>,
    pub updates: Seq<ProgressUpdateView>,
    pub action: MetadataActionView,
}

/// The events and the action that a step hands to the caller.
pub struct MetadataStep {
    pub updates: Vec<ProgressUpdate>,
    pub action: MetadataAction,
}

impl GameDataView {
    /// The record with another metadata status.
    pub open spec fn with_metadata_status(self, status: ScrapeStatus) -> GameDataView {
        GameDataView { metadata: GameMetadataView { status, ..self.metadata }, ..self }
    }

    /// The record after a provider's answer was taken over: name, developer,
    /// publisher, genre, release date and rating are the provider's.
    pub open spec fn with_found(self, found: FoundView) -> GameDataView {
        GameDataView {
            metadata: GameMetadataView {
                name: Some(found.name),
                developer: found.developer,
                publisher: found.publisher,
                genre: found.genre,
                release_date: found.release_date,
                rating: found.rating,
                ..self.metadata
            },
            ..self
        }
    }

    /// The record of an item that is skipped because its image exists: the
    /// fields that an earlier run stored come back, the status is `Skipped`,
    /// and the image path is set where the image lies below the ROM directory.
    pub open spec fn skipped_with(
        self,
        stored: Option<GameDataView>,
        image_rel: Option<Seq<char>>,
    ) -> GameDataView {
        let base = match stored {
            Some(s) => GameMetadataView {
                name: s.metadata.name,
                developer: s.metadata.developer,
                publisher: s.metadata.publisher,
                genre: s.metadata.genre,
                release_date: s.metadata.release_date,
                rating: s.metadata.rating,
                ..self.metadata
            },
            None => self.metadata,
        };
        GameDataView {
            metadata: GameMetadataView {
                status: ScrapeStatus::Skipped,
                image_path: match image_rel {
                    Some(rel) => Some(api_image_path(rel)),
                    None => base.image_path,
                },
                ..base
            },
            ..self
        }
    }

    /// The record of an item whose image was fetched.
    pub open spec fn with_image(self, image_rel: Option<Seq<char>>) -> GameDataView {
        GameDataView {
            metadata: GameMetadataView {
                status: ScrapeStatus::Success,
                image_path: match image_rel {
                    Some(rel) => Some(api_image_path(rel)),
                    None => self.metadata.image_path,
                },
                ..self.metadata
            },
            ..self
        }
    }
}

impl MetadataTrackView {
    /// The track at another stage.
    pub open spec fn at(self, stage: MetadataStage) -> MetadataTrackView {
        MetadataTrackView { stage, ..self }
    }

    /// Every provider that a stage speaks of exists.
    pub open spec fn wf(self) -> bool {
        match self.stage {
            MetadataStage::Searching { index } => index < self.providers.len(),
            MetadataStage::Downloading { index } => index < self.providers.len(),
            MetadataStage::Waiting { index } => index < self.providers.len(),
            _ => true,
        }
    }

    /// The answer to an event that the track did not ask for.
    pub open spec fn rejected(self, data: GameDataView, backoff: Map<Seq<char>, nat>) -> MetadataOutcome {
        MetadataOutcome {
            track: self,
            data,
            backoff,
            updates: Seq::empty(),
            action: MetadataActionView::Rejected,
        }
    }

    /// The end of the track with a settled item: the closing event is added.
    pub open spec fn settled(
        self,
        data: GameDataView,
        progress: ScrapingProgressView,
        backoff: Map<Seq<char>, nat>,
        updates: Seq<ProgressUpdateView>,
    ) -> MetadataOutcome {
        MetadataOutcome {
            track: self.at(MetadataStage::Done { handled: true }),
            data,
            backoff,
            updates: updates.push(event(progress, "Added metadata to gamelist"@, Some(data))),
            action: MetadataActionView::Done { handled: true },
        }
    }

    /// Turns to the provider at `index`; where there is none, the item has
    /// failed, with a closing event that says whether every provider had
    /// answered that it does not know the game.
    pub open spec fn try_provider(
        self,
        index: nat,
        data: GameDataView,
        progress: ScrapingProgressView,
        backoff: Map<Seq<char>, nat>,
        updates: Seq<ProgressUpdateView>,
    ) -> MetadataOutcome {
        if index < self.providers.len() {
            MetadataOutcome {
                track: self.at(MetadataStage::Searching { index: index as usize }),
                data,
                backoff,
                updates: updates.push(
                    event(
                        progress,
                        "Trying "@ + self.providers[index as int] + " for: "@ + self.rom_name,
                        None,
                    ),
                ),
                action: MetadataActionView::Search { index },
            }
        } else {
            let failed = data.with_metadata_status(ScrapeStatus::Failed);
            MetadataOutcome {
                track: self.at(MetadataStage::Done { handled: false }),
                data: failed,
                backoff,
                updates: updates.push(
                    event(
                        progress,
                        if self.all_not_found {
                            "Not found in any source"@
                        } else {
                            "Failed to scrape"@
                        },
                        Some(failed),
                    ),
                ),
                action: MetadataActionView::Done { handled: false },
            }
        }
    }

    /// Starts the search: without providers the track ends at once and
    /// leaves the record as it is; otherwise the item is `Searching` and the
    /// first provider is asked.
    pub open spec fn begin_search(
        self,
        data: GameDataView,
        progress: ScrapingProgressView,
        backoff: Map<Seq<char>, nat>,
    ) -> MetadataOutcome {
        if self.providers.len() == 0 {
            MetadataOutcome {
                track: self.at(MetadataStage::Done { handled: false }),
                data,
                backoff,
                updates: Seq::empty(),
                action: MetadataActionView::Done { handled: false },
            }
        } else {
            let searching = data.with_metadata_status(ScrapeStatus::Searching);
            self.try_provider(
                0,
                searching,
                progress,
                backoff,
                seq![event(progress, "Searching for: "@ + self.rom_name, Some(searching))],
            )
        }
    }

    /// The answer of the provider at `index` has come.
    pub open spec fn searched(
        self,
        index: nat,
        result: Result<FoundView, ScraperErrorView>,
        data: GameDataView,
        progress: ScrapingProgressView,
        backoff: Map<Seq<char>, nat>,
    ) -> MetadataOutcome {
        let name = self.providers[index as int];
        match result {
            Ok(found) => {
                let filled = data.with_found(found);
                let cleared = backoff.remove(name);
                let updates = seq![event(progress, name + ": Found "@ + found.name, Some(filled))];
                match found.image_url {
                    Some(url) => MetadataOutcome {
                        track: self.at(MetadataStage::Downloading { index: index as usize }),
                        data: filled,
                        backoff: cleared,
                        updates,
                        action: MetadataActionView::Download { index, url },
                    },
                    None => self.settled(
                        filled.with_metadata_status(ScrapeStatus::Failed),
                        progress,
                        cleared,
                        updates,
                    ),
                }
            },
            Err(e) => match e.class() {
                ErrorClass::NotFound => self.try_provider(
                    index + 1,
                    data,
                    progress,
                    backoff,
                    Seq::empty(),
                ),
                ErrorClass::RateLimited => {
                    let secs = wait_of(backoff, name);
                    MetadataOutcome {
                        track: MetadataTrackView {
                            stage: MetadataStage::Waiting { index: index as usize },
                            all_not_found: false,
                            ..self
                        },
                        data,
                        backoff: backoff.insert(name, next_interval(secs)),
                        updates: seq![event(progress, pause_message(secs, name), None)],
                        action: MetadataActionView::Wait { secs },
                    }
                },
                ErrorClass::Other => MetadataTrackView { all_not_found: false, ..self }.try_provider(
                    index + 1,
                    data,
                    progress,
                    backoff,
                    Seq::empty(),
                ),
            },
        }
    }

    /// The image is stored, and resized where that was asked for: the item
    /// has succeeded.
    pub open spec fn stored(
        self,
        data: GameDataView,
        progress: ScrapingProgressView,
        backoff: Map<Seq<char>, nat>,
        updates: Seq<ProgressUpdateView>,
    ) -> MetadataOutcome {
        self.settled(data.with_image(self.image_rel), progress, backoff, updates)
    }

    /// The fetch that the provider at `index` was asked for has ended.
    pub open spec fn downloaded(
        self,
        index: nat,
        outcome: DownloadOutcomeView,
        data: GameDataView,
        progress: ScrapingProgressView,
        backoff: Map<Seq<char>, nat>,
    ) -> MetadataOutcome {
        match outcome {
            DownloadOutcomeView::DirectoryFailed => self.try_provider(
                index + 1,
                data,
                progress,
                backoff,
                Seq::empty(),
            ),
            DownloadOutcomeView::Stored => {
                let updates = seq![event(progress, "Downloaded image"@, None)];
                match self.box_art_width {
                    Some(width) => MetadataOutcome {
                        track: self.at(MetadataStage::Resizing),
                        data,
                        backoff,
                        updates,
                        action: MetadataActionView::Resize { width },
                    },
                    None => self.stored(data, progress, backoff, updates),
                }
            },
            DownloadOutcomeView::Failed(e) => self.settled(
                data.with_metadata_status(ScrapeStatus::Failed),
                progress,
                backoff,
                seq![event(progress, "Failed to download image: "@ + e.message(), None)],
            ),
        }
    }

    /// One step of the track: what `event` means at the stage where the
    /// track stands. An event that the stage did not ask for is rejected.
    pub open spec fn step(
        self,
        ev: MetadataEventView,
        data: GameDataView,
        progress: ScrapingProgressView,
        backoff: Map<Seq<char>, nat>,
    ) -> MetadataOutcome {
        match (self.stage, ev) {
            (MetadataStage::Start, MetadataEventView::Begin) => {
                if !self.skip_cache && self.providers.len() > 0 {
                    MetadataOutcome {
                        track: self.at(MetadataStage::CheckingImage),
                        data,
                        backoff,
                        updates: Seq::empty(),
                        action: MetadataActionView::CheckImage,
                    }
                } else {
                    self.begin_search(data, progress, backoff)
                }
            },
            (MetadataStage::CheckingImage, MetadataEventView::ImageChecked(exists)) => {
                if exists {
                    MetadataOutcome {
                        track: self.at(MetadataStage::LoadingStored),
                        data,
                        backoff,
                        updates: Seq::empty(),
                        action: MetadataActionView::LoadStored,
                    }
                } else {
                    self.begin_search(data, progress, backoff)
                }
            },
            (MetadataStage::LoadingStored, MetadataEventView::StoredLoaded(stored)) => {
                let skipped = data.skipped_with(stored, self.image_rel);
                MetadataOutcome {
                    track: self.at(MetadataStage::Done { handled: true }),
                    data: skipped,
                    backoff,
                    updates: seq![
                        event(
                            progress,
                            "Image already exists, skipping metadata scraping"@,
                            Some(skipped),
                        ),
                    ],
                    action: MetadataActionView::Done { handled: true },
                }
            },
            (MetadataStage::Searching { index }, MetadataEventView::Searched(result)) => self.searched(
                index as nat,
                result,
                data,
                progress,
                backoff,
            ),
            (
                MetadataStage::Downloading { index },
                MetadataEventView::Downloaded(outcome),
            ) => self.downloaded(index as nat, outcome, data, progress, backoff),
            (MetadataStage::Resizing, MetadataEventView::Resized) => self.stored(
                data,
                progress,
                backoff,
                Seq::empty(),
            ),
            (MetadataStage::Waiting { index }, MetadataEventView::Waited) => self.try_provider(
                index as nat + 1,
                data,
                progress,
                backoff,
                Seq::empty(),
            ),
            _ => self.rejected(data, backoff),
        }
    }
}

impl View for MetadataTrack {
    type V = MetadataTrackView;

    closed spec fn view(&self) -> MetadataTrackView {
        MetadataTrackView {
            providers: strings_view(self.providers@),
            rom_name: self.rom_name@,
            image_rel: opt_view(self.image_rel),
            skip_cache: self.skip_cache,
            box_art_width: self.box_art_width,
            stage: self.stage,
            all_not_found: self.all_not_found,
        }
    }
}

impl MetadataTrack {
    /// The track of the item `rom_name` over `providers`, in their order.
    /// `image_rel` is the place of the item's image below the ROM directory,
    /// where it lies there.
    pub fn new(
        providers: Vec<String>,
        rom_name: String,
        image_rel: Option<String>,
        skip_cache: bool,
        box_art_width: Option<u32>,
    ) -> (r: MetadataTrack)
        ensures
            r@ == (MetadataTrackView {
                providers: strings_view(providers@),
                rom_name: rom_name@,
                image_rel: opt_view(image_rel),
                skip_cache,
                box_art_width,
                stage: MetadataStage::Start,
                all_not_found: true,
            }),
            r@.wf(),
    {
        MetadataTrack {
            providers,
            rom_name,
            image_rel,
            skip_cache,
            box_art_width,
            stage: MetadataStage::Start,
            all_not_found: true,
        }
    }

    /// What the track is waiting for.
    pub fn stage(&self) -> (r: MetadataStage)
        ensures
            r == self@.stage,
    {
        self.stage
    }

    /// Sets the image path of the record where the image lies below the ROM
    /// directory.
    fn set_image_path(&self, game_data: &mut GameData)
        ensures
            final(game_data)@ == (GameDataView {
                metadata: GameMetadataView {
                    image_path: match self@.image_rel {
                        Some(rel) => Some(api_image_path(rel)),
                        None => old(game_data)@.metadata.image_path,
                    },
                    ..old(game_data)@.metadata
                },
                ..old(game_data)@
            }),
    {
        match &self.image_rel {
            Some(rel) => {
                let mut path = String::from_str("/api/images/");
                push_text(&mut path, rel.as_str());
                game_data.metadata.image_path = Some(path);
            },
            None => {},
        }
    }

    /// Ends the track with a settled item.
    fn settle(
        &mut self,
        game_data: &GameData,
        progress: &ScrapingProgress,
        updates: Vec<ProgressUpdate>,
    ) -> (r: MetadataStep)
        ensures
            final(self)@ == old(self)@.at(MetadataStage::Done { handled: true }),
            updates_view(r.updates@) == updates_view(updates@).push(
                event(progress@, "Added metadata to gamelist"@, Some(game_data@)),
            ),
            r.action@ == (MetadataActionView::Done { handled: true }),
    {
        let mut updates = updates;
        emit(
            &mut updates,
            progress,
            String::from_str("Added metadata to gamelist"),
            Some(game_data.duplicate()),
        );
        self.stage = MetadataStage::Done { handled: true };
        MetadataStep { updates, action: MetadataAction::Done { handled: true } }
    }

    /// Turns to the provider at `index`, or ends the track where there is
    /// none.
    fn try_provider(
        &mut self,
        index: usize,
        game_data: &mut GameData,
        progress: &ScrapingProgress,
        updates: Vec<ProgressUpdate>,
    ) -> (r: MetadataStep)
        ensures
            ({
                let o = old(self)@.try_provider(
                    index as nat,
                    old(game_data)@,
                    progress@,
                    Map::empty(),
                    updates_view(updates@),
                );
                &&& final(self)@ == o.track
                &&& final(game_data)@ == o.data
                &&& updates_view(r.updates@) == o.updates
                &&& r.action@ == o.action
            }),
    {
        let mut updates = updates;
        if index < self.providers.len() {
            let mut message = String::from_str("Trying ");
            push_text(&mut message, self.providers[index].as_str());
            push_text(&mut message, " for: ");
            push_text(&mut message, self.rom_name.as_str());
            emit(&mut updates, progress, message, None);
            self.stage = MetadataStage::Searching { index };
            MetadataStep { updates, action: MetadataAction::Search { index } }
        } else {
            game_data.metadata.status = ScrapeStatus::Failed;
            let message = if self.all_not_found {
                String::from_str("Not found in any source")
            } else {
                String::from_str("Failed to scrape")
            };
            emit(&mut updates, progress, message, Some(game_data.duplicate()));
            self.stage = MetadataStage::Done { handled: false };
            MetadataStep { updates, action: MetadataAction::Done { handled: false } }
        }
    }

    /// Starts the search.
    fn begin_search(&mut self, game_data: &mut GameData, progress: &ScrapingProgress) -> (r:
        MetadataStep)
        ensures
            ({
                let o = old(self)@.begin_search(old(game_data)@, progress@, Map::empty());
                &&& final(self)@ == o.track
                &&& final(game_data)@ == o.data
                &&& updates_view(r.updates@) == o.updates
                &&& r.action@ == o.action
            }),
    {
        let mut updates: Vec<ProgressUpdate> = Vec::new();
        assert(updates_view(updates@) =~= Seq::empty());
        if self.providers.len() == 0 {
            self.stage = MetadataStage::Done { handled: false };
            MetadataStep { updates, action: MetadataAction::Done { handled: false } }
        } else {
            game_data.metadata.status = ScrapeStatus::Searching;
            let mut message = String::from_str("Searching for: ");
            push_text(&mut message, self.rom_name.as_str());
            emit(&mut updates, progress, message, Some(game_data.duplicate()));
            assert(updates_view(updates@) =~= seq![
                event(progress@, "Searching for: "@ + self@.rom_name, Some(game_data@)),
            ]);
            self.try_provider(0, game_data, progress, updates)
        }
    }

    /// Takes the answer of the provider at `index`.
    fn searched(
        &mut self,
        index: usize,
        result: Result<GameMetadata, ScraperError>,
        game_data: &mut GameData,
        progress: &ScrapingProgress,
        backoff: &mut BackoffState,
    ) -> (r: MetadataStep)
        requires
            index < old(self)@.providers.len(),
            old(backoff).wf(),
        ensures
            final(backoff).wf(),
            ({
                let o = old(self)@.searched(
                    index as nat,
                    match result {
                        Ok(m) => Ok(m@),
                        Err(e) => Err(e@),
                    },
                    old(game_data)@,
                    progress@,
                    old(backoff)@,
                );
                &&& final(self)@ == o.track
                &&& final(game_data)@ == o.data
                &&& final(backoff)@ == o.backoff
                &&& updates_view(r.updates@) == o.updates
                &&& r.action@ == o.action
            }),
    {
        let mut updates: Vec<ProgressUpdate> = Vec::new();
        assert(updates_view(updates@) =~= Seq::empty());
        let count: usize = self.providers.len();
        assert(index < count);
        match result {
            Ok(found) => {
                backoff.reset(self.providers[index].as_str());
                let mut message = self.providers[index].clone();
                push_text(&mut message, ": Found ");
                push_text(&mut message, found.name.as_str());
                game_data.metadata.name = Some(found.name);
                game_data.metadata.developer = found.developer;
                game_data.metadata.publisher = found.publisher;
                game_data.metadata.genre = found.genre;
                game_data.metadata.release_date = found.release_date;
                game_data.metadata.rating = found.rating;
                emit(&mut updates, progress, message, Some(game_data.duplicate()));
                assert(updates_view(updates@) =~= seq![
                    event(
                        progress@,
                        self@.providers[index as int] + ": Found "@ + found@.name,
                        Some(game_data@),
                    ),
                ]);
                match found.image_url {
                    Some(url) => {
                        self.stage = MetadataStage::Downloading { index };
                        MetadataStep { updates, action: MetadataAction::Download { index, url } }
                    },
                    None => {
                        game_data.metadata.status = ScrapeStatus::Failed;
                        self.settle(game_data, progress, updates)
                    },
                }
            },
            Err(e) => match e.class() {
                ErrorClass::NotFound => self.try_provider(index + 1, game_data, progress, updates),
                ErrorClass::RateLimited => {
                    let (secs, pause) = backoff.apply_backoff(
                        self.providers[index].as_str(),
                        progress,
                    );
                    updates.push(pause);
                    assert(updates_view(updates@) =~= seq![
                        event(
                            progress@,
                            pause_message(secs as nat, self@.providers[index as int]),
                            None,
                        ),
                    ]);
                    self.all_not_found = false;
                    self.stage = MetadataStage::Waiting { index };
                    MetadataStep { updates, action: MetadataAction::Wait { secs } }
                },
                ErrorClass::Other => {
                    self.all_not_found = false;
                    self.try_provider(index + 1, game_data, progress, updates)
                },
            },
        }
    }

    /// Marks the item as succeeded and ends the track.
    fn stored(
        &mut self,
        game_data: &mut GameData,
        progress: &ScrapingProgress,
        updates: Vec<ProgressUpdate>,
    ) -> (r: MetadataStep)
        ensures
            ({
                let o = old(self)@.stored(
                    old(game_data)@,
                    progress@,
                    Map::empty(),
                    updates_view(updates@),
                );
                &&& final(self)@ == o.track
                &&& final(game_data)@ == o.data
                &&& updates_view(r.updates@) == o.updates
                &&& r.action@ == o.action
            }),
    {
        game_data.metadata.status = ScrapeStatus::Success;
        self.set_image_path(game_data);
        self.settle(game_data, progress, updates)
    }

    /// Takes what came of the fetch that the provider at `index` was asked
    /// for.
    fn downloaded(
        &mut self,
        index: usize,
        outcome: DownloadOutcome,
        game_data: &mut GameData,
        progress: &ScrapingProgress,
    ) -> (r: MetadataStep)
        requires
            index < old(self)@.providers.len(),
        ensures
            ({
                let o = old(self)@.downloaded(
                    index as nat,
                    outcome@,
                    old(game_data)@,
                    progress@,
                    Map::empty(),
                );
                &&& final(self)@ == o.track
                &&& final(game_data)@ == o.data
                &&& updates_view(r.updates@) == o.updates
                &&& r.action@ == o.action
            }),
    {
        let mut updates: Vec<ProgressUpdate> = Vec::new();
        assert(updates_view(updates@) =~= Seq::empty());
        let count: usize = self.providers.len();
        assert(index < count);
        match outcome {
            DownloadOutcome::DirectoryFailed => self.try_provider(
                index + 1,
                game_data,
                progress,
                updates,
            ),
            DownloadOutcome::Stored => {
                emit(&mut updates, progress, String::from_str("Downloaded image"), None);
                assert(updates_view(updates@) =~= seq![
                    event(progress@, "Downloaded image"@, None),
                ]);
                match self.box_art_width {
                    Some(width) => {
                        self.stage = MetadataStage::Resizing;
                        MetadataStep { updates, action: MetadataAction::Resize { width } }
                    },
                    None => self.stored(game_data, progress, updates),
                }
            },
            DownloadOutcome::Failed(e) => {
                let mut message = String::from_str("Failed to download image: ");
                push_text(&mut message, e.message().as_str());
                emit(&mut updates, progress, message, None);
                assert(updates_view(updates@) =~= seq![
                    event(progress@, "Failed to download image: "@ + e@.message(), None),
                ]);
                game_data.metadata.status = ScrapeStatus::Failed;
                self.settle(game_data, progress, updates)
            },
        }
    }

    /// Takes the stored record of an item whose image exists: the item is
    /// skipped.
    fn skip_with(
        &mut self,
        stored: Option<GameData>,
        game_data: &mut GameData,
        progress: &ScrapingProgress,
    ) -> (r: MetadataStep)
        ensures
            final(self)@ == old(self)@.at(MetadataStage::Done { handled: true }),
            final(game_data)@ == old(game_data)@.skipped_with(
                opt_data_view(stored),
                old(self)@.image_rel,
            ),
            updates_view(r.updates@) == seq![
                event(
                    progress@,
                    "Image already exists, skipping metadata scraping"@,
                    Some(final(game_data)@),
                ),
            ],
            r.action@ == (MetadataActionView::Done { handled: true }),
    {
        match stored {
            Some(existing) => {
                game_data.metadata.name = existing.metadata.name;
                game_data.metadata.developer = existing.metadata.developer;
                game_data.metadata.publisher = existing.metadata.publisher;
                game_data.metadata.genre = existing.metadata.genre;
                game_data.metadata.release_date = existing.metadata.release_date;
                game_data.metadata.rating = existing.metadata.rating;
            },
            None => {},
        }
        game_data.metadata.status = ScrapeStatus::Skipped;
        self.set_image_path(game_data);
        let mut updates: Vec<ProgressUpdate> = Vec::new();
        assert(updates_view(updates@) =~= Seq::empty());
        emit(
            &mut updates,
            progress,
            String::from_str("Image already exists, skipping metadata scraping"),
            Some(game_data.duplicate()),
        );
        assert(updates_view(updates@) =~= seq![
            event(
                progress@,
                "Image already exists, skipping metadata scraping"@,
                Some(game_data@),
            ),
        ]);
        self.stage = MetadataStage::Done { handled: true };
        MetadataStep { updates, action: MetadataAction::Done { handled: true } }
    }
}

/// One step of the metadata track of an item. The caller publishes the returned events in
/// order, performs the returned action and reports what came of it with
/// the next call, until the action is `Done`.
pub fn scrape_game_metadata(
    track: &mut MetadataTrack,
    ev: MetadataEvent,
    game_data: &mut GameData,
    progress: &ScrapingProgress,
    backoff: &mut BackoffState,
) -> (r: MetadataStep)
    requires
        old(track)@.wf(),
        old(backoff).wf(),
    ensures
        final(track)@.wf(),
        final(backoff).wf(),
        ({
            let o = old(track)@.step(ev@, old(game_data)@, progress@, old(backoff)@);
            &&& final(track)@ == o.track
            &&& final(game_data)@ == o.data
            &&& final(backoff)@ == o.backoff
            &&& updates_view(r.updates@) == o.updates
            &&& r.action@ == o.action
        }),
{
    match (track.stage, ev) {
        (MetadataStage::Start, MetadataEvent::Begin) => {
            if !track.skip_cache && track.providers.len() > 0 {
                track.stage = MetadataStage::CheckingImage;
                let updates: Vec<ProgressUpdate> = Vec::new();
                assert(updates_view(updates@) =~= Seq::empty());
                MetadataStep { updates, action: MetadataAction::CheckImage }
            } else {
                track.begin_search(game_data, progress)
            }
        },
        (MetadataStage::CheckingImage, MetadataEvent::ImageChecked(exists)) => {
            if exists {
                track.stage = MetadataStage::LoadingStored;
                let updates: Vec<ProgressUpdate> = Vec::new();
                assert(updates_view(updates@) =~= Seq::empty());
                MetadataStep { updates, action: MetadataAction::LoadStored }
            } else {
                track.begin_search(game_data, progress)
            }
        },
        (MetadataStage::LoadingStored, MetadataEvent::StoredLoaded(stored)) => track.skip_with(
            stored,
            game_data,
            progress,
        ),
        (MetadataStage::Searching { index }, MetadataEvent::Searched(result)) => track.searched(
            index,
            result,
            game_data,
            progress,
            backoff,
        ),
        (MetadataStage::Downloading { index }, MetadataEvent::Downloaded(outcome)) => {
            track.downloaded(index, outcome, game_data, progress)
        },
        (MetadataStage::Resizing, MetadataEvent::Resized) => {
            let updates: Vec<ProgressUpdate> = Vec::new();
            assert(updates_view(updates@) =~= Seq::empty());
            track.stored(game_data, progress, updates)
        },
        (MetadataStage::Waiting { index }, MetadataEvent::Waited) => {
            let updates: Vec<ProgressUpdate> = Vec::new();
            assert(updates_view(updates@) =~= Seq::empty());
            let count: usize = track.providers.len();
            assert(index < count);
            track.try_provider(index + 1, game_data, progress, updates)
        },
        _ => {
            let updates: Vec<ProgressUpdate> = Vec::new();
            assert(updates_view(updates@) =~= Seq::empty());
            MetadataStep { updates, action: MetadataAction::Rejected }
        },
    }
}

/// The directory in which a file lies: what stands before the last `/` of
/// its path; the root for a file directly below it, and nothing for a path
/// without a `/`.
pub open spec fn parent_dir(path: Seq<char>) -> Seq<char> {
    let k = after_last(path, '/');
    if k == 0 {
        Seq::empty()
    } else if k == 1 {
        "/"@
    } else {
        path.take(k - 1)
    }
}

/// Where the image of a ROM lies: in the images folder beside the ROM,
/// under the ROM's name without extension, as a PNG.
pub open spec fn image_path_of(rom: RomFileView, images_folder: Seq<char>) -> Seq<char> {
    joined(joined(parent_dir(rom.path), images_folder), rom.name_no_extension + ".png"@)
}

/// Where the guides of a ROM lie: in the guides folder beside the ROM, in a
/// directory of the ROM's name without extension.
pub open spec fn guides_dir_of(rom: RomFileView, guides_folder: Seq<char>) -> Seq<char> {
    joined(joined(parent_dir(rom.path), guides_folder), rom.name_no_extension)
}

/// A path as seen from `base`: what stands behind `base` and the `/` that
/// follows it; `None` for a path that does not lie at or below `base`.
pub open spec fn relative_to(path: Seq<char>, base: Seq<char>) -> Option<Seq<char>> {
    if !path_within(path, base) {
        None
    } else if path.len() == base.len() {
        Some(Seq::empty())
    } else if path[base.len() as int] == '/' {
        Some(path.skip(base.len() as int + 1))
    } else {
        Some(path.skip(base.len() as int))
    }
}

/// The directory in which the file at `path` lies.
pub fn parent_dir_of(path: &str) -> (r: String)
    ensures
        r@ == parent_dir(path@),
{
    let chars = chars_of(path);
    let k = after_last_index(&chars, '/');
    if k == 0 {
        String::new()
    } else if k == 1 {
        String::from_str("/")
    } else {
        assert(chars@.subrange(0, k - 1) =~= path@.take(k - 1));
        string_of_range(&chars, 0, k - 1)
    }
}

/// A path as seen from `base`.
pub fn strip_base(path: &str, base: &str) -> (r: Option<String>)
    ensures
        opt_view(r) == relative_to(path@, base@),
{
    if !is_path_within(path, base) {
        return None;
    }
    let p = chars_of(path);
    let b = chars_of(base);
    if p.len() == b.len() {
        Some(String::new())
    } else if p[b.len()] == '/' {
        assert(p@.subrange(b@.len() as int + 1, p@.len() as int) =~= path@.skip(
            b@.len() as int + 1,
        ));
        Some(string_of_range(&p, b.len() + 1, p.len()))
    } else {
        assert(p@.subrange(b@.len() as int, p@.len() as int) =~= path@.skip(b@.len() as int));
        Some(string_of_range(&p, b.len(), p.len()))
    }
}

impl ScrapingConfig {
    /// Where the image of `rom` lies.
    pub fn image_path(&self, rom: &RomFile) -> (r: String)
        ensures
            r@ == image_path_of(rom@, self.images_folder@),
    {
        let dir = join_path(parent_dir_of(rom.path.as_str()).as_str(), self.images_folder.as_str());
        let mut file = rom.name_no_extension.clone();
        push_text(&mut file, ".png");
        join_path(dir.as_str(), file.as_str())
    }

    /// Where the guides of `rom` lie.
    pub fn guides_dir(&self, rom: &RomFile) -> (r: String)
        ensures
            r@ == guides_dir_of(rom@, self.guides_folder@),
    {
        let dir = join_path(parent_dir_of(rom.path.as_str()).as_str(), self.guides_folder.as_str());
        join_path(dir.as_str(), rom.name_no_extension.as_str())
    }

    /// The metadata track of `rom` over `providers` under these settings.
    pub fn metadata_track(&self, providers: &Vec<String>, rom: &RomFile) -> (r: MetadataTrack)
        ensures
            r@ == (MetadataTrackView {
                providers: strings_view(providers@),
                rom_name: rom@.name,
                image_rel: relative_to(
                    image_path_of(rom@, self.images_folder@),
                    self.roms_path@,
                ),
                skip_cache: self.skip_cache,
                box_art_width: self.box_art_width,
                stage: MetadataStage::Start,
                all_not_found: true,
            }),
            r@.wf(),
    {
        let image_rel = strip_base(self.image_path(rom).as_str(), self.roms_path.as_str());
        MetadataTrack::new(
            clone_strings(providers),
            rom.name.clone(),
            image_rel,
            self.skip_cache,
            self.box_art_width,
        )
    }
}

/// The first answer settles the item: once a provider has found the game, no
/// further provider is asked. The track goes on to fetch the image that the
/// answer names, or ends; the provider's backoff is forgotten.
pub proof fn lemma_first_answer_wins(
    track: MetadataTrackView,
    index: nat,
    found: FoundView,
    data: GameDataView,
    progress: ScrapingProgressView,
    backoff: Map<Seq<char>, nat>,
)
    requires
        index < track.providers.len(),
        index <= usize::MAX,
        track.stage == (MetadataStage::Searching { index: index as usize }),
    ensures
        ({
            let o = track.step(MetadataEventView::Searched(Ok(found)), data, progress, backoff);
            &&& !(o.action is Search)
            &&& found.image_url is Some ==> o.action == (MetadataActionView::Download {
                index,
                url: found.image_url->0,
            })
            &&& found.image_url is None ==> o.action == (MetadataActionView::Done { handled: true })
                && o.data.metadata.status == ScrapeStatus::Failed
            &&& o.data.metadata.name == Some(found.name)
            &&& wait_of(o.backoff, track.providers[index as int]) == 1
        }),
{
}

/// A fetch ends the item: a stored image makes it a success, a failed
/// download a failure that keeps the metadata, and in both cases no further
/// provider is asked. Only where the image's directory could not be made
/// does the track turn to the next provider.
pub proof fn lemma_download_settles(
    track: MetadataTrackView,
    index: nat,
    outcome: DownloadOutcomeView,
    data: GameDataView,
    progress: ScrapingProgressView,
    backoff: Map<Seq<char>, nat>,
)
    requires
        index < track.providers.len(),
        index <= usize::MAX,
        track.stage == (MetadataStage::Downloading { index: index as usize }),
    ensures
        ({
            let o = track.step(MetadataEventView::Downloaded(outcome), data, progress, backoff);
            &&& outcome is Stored && track.box_art_width is None ==> o.action == (
            MetadataActionView::Done { handled: true }) && o.data.metadata.status
                == ScrapeStatus::Success
            &&& outcome is Stored && track.box_art_width is Some ==> o.action == (
            MetadataActionView::Resize { width: track.box_art_width->0 }) && track.at(
                MetadataStage::Resizing,
            ).step(MetadataEventView::Resized, o.data, progress, backoff).data.metadata.status
                == ScrapeStatus::Success
            &&& outcome is Failed ==> o.action == (MetadataActionView::Done { handled: true })
                && o.data == data.with_metadata_status(ScrapeStatus::Failed)
            &&& outcome is DirectoryFailed ==> o == track.try_provider(
                index + 1,
                data,
                progress,
                backoff,
                Seq::empty(),
            )
        }),
{
}

/// An item whose image exists is skipped without a word to any provider: of
/// the two steps from the check of the image to the end of the track neither
/// asks for a search, the record ends as `Skipped`, and the fields that an
/// earlier run stored stand in it unchanged.
pub proof fn lemma_existing_image_skips(
    track: MetadataTrackView,
    stored: Option<GameDataView>,
    data: GameDataView,
    progress: ScrapingProgressView,
    backoff: Map<Seq<char>, nat>,
)
    requires
        track.stage == MetadataStage::CheckingImage,
    ensures
        ({
            let first = track.step(MetadataEventView::ImageChecked(true), data, progress, backoff);
            let second = first.track.step(
                MetadataEventView::StoredLoaded(stored),
                first.data,
                progress,
                first.backoff,
            );
            &&& first.action == MetadataActionView::LoadStored
            &&& first.data == data
            &&& second.action == (MetadataActionView::Done { handled: true })
            &&& second.backoff == backoff
            &&& second.data.metadata.status == ScrapeStatus::Skipped
            &&& stored is Some ==> {
                &&& second.data.metadata.name == stored->0.metadata.name
                &&& second.data.metadata.developer == stored->0.metadata.developer
                &&& second.data.metadata.publisher == stored->0.metadata.publisher
                &&& second.data.metadata.genre == stored->0.metadata.genre
                &&& second.data.metadata.release_date == stored->0.metadata.release_date
                &&& second.data.metadata.rating == stored->0.metadata.rating
            }
        }),
{
}

/// The image is only looked for where the run may use what earlier runs left
/// and a provider is configured.
pub proof fn lemma_forced_refresh_searches(
    track: MetadataTrackView,
    data: GameDataView,
    progress: ScrapingProgressView,
    backoff: Map<Seq<char>, nat>,
)
    requires
        track.stage == MetadataStage::Start,
    ensures
        ({
            let o = track.step(MetadataEventView::Begin, data, progress, backoff);
            &&& o.action is CheckImage <==> (!track.skip_cache && track.providers.len() > 0)
            &&& track.providers.len() == 0 ==> o.action == (MetadataActionView::Done {
                handled: false,
            }) && o.data == data
            &&& track.skip_cache && track.providers.len() > 0 ==> o.action == (
            MetadataActionView::Search { index: 0 }) && o.data.metadata.status
                == ScrapeStatus::Searching
        }),
{
}

/// A rate limit is no evidence of absence: the provider's pause is taken at
/// once, the item is no longer "not found by all", the record is untouched,
/// and after the pause the next provider is asked.
pub proof fn lemma_rate_limit_pauses(
    track: MetadataTrackView,
    index: nat,
    data: GameDataView,
    progress: ScrapingProgressView,
    backoff: Map<Seq<char>, nat>,
)
    requires
        index < track.providers.len(),
        index <= usize::MAX,
        track.stage == (MetadataStage::Searching { index: index as usize }),
    ensures
        ({
            let name = track.providers[index as int];
            let o = track.step(
                MetadataEventView::Searched(Err(ScraperErrorView::RateLimitExceeded)),
                data,
                progress,
                backoff,
            );
            let resumed = o.track.step(MetadataEventView::Waited, o.data, progress, o.backoff);
            &&& o.action == (MetadataActionView::Wait { secs: wait_of(backoff, name) })
            &&& o.backoff == backoff.insert(name, next_interval(wait_of(backoff, name)))
            &&& !o.track.all_not_found
            &&& o.data == data
            &&& resumed == o.track.try_provider(index + 1, data, progress, o.backoff, Seq::empty())
        }),
{
}

/// Providers are asked in their configured order: a step that asks for a
/// search asks the first provider when none was asked yet, and else the one
/// behind the provider that was asked last.
pub proof fn lemma_providers_in_order(
    track: MetadataTrackView,
    ev: MetadataEventView,
    data: GameDataView,
    progress: ScrapingProgressView,
    backoff: Map<Seq<char>, nat>,
)
    requires
        track.wf(),
    ensures
        ({
            let o = track.step(ev, data, progress, backoff);
            o.action is Search ==> o.action->Search_index < track.providers.len() && (
            match track.stage {
                MetadataStage::Start => o.action->Search_index == 0,
                MetadataStage::CheckingImage => o.action->Search_index == 0,
                MetadataStage::Searching { index } => o.action->Search_index == index + 1,
                MetadataStage::Downloading { index } => o.action->Search_index == index + 1,
                MetadataStage::Waiting { index } => o.action->Search_index == index + 1,
                _ => false,
            })
        }),
{
}

/// Where a provider is configured, the track ends with the item in one of
/// the three final statuses.
pub proof fn lemma_track_ends_settled(
    track: MetadataTrackView,
    ev: MetadataEventView,
    data: GameDataView,
    progress: ScrapingProgressView,
    backoff: Map<Seq<char>, nat>,
)
    requires
        track.providers.len() > 0,
    ensures
        ({
            let o = track.step(ev, data, progress, backoff);
            o.action is Done ==> o.data.metadata.status == ScrapeStatus::Skipped
                || o.data.metadata.status == ScrapeStatus::Success || o.data.metadata.status
                == ScrapeStatus::Failed
        }),
{
}

/// A step keeps the track well formed.
pub proof fn lemma_step_keeps_wf(
    track: MetadataTrackView,
    ev: MetadataEventView,
    data: GameDataView,
    progress: ScrapingProgressView,
    backoff: Map<Seq<char>, nat>,
)
    requires
        track.wf(),
        track.providers.len() <= usize::MAX,
    ensures
        track.step(ev, data, progress, backoff).track.wf(),
{
}

/// Running again changes nothing but the status: the record that a
/// successful run leaves comes back from the next run with every field as it
/// was and the status `Skipped`, and from the run after that exactly as from
/// the one before.
pub proof fn lemma_rerun_keeps_record(
    rom_name: Seq<char>,
    found: FoundView,
    image_rel: Option<Seq<char>>,
)
    ensures
        ({
            let fresh = GameDataView::pending(rom_name);
            let first = fresh.with_found(found).with_image(image_rel);
            let second = fresh.skipped_with(Some(first), image_rel);
            let third = fresh.skipped_with(Some(second), image_rel);
            &&& second == first.with_metadata_status(ScrapeStatus::Skipped)
            &&& third == second
        }),
{
}

/// A track that has ended asks for nothing more: every further event is
/// rejected and changes nothing.
pub proof fn lemma_ended_track_is_final(
    track: MetadataTrackView,
    ev: MetadataEventView,
    data: GameDataView,
    progress: ScrapingProgressView,
    backoff: Map<Seq<char>, nat>,
)
    requires
        track.stage is Done,
    ensures
        track.step(ev, data, progress, backoff) == track.rejected(data, backoff),
{
}

} // verus!
