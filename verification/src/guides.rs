//! The guides track of one item, as a state machine of the same shape as the
//! metadata track: the caller performs what the track asks for and reports
//! what came of it.

use vstd::prelude::*;
use crate::backoff::{next_interval, pause_message, wait_of, BackoffState};
use crate::progress::{
    emit, event, opt_data_view, updates_view, GameData, GameDataView, GameGuides, ProgressUpdate,
    ProgressUpdateView, ScrapeStatus, ScrapingProgress, ScrapingProgressView,
};
use crate::scraper::{ErrorClass, ScraperError, ScraperErrorView};
use crate::scanner::RomFile;
use crate::scraping::ScrapingConfig;
use crate::text::{
    after_last, after_last_index, chars_of, clone_strings, decimal, decimal_of_usize, push_text,
    string_of_range, strings_view,
};

verus! {

/// The last component of a path whose components are parted by `/`: what
/// stands behind the last `/`, or the whole path where it holds none.
pub open spec fn guide_file_name(path: Seq<char>) -> Seq<char> {
    path.subrange(after_last(path, '/'), path.len() as int)
}

/// The file name under which a guide is stored: the last component of the
/// path under which the provider lists it.
pub fn guide_file_name_of(guide_path: &str) -> (r: String)
    ensures
        r@ == guide_file_name(guide_path@),
{
    let chars = chars_of(guide_path);
    let start = after_last_index(&chars, '/');
    string_of_range(&chars, start, chars.len())
}

/// What the caller reports to the guides track.
#[derive(Debug)]
pub enum GuidesEvent {
    /// The track is to start.
    Begin,
    /// How many entries the item's guides directory holds; zero where it
    /// does not exist or cannot be read.
    GuidesCounted(usize),
    /// The record that was stored for the item by an earlier run, if any.
    StoredLoaded(Option<GameData>),
    /// The answer of the provider that was asked: the paths of its guides.
    Searched(Result<Vec<String>, ScraperError>),
    /// The guides directory exists now, or the text of the failure.
    DirectoryPrepared(Result<(), String>),
    /// What came of fetching one guide.
    GuideDownloaded(Result<(), ScraperError>),
    /// The pause is over.
    Waited,
}

/// The mathematical value of a [`GuidesEvent`].
pub enum GuidesEventView {
    Begin,
    GuidesCounted(nat),
    StoredLoaded(Option<GameDataView>),
    Searched(Result<Seq<Seq<char>>, ScraperErrorView>),
    DirectoryPrepared(Result<(), Seq<char>>),
    GuideDownloaded(Result<(), ScraperErrorView>),
    Waited,
}

impl View for GuidesEvent {
    type V = GuidesEventView;

    open spec fn view(&self) -> GuidesEventView {
        match self {
            GuidesEvent::Begin => GuidesEventView::Begin,
            GuidesEvent::GuidesCounted(n) => GuidesEventView::GuidesCounted(*n as nat),
            GuidesEvent::StoredLoaded(d) => GuidesEventView::StoredLoaded(opt_data_view(*d)),
            GuidesEvent::Searched(r) => GuidesEventView::Searched(
                match r {
                    Ok(paths) => Ok(strings_view(paths@)),
                    Err(e) => Err(e@),
                },
            ),
            GuidesEvent::DirectoryPrepared(r) => GuidesEventView::DirectoryPrepared(
                match r {
                    Ok(_) => Ok(()),
                    Err(text) => Err(text@),
                },
            ),
            GuidesEvent::GuideDownloaded(r) => GuidesEventView::GuideDownloaded(
                match r {
                    Ok(_) => Ok(()),
                    Err(e) => Err(e@),
                },
            ),
            GuidesEvent::Waited => GuidesEventView::Waited,
        }
    }
}

/// What the guides track asks its caller to do next.
#[derive(Debug, Clone)]
pub enum GuidesAction {
    /// Count the entries of the item's guides directory.
    CountGuides,
    /// Load the record that an earlier run stored for the item.
    LoadStored,
    /// Ask the provider at `index` for the item's guides.
    Search { index: usize },
    /// Make the item's guides directory.
    PrepareDirectory,
    /// Let the provider at `index` fetch the guide at `guide_path` into the
    /// file `file_name` of the guides directory.
    DownloadGuide { index: usize, guide_path: String, file_name: String },
    /// Wait for `secs` seconds.
    Wait { secs: u64 },
    /// The track has ended.
    Done,
    /// The event did not answer what the track had asked for; nothing has
    /// changed.
    Rejected,
}

/// The mathematical value of a [`GuidesAction`].
pub enum GuidesActionView {
    CountGuides,
    LoadStored,
    Search { index: nat },
    PrepareDirectory,
    DownloadGuide { index: nat, guide_path: Seq<char>, file_name: Seq<char> },
    Wait { secs: nat },
    Done,
    Rejected,
}

impl View for GuidesAction {
    type V = GuidesActionView;

    open spec fn view(&self) -> GuidesActionView {
        match self {
            GuidesAction::CountGuides => GuidesActionView::CountGuides,
            GuidesAction::LoadStored => GuidesActionView::LoadStored,
            GuidesAction::Search { index } => GuidesActionView::Search { index: *index as nat },
            GuidesAction::PrepareDirectory => GuidesActionView::PrepareDirectory,
            GuidesAction::DownloadGuide { index, guide_path, file_name } => {
                GuidesActionView::DownloadGuide {
                    index: *index as nat,
                    guide_path: guide_path@,
                    file_name: file_name@,
                }
            },
            GuidesAction::Wait { secs } => GuidesActionView::Wait { secs: *secs as nat },
            GuidesAction::Done => GuidesActionView::Done,
            GuidesAction::Rejected => GuidesActionView::Rejected,
        }
    }
}

/// What the guides track is waiting for.
#[derive(Debug, Copy, Clone, PartialEq, Eq, Structural)]
pub enum GuidesStage {
    /// Nothing was asked yet.
    Start,
    /// The number of guides on disk.
    Counting,
    /// The stored record; `count` guides lie on disk.
    LoadingStored { count: usize },
    /// The answer of the provider at `index`.
    Searching { index: usize },
    /// The end of the pause that the provider at `index` asked for.
    Waiting { index: usize },
    /// The guides directory, for the guides of the provider at `index`.
    PreparingDirectory { index: usize },
    /// The guide at place `next` of the list of the provider at `index`.
    Downloading { index: usize, next: usize },
    /// Nothing: the track has ended.
    Done,
}

/// The guides track of one item.
pub struct GuidesTrack {
    providers: Vec<String>,
    rom_name: String,
    skip_cache: bool,
    stage: GuidesStage,
    guide_paths: Vec<String>,
    pending_error: String,
}

/// The mathematical value of a [`GuidesTrack`].
pub struct GuidesTrackView {
    /// The names of the providers, in the order in which they are tried.
    pub providers: Seq<Seq<char>>,
    /// The item's file name.
    pub rom_name: Seq<char>,
    /// Whether the run ignores what earlier runs left.
    pub skip_cache: bool,
    /// What the track is waiting for.
    pub stage: GuidesStage,
    /// The guides that the provider in use has listed.
    pub guide_paths: Seq<Seq<char>>,
    /// The text of the error that is reported once the pause is over.
    pub pending_error: Seq<char>,
}

/// What one step of the guides track leaves: the track, the item's record,
/// the backoff state, the events to publish, in order, and the next action.
pub struct GuidesOutcome {
    pub track: GuidesTrackView,
    pub data: GameDataView,
    pub backoff: Map<Seq<char>, nat>,
    pub updates: Seq<ProgressUpdateView>,
    pub action: GuidesActionView,
}

/// The events and the action that a step hands to the caller.
pub struct GuidesStep {
    pub updates: Vec<ProgressUpdate>,
    pub action: GuidesAction,
}

impl GameDataView {
    /// The record with another guides status.
    pub open spec fn with_guides_status(self, status: ScrapeStatus) -> GameDataView {
        GameDataView { guides: GameGuides { status, ..self.guides }, ..self }
    }

    /// The record of an item whose guides lie on disk: the stored count comes
    /// back where there is one, else the number of entries found on disk
    /// stands, and the status is `Skipped`.
    pub open spec fn with_guides_skipped(self, stored: Option<GameDataView>, count: nat) -> GameDataView {
        GameDataView {
            guides: GameGuides {
                status: ScrapeStatus::Skipped,
                count: match stored {
                    Some(s) => if s.guides.count is Some {
                        s.guides.count
                    } else {
                        Some(count as usize)
                    },
                    None => Some(count as usize),
                },
            },
            ..self
        }
    }
}

impl GuidesTrackView {
    /// The track at another stage.
    pub open spec fn at(self, stage: GuidesStage) -> GuidesTrackView {
        GuidesTrackView { stage, ..self }
    }

    /// Every provider and every guide that a stage speaks of exists.
    pub open spec fn wf(self) -> bool {
        match self.stage {
            GuidesStage::Searching { index } => index < self.providers.len(),
            GuidesStage::Waiting { index } => index < self.providers.len(),
            GuidesStage::PreparingDirectory { index } => index < self.providers.len(),
            GuidesStage::Downloading { index, next } => index < self.providers.len() && next
                < self.guide_paths.len(),
            _ => true,
        }
    }

    /// The answer to an event that the track did not ask for.
    pub open spec fn rejected(self, data: GameDataView, backoff: Map<Seq<char>, nat>) -> GuidesOutcome {
        GuidesOutcome {
            track: self,
            data,
            backoff,
            updates: Seq::empty(),
            action: GuidesActionView::Rejected,
        }
    }

    /// The end of the track.
    pub open spec fn done(
        self,
        data: GameDataView,
        backoff: Map<Seq<char>, nat>,
        updates: Seq<ProgressUpdateView>,
    ) -> GuidesOutcome {
        GuidesOutcome {
            track: self.at(GuidesStage::Done),
            data,
            backoff,
            updates,
            action: GuidesActionView::Done,
        }
    }

    /// Turns to the provider at `index`; where there is none, the track ends
    /// and the record stays as the last provider left it.
    pub open spec fn try_provider(
        self,
        index: nat,
        data: GameDataView,
        backoff: Map<Seq<char>, nat>,
        updates: Seq<ProgressUpdateView>,
    ) -> GuidesOutcome {
        if index < self.providers.len() {
            GuidesOutcome {
                track: self.at(GuidesStage::Searching { index: index as usize }),
                data,
                backoff,
                updates,
                action: GuidesActionView::Search { index },
            }
        } else {
            self.done(data, backoff, updates)
        }
    }

    /// Starts the search: the item is `Searching` and the first provider is
    /// asked.
    pub open spec fn begin_search(
        self,
        data: GameDataView,
        progress: ScrapingProgressView,
        backoff: Map<Seq<char>, nat>,
    ) -> GuidesOutcome {
        let searching = data.with_guides_status(ScrapeStatus::Searching);
        self.try_provider(
            0,
            searching,
            backoff,
            seq![event(progress, "Searching for guides for: "@ + self.rom_name, Some(searching))],
        )
    }

    /// The provider at `index` has failed with an error whose text is
    /// `message`: the item is `Failed` for now, and the next provider is
    /// asked.
    pub open spec fn search_failed(
        self,
        index: nat,
        message: Seq<char>,
        data: GameDataView,
        progress: ScrapingProgressView,
        backoff: Map<Seq<char>, nat>,
        updates: Seq<ProgressUpdateView>,
    ) -> GuidesOutcome {
        let failed = data.with_guides_status(ScrapeStatus::Failed);
        self.try_provider(
            index + 1,
            failed,
            backoff,
            updates.push(event(progress, "Guide search error: "@ + message, Some(failed))),
        )
    }

    /// The answer of the provider at `index` has come.
    pub open spec fn searched(
        self,
        index: nat,
        result: Result<Seq<Seq<char>>, ScraperErrorView>,
        data: GameDataView,
        progress: ScrapingProgressView,
        backoff: Map<Seq<char>, nat>,
    ) -> GuidesOutcome {
        let name = self.providers[index as int];
        match result {
            Ok(paths) => if paths.len() > 0 {
                GuidesOutcome {
                    track: GuidesTrackView {
                        stage: GuidesStage::PreparingDirectory { index: index as usize },
                        guide_paths: paths,
                        ..self
                    },
                    data: data.with_guides_status(ScrapeStatus::Success),
                    backoff: backoff.remove(name),
                    updates: Seq::empty(),
                    action: GuidesActionView::PrepareDirectory,
                }
            } else {
                let failed = data.with_guides_status(ScrapeStatus::Failed);
                self.try_provider(
                    index + 1,
                    failed,
                    backoff,
                    seq![event(progress, "No guides found"@, Some(failed))],
                )
            },
            Err(e) => if e.class() == ErrorClass::RateLimited {
                let secs = wait_of(backoff, name);
                GuidesOutcome {
                    track: GuidesTrackView {
                        stage: GuidesStage::Waiting { index: index as usize },
                        pending_error: e.message(),
                        ..self
                    },
                    data,
                    backoff: backoff.insert(name, next_interval(secs)),
                    updates: seq![event(progress, pause_message(secs, name), None)],
                    action: GuidesActionView::Wait { secs },
                }
            } else {
                self.search_failed(index, e.message(), data, progress, backoff, Seq::empty())
            },
        }
    }

    /// Turns to the guide at place `next` of the list of the provider at
    /// `index`; where there is none, the track ends with the event that
    /// counts the guides that the provider listed.
    pub open spec fn download_next(
        self,
        index: nat,
        next: nat,
        data: GameDataView,
        progress: ScrapingProgressView,
        backoff: Map<Seq<char>, nat>,
        updates: Seq<ProgressUpdateView>,
    ) -> GuidesOutcome {
        if next < self.guide_paths.len() {
            GuidesOutcome {
                track: self.at(GuidesStage::Downloading { index: index as usize, next: next as usize }),
                data,
                backoff,
                updates,
                action: GuidesActionView::DownloadGuide {
                    index,
                    guide_path: self.guide_paths[next as int],
                    file_name: guide_file_name(self.guide_paths[next as int]),
                },
            }
        } else {
            self.done(
                data,
                backoff,
                updates.push(
                    event(
                        progress,
                        "Found "@ + decimal(self.guide_paths.len()) + " guide(s)"@,
                        Some(data),
                    ),
                ),
            )
        }
    }

    /// One step of the track: what `ev` means at the stage where the track
    /// stands. An event that the stage did not ask for is rejected.
    pub open spec fn step(
        self,
        ev: GuidesEventView,
        data: GameDataView,
        progress: ScrapingProgressView,
        backoff: Map<Seq<char>, nat>,
    ) -> GuidesOutcome {
        match (self.stage, ev) {
            (GuidesStage::Start, GuidesEventView::Begin) => {
                if !self.skip_cache {
                    GuidesOutcome {
                        track: self.at(GuidesStage::Counting),
                        data,
                        backoff,
                        updates: Seq::empty(),
                        action: GuidesActionView::CountGuides,
                    }
                } else {
                    self.begin_search(data, progress, backoff)
                }
            },
            (GuidesStage::Counting, GuidesEventView::GuidesCounted(count)) => {
                if count > 0 {
                    GuidesOutcome {
                        track: self.at(GuidesStage::LoadingStored { count: count as usize }),
                        data,
                        backoff,
                        updates: Seq::empty(),
                        action: GuidesActionView::LoadStored,
                    }
                } else {
                    self.begin_search(data, progress, backoff)
                }
            },
            (GuidesStage::LoadingStored { count }, GuidesEventView::StoredLoaded(stored)) => {
                let skipped = data.with_guides_skipped(stored, count as nat);
                self.done(
                    skipped,
                    backoff,
                    seq![event(progress, "Guides already exist, skipping"@, Some(skipped))],
                )
            },
            (GuidesStage::Searching { index }, GuidesEventView::Searched(result)) => self.searched(
                index as nat,
                result,
                data,
                progress,
                backoff,
            ),
            (GuidesStage::Waiting { index }, GuidesEventView::Waited) => self.search_failed(
                index as nat,
                self.pending_error,
                data,
                progress,
                backoff,
                Seq::empty(),
            ),
            (
                GuidesStage::PreparingDirectory { index },
                GuidesEventView::DirectoryPrepared(result),
            ) => match result {
                Ok(_) => self.download_next(index as nat, 0, data, progress, backoff, Seq::empty()),
                Err(text) => self.done(
                    data,
                    backoff,
                    seq![
                        event(
                            progress,
                            "Warning: Failed to create guides directory: "@ + text,
                            None,
                        ),
                    ],
                ),
            },
            (
                GuidesStage::Downloading { index, next },
                GuidesEventView::GuideDownloaded(result),
            ) => self.download_next(
                index as nat,
                next as nat + 1,
                data,
                progress,
                backoff,
                match result {
                    Ok(_) => Seq::empty(),
                    Err(e) => seq![event(progress, "Failed to download guide: "@ + e.message(), None)],
                },
            ),
            _ => self.rejected(data, backoff),
        }
    }
}

impl View for GuidesTrack {
    type V = GuidesTrackView;

    closed spec fn view(&self) -> GuidesTrackView {
        GuidesTrackView {
            providers: strings_view(self.providers@),
            rom_name: self.rom_name@,
            skip_cache: self.skip_cache,
            stage: self.stage,
            guide_paths: strings_view(self.guide_paths@),
            pending_error: self.pending_error@,
        }
    }
}

impl GuidesTrack {
    /// The track of the item `rom_name` over `providers`, in their order.
    pub fn new(providers: Vec<String>, rom_name: String, skip_cache: bool) -> (r: GuidesTrack)
        ensures
            r@ == (GuidesTrackView {
                providers: strings_view(providers@),
                rom_name: rom_name@,
                skip_cache,
                stage: GuidesStage::Start,
                guide_paths: Seq::empty(),
                pending_error: Seq::empty(),
            }),
            r@.wf(),
    {
        let r = GuidesTrack {
            providers,
            rom_name,
            skip_cache,
            stage: GuidesStage::Start,
            guide_paths: Vec::new(),
            pending_error: String::new(),
        };
        assert(strings_view(r.guide_paths@) =~= Seq::empty());
        r
    }

    /// The track of `rom` over `providers` under the settings `config`.
    pub fn for_rom(providers: &Vec<String>, rom: &RomFile, config: &ScrapingConfig) -> (r:
        GuidesTrack)
        ensures
            r@ == (GuidesTrackView {
                providers: strings_view(providers@),
                rom_name: rom@.name,
                skip_cache: config.skip_cache,
                stage: GuidesStage::Start,
                guide_paths: Seq::empty(),
                pending_error: Seq::empty(),
            }),
            r@.wf(),
    {
        GuidesTrack::new(clone_strings(providers), rom.name.clone(), config.skip_cache)
    }

    /// What the track is waiting for.
    pub fn stage(&self) -> (r: GuidesStage)
        ensures
            r == self@.stage,
    {
        self.stage
    }

    /// Turns to the provider at `index`, or ends the track where there is
    /// none.
    fn try_provider(&mut self, index: usize, updates: Vec<ProgressUpdate>) -> (r: GuidesStep)
        ensures
            ({
                let o = old(self)@.try_provider(
                    index as nat,
                    GameDataView::pending(Seq::empty()),
                    Map::empty(),
                    updates_view(updates@),
                );
                &&& final(self)@ == o.track
                &&& updates_view(r.updates@) == o.updates
                &&& r.action@ == o.action
            }),
    {
        if index < self.providers.len() {
            self.stage = GuidesStage::Searching { index };
            GuidesStep { updates, action: GuidesAction::Search { index } }
        } else {
            self.stage = GuidesStage::Done;
            GuidesStep { updates, action: GuidesAction::Done }
        }
    }

    /// Starts the search.
    fn begin_search(&mut self, game_data: &mut GameData, progress: &ScrapingProgress) -> (r:
        GuidesStep)
        ensures
            ({
                let o = old(self)@.begin_search(old(game_data)@, progress@, Map::empty());
                &&& final(self)@ == o.track
                &&& final(game_data)@ == o.data
                &&& updates_view(r.updates@) == o.updates
                &&& r.action@ == o.action
            }),
    {
        let mut updates: Vec<ProgressUpdate> = Vec::new();
        assert(updates_view(updates@) =~= Seq::empty());
        game_data.guides.status = ScrapeStatus::Searching;
        let mut message = String::from_str("Searching for guides for: ");
        push_text(&mut message, self.rom_name.as_str());
        emit(&mut updates, progress, message, Some(game_data.duplicate()));
        assert(updates_view(updates@) =~= seq![
            event(progress@, "Searching for guides for: "@ + self@.rom_name, Some(game_data@)),
        ]);
        self.try_provider(0, updates)
    }

    /// Records that the provider at `index` has failed, and turns to the
    /// next one.
    fn search_failed(
        &mut self,
        index: usize,
        message: &str,
        game_data: &mut GameData,
        progress: &ScrapingProgress,
    ) -> (r: GuidesStep)
        requires
            index < old(self)@.providers.len(),
        ensures
            ({
                let o = old(self)@.search_failed(
                    index as nat,
                    message@,
                    old(game_data)@,
                    progress@,
                    Map::empty(),
                    Seq::empty(),
                );
                &&& final(self)@ == o.track
                &&& final(game_data)@ == o.data
                &&& updates_view(r.updates@) == o.updates
                &&& r.action@ == o.action
            }),
    {
        let mut updates: Vec<ProgressUpdate> = Vec::new();
        assert(updates_view(updates@) =~= Seq::empty());
        let count: usize = self.providers.len();
        assert(index < count);
        game_data.guides.status = ScrapeStatus::Failed;
        let mut text = String::from_str("Guide search error: ");
        push_text(&mut text, message);
        emit(&mut updates, progress, text, Some(game_data.duplicate()));
        self.try_provider(index + 1, updates)
    }

    /// Takes the answer of the provider at `index`.
    fn searched(
        &mut self,
        index: usize,
        result: Result<Vec<String>, ScraperError>,
        game_data: &mut GameData,
        progress: &ScrapingProgress,
        backoff: &mut BackoffState,
    ) -> (r: GuidesStep)
        requires
            index < old(self)@.providers.len(),
            old(backoff).wf(),
        ensures
            final(backoff).wf(),
            ({
                let o = old(self)@.searched(
                    index as nat,
                    match result {
                        Ok(paths) => Ok(strings_view(paths@)),
                        Err(e) => Err(e@),
                    },
                    old(game_data)@,
                    progress@,
                    old(backoff)@,
                );
                &&& final(self)@ == o.track
                &&& final(game_data)@ == o.data
                &&& final(backoff)@ == o.backoff
                &&& updates_view(r.updates@) == o.updates
                &&& r.action@ == o.action
            }),
    {
        let mut updates: Vec<ProgressUpdate> = Vec::new();
        assert(updates_view(updates@) =~= Seq::empty());
        let count: usize = self.providers.len();
        assert(index < count);
        match result {
            Ok(paths) => {
                if paths.len() > 0 {
                    backoff.reset(self.providers[index].as_str());
                    game_data.guides.status = ScrapeStatus::Success;
                    self.guide_paths = paths;
                    self.stage = GuidesStage::PreparingDirectory { index };
                    GuidesStep { updates, action: GuidesAction::PrepareDirectory }
                } else {
                    game_data.guides.status = ScrapeStatus::Failed;
                    emit(
                        &mut updates,
                        progress,
                        String::from_str("No guides found"),
                        Some(game_data.duplicate()),
                    );
                    assert(updates_view(updates@) =~= seq![
                        event(progress@, "No guides found"@, Some(game_data@)),
                    ]);
                    self.try_provider(index + 1, updates)
                }
            },
            Err(e) => {
                let message = e.message();
                match e.class() {
                    ErrorClass::RateLimited => {
                        let (secs, pause) = backoff.apply_backoff(
                            self.providers[index].as_str(),
                            progress,
                        );
                        updates.push(pause);
                        assert(updates_view(updates@) =~= seq![
                            event(
                                progress@,
                                pause_message(secs as nat, self@.providers[index as int]),
                                None,
                            ),
                        ]);
                        self.pending_error = message;
                        self.stage = GuidesStage::Waiting { index };
                        GuidesStep { updates, action: GuidesAction::Wait { secs } }
                    },
                    _ => self.search_failed(index, message.as_str(), game_data, progress),
                }
            },
        }
    }

    /// Turns to the guide at place `next`, or ends the track where there is
    /// none.
    fn download_next(
        &mut self,
        index: usize,
        next: usize,
        game_data: &GameData,
        progress: &ScrapingProgress,
        updates: Vec<ProgressUpdate>,
    ) -> (r: GuidesStep)
        ensures
            ({
                let o = old(self)@.download_next(
                    index as nat,
                    next as nat,
                    game_data@,
                    progress@,
                    Map::empty(),
                    updates_view(updates@),
                );
                &&& final(self)@ == o.track
                &&& updates_view(r.updates@) == o.updates
                &&& r.action@ == o.action
            }),
    {
        let mut updates = updates;
        if next < self.guide_paths.len() {
            let guide_path = self.guide_paths[next].clone();
            let file_name = guide_file_name_of(guide_path.as_str());
            self.stage = GuidesStage::Downloading { index, next };
            GuidesStep { updates, action: GuidesAction::DownloadGuide { index, guide_path, file_name } }
        } else {
            let mut message = String::from_str("Found ");
            push_text(&mut message, decimal_of_usize(self.guide_paths.len()).as_str());
            push_text(&mut message, " guide(s)");
            emit(&mut updates, progress, message, Some(game_data.duplicate()));
            self.stage = GuidesStage::Done;
            GuidesStep { updates, action: GuidesAction::Done }
        }
    }
}

/// One step of the guides track of an item. The caller publishes the returned
/// events in order, performs the returned action and reports what came of it
/// with the next call, until the action is `Done`.
pub fn scrape_game_guides(
    track: &mut GuidesTrack,
    ev: GuidesEvent,
    game_data: &mut GameData,
    progress: &ScrapingProgress,
    backoff: &mut BackoffState,
) -> (r: GuidesStep)
    requires
        old(track)@.wf(),
        old(backoff).wf(),
    ensures
        final(track)@.wf(),
        final(backoff).wf(),
        ({
            let o = old(track)@.step(ev@, old(game_data)@, progress@, old(backoff)@);
            &&& final(track)@ == o.track
            &&& final(game_data)@ == o.data
            &&& final(backoff)@ == o.backoff
            &&& updates_view(r.updates@) == o.updates
            &&& r.action@ == o.action
        }),
{
    let mut updates: Vec<ProgressUpdate> = Vec::new();
    assert(updates_view(updates@) =~= Seq::empty());
    match (track.stage, ev) {
        (GuidesStage::Start, GuidesEvent::Begin) => {
            if !track.skip_cache {
                track.stage = GuidesStage::Counting;
                GuidesStep { updates, action: GuidesAction::CountGuides }
            } else {
                track.begin_search(game_data, progress)
            }
        },
        (GuidesStage::Counting, GuidesEvent::GuidesCounted(count)) => {
            if count > 0 {
                track.stage = GuidesStage::LoadingStored { count };
                GuidesStep { updates, action: GuidesAction::LoadStored }
            } else {
                track.begin_search(game_data, progress)
            }
        },
        (GuidesStage::LoadingStored { count }, GuidesEvent::StoredLoaded(stored)) => {
            let known = match stored {
                Some(existing) => existing.guides.count,
                None => None,
            };
            game_data.guides.count = match known {
                Some(n) => Some(n),
                None => Some(count),
            };
            game_data.guides.status = ScrapeStatus::Skipped;
            emit(
                &mut updates,
                progress,
                String::from_str("Guides already exist, skipping"),
                Some(game_data.duplicate()),
            );
            assert(updates_view(updates@) =~= seq![
                event(progress@, "Guides already exist, skipping"@, Some(game_data@)),
            ]);
            track.stage = GuidesStage::Done;
            GuidesStep { updates, action: GuidesAction::Done }
        },
        (GuidesStage::Searching { index }, GuidesEvent::Searched(result)) => track.searched(
            index,
            result,
            game_data,
            progress,
            backoff,
        ),
        (GuidesStage::Waiting { index }, GuidesEvent::Waited) => {
            let message = track.pending_error.clone();
            track.search_failed(index, message.as_str(), game_data, progress)
        },
        (GuidesStage::PreparingDirectory { index }, GuidesEvent::DirectoryPrepared(result)) => {
            match result {
                Ok(_) => track.download_next(index, 0, game_data, progress, updates),
                Err(text) => {
                    let mut message = String::from_str(
                        "Warning: Failed to create guides directory: ",
                    );
                    push_text(&mut message, text.as_str());
                    emit(&mut updates, progress, message, None);
                    assert(updates_view(updates@) =~= seq![
                        event(
                            progress@,
                            "Warning: Failed to create guides directory: "@ + text@,
                            None,
                        ),
                    ]);
                    track.stage = GuidesStage::Done;
                    GuidesStep { updates, action: GuidesAction::Done }
                },
            }
        },
        (GuidesStage::Downloading { index, next }, GuidesEvent::GuideDownloaded(result)) => {
            let count: usize = track.guide_paths.len();
            assert(next < count);
            match result {
                Ok(_) => {},
                Err(e) => {
                    let mut message = String::from_str("Failed to download guide: ");
                    push_text(&mut message, e.message().as_str());
                    emit(&mut updates, progress, message, None);
                    assert(updates_view(updates@) =~= seq![
                        event(progress@, "Failed to download guide: "@ + e@.message(), None),
                    ]);
                },
            }
            track.download_next(index, next + 1, game_data, progress, updates)
        },
        _ => GuidesStep { updates, action: GuidesAction::Rejected },
    }
}

/// The first list wins: once a provider has listed guides, the item is a
/// success, the provider's backoff is forgotten, and no further provider is
/// asked, whatever comes of making the directory and of fetching the guides.
pub proof fn lemma_first_list_wins(
    track: GuidesTrackView,
    index: nat,
    paths: Seq<Seq<char>>,
    data: GameDataView,
    progress: ScrapingProgressView,
    backoff: Map<Seq<char>, nat>,
    later: GuidesEventView,
)
    requires
        index < track.providers.len(),
        index <= usize::MAX,
        track.stage == (GuidesStage::Searching { index: index as usize }),
        paths.len() > 0,
    ensures
        ({
            let o = track.step(GuidesEventView::Searched(Ok(paths)), data, progress, backoff);
            &&& o.action == GuidesActionView::PrepareDirectory
            &&& o.data == data.with_guides_status(ScrapeStatus::Success)
            &&& wait_of(o.backoff, track.providers[index as int]) == 1
            &&& o.track.guide_paths == paths
            &&& !(o.track.step(later, o.data, progress, o.backoff).action is Search)
            &&& o.track.step(later, o.data, progress, o.backoff).data == o.data
        }),
{
}

/// A guide that cannot be fetched does not fail the item: the record stays
/// as it is, the failure is reported, and the track goes on with the next
/// guide or ends.
pub proof fn lemma_failed_guide_is_not_fatal(
    track: GuidesTrackView,
    index: nat,
    next: nat,
    error: ScraperErrorView,
    data: GameDataView,
    progress: ScrapingProgressView,
    backoff: Map<Seq<char>, nat>,
)
    requires
        index <= usize::MAX,
        next < usize::MAX,
        track.stage == (GuidesStage::Downloading { index: index as usize, next: next as usize }),
    ensures
        ({
            let o = track.step(GuidesEventView::GuideDownloaded(Err(error)), data, progress, backoff);
            &&& o.data == data
            &&& o.backoff == backoff
            &&& o.updates[0] == event(progress, "Failed to download guide: "@ + error.message(), None)
            &&& next + 1 < track.guide_paths.len() ==> o.action == (GuidesActionView::DownloadGuide {
                index: index,
                guide_path: track.guide_paths[(next + 1) as int],
                file_name: guide_file_name(track.guide_paths[(next + 1) as int]),
            })
            &&& next + 1 >= track.guide_paths.len() ==> o.action == GuidesActionView::Done
        }),
{
}

/// An item whose guides lie on disk is skipped without a word to any
/// provider, and the count that an earlier run stored comes back; where none
/// was stored, the number of entries on disk stands.
pub proof fn lemma_existing_guides_skip(
    track: GuidesTrackView,
    count: nat,
    stored: Option<GameDataView>,
    data: GameDataView,
    progress: ScrapingProgressView,
    backoff: Map<Seq<char>, nat>,
)
    requires
        track.stage == GuidesStage::Counting,
        0 < count <= usize::MAX,
    ensures
        ({
            let first = track.step(GuidesEventView::GuidesCounted(count), data, progress, backoff);
            let second = first.track.step(
                GuidesEventView::StoredLoaded(stored),
                first.data,
                progress,
                first.backoff,
            );
            &&& first.action == GuidesActionView::LoadStored
            &&& second.action == GuidesActionView::Done
            &&& second.backoff == backoff
            &&& second.data.guides.status == ScrapeStatus::Skipped
            &&& second.data.metadata == data.metadata
            &&& second.data.guides.count == if stored is Some && stored->0.guides.count is Some {
                stored->0.guides.count
            } else {
                Some(count as usize)
            }
        }),
{
}

/// A rate limit pauses before it is reported: the pause of the provider is
/// taken at once, and only when it is over is the item marked as failed for
/// now, the error reported and the next provider asked.
pub proof fn lemma_guides_rate_limit_pauses(
    track: GuidesTrackView,
    index: nat,
    data: GameDataView,
    progress: ScrapingProgressView,
    backoff: Map<Seq<char>, nat>,
)
    requires
        index < track.providers.len(),
        index <= usize::MAX,
        track.stage == (GuidesStage::Searching { index: index as usize }),
    ensures
        ({
            let name = track.providers[index as int];
            let o = track.step(
                GuidesEventView::Searched(Err(ScraperErrorView::RateLimitExceeded)),
                data,
                progress,
                backoff,
            );
            let resumed = o.track.step(GuidesEventView::Waited, o.data, progress, o.backoff);
            &&& o.action == (GuidesActionView::Wait { secs: wait_of(backoff, name) })
            &&& o.backoff == backoff.insert(name, next_interval(wait_of(backoff, name)))
            &&& o.data == data
            &&& resumed.data == data.with_guides_status(ScrapeStatus::Failed)
            &&& resumed.updates == seq![
                event(
                    progress,
                    "Guide search error: "@ + "Rate limit exceeded"@,
                    Some(data.with_guides_status(ScrapeStatus::Failed)),
                ),
            ]
            &&& index + 1 < track.providers.len() ==> resumed.action == (GuidesActionView::Search {
                index: index + 1,
            })
            &&& index + 1 >= track.providers.len() ==> resumed.action == GuidesActionView::Done
        }),
{
}

/// A track that has ended asks for nothing more: every further event is
/// rejected and changes nothing.
pub proof fn lemma_ended_guides_track_is_final(
    track: GuidesTrackView,
    ev: GuidesEventView,
    data: GameDataView,
    progress: ScrapingProgressView,
    backoff: Map<Seq<char>, nat>,
)
    requires
        track.stage == GuidesStage::Done,
    ensures
        track.step(ev, data, progress, backoff) == track.rejected(data, backoff),
{
}

} // verus!
