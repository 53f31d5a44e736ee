//! Statuses, per-item records and the progress events that a run publishes.

use vstd::prelude::*;
use crate::text::{clone_opt, opt_view, push_text};

verus! {

/// Where one track of one item stands.
#[derive(Debug, Copy, Clone, PartialEq, Eq, Structural)]
pub enum ScrapeStatus {
    Pending,
    Searching,
    Success,
    Failed,
    Skipped,
}

/// The status of an item whose two tracks ended in `a` and `b`: `Success` wins
/// over everything, then `Failed`, then `Searching`, then `Pending`; `Skipped`
/// is left only where both tracks were skipped.
pub open spec fn merged(a: ScrapeStatus, b: ScrapeStatus) -> ScrapeStatus {
    if a == ScrapeStatus::Success || b == ScrapeStatus::Success {
        ScrapeStatus::Success
    } else if a == ScrapeStatus::Failed || b == ScrapeStatus::Failed {
        ScrapeStatus::Failed
    } else if a == ScrapeStatus::Searching || b == ScrapeStatus::Searching {
        ScrapeStatus::Searching
    } else if a == ScrapeStatus::Pending || b == ScrapeStatus::Pending {
        ScrapeStatus::Pending
    } else {
        ScrapeStatus::Skipped
    }
}

impl ScrapeStatus {
    /// Combines the statuses of the two tracks of one item.
    pub fn merge(self, other: ScrapeStatus) -> (r: ScrapeStatus)
        ensures
            r == merged(self, other),
    {
        match (self, other) {
            (ScrapeStatus::Success, _) | (_, ScrapeStatus::Success) => ScrapeStatus::Success,
            (ScrapeStatus::Failed, _) | (_, ScrapeStatus::Failed) => ScrapeStatus::Failed,
            (ScrapeStatus::Searching, _) | (_, ScrapeStatus::Searching) => ScrapeStatus::Searching,
            (ScrapeStatus::Pending, _) | (_, ScrapeStatus::Pending) => ScrapeStatus::Pending,
            (ScrapeStatus::Skipped, ScrapeStatus::Skipped) => ScrapeStatus::Skipped,
        }
    }

    /// The mark that the console log puts before an item's line.
    pub open spec fn spec_mark(self) -> Seq<char> {
        match self {
            ScrapeStatus::Pending => " "@,
            ScrapeStatus::Searching => "🔍"@,
            ScrapeStatus::Success => "✓"@,
            ScrapeStatus::Failed => "✗"@,
            ScrapeStatus::Skipped => "⏭"@,
        }
    }

    /// The mark that the console log puts before an item's line.
    pub fn mark(self) -> (r: &'static str)
        ensures
            r@ == self.spec_mark(),
    {
        match self {
            ScrapeStatus::Pending => " ",
            ScrapeStatus::Searching => "🔍",
            ScrapeStatus::Success => "✓",
            ScrapeStatus::Failed => "✗",
            ScrapeStatus::Skipped => "⏭",
        }
    }

    /// The lower-case word under which the status is stored and published.
    pub open spec fn spec_word(self) -> Seq<char> {
        match self {
            ScrapeStatus::Pending => "pending"@,
            ScrapeStatus::Searching => "searching"@,
            ScrapeStatus::Success => "success"@,
            ScrapeStatus::Failed => "failed"@,
            ScrapeStatus::Skipped => "skipped"@,
        }
    }

    /// The lower-case word under which the status is stored and published.
    pub fn word(self) -> (r: &'static str)
        ensures
            r@ == self.spec_word(),
    {
        match self {
            ScrapeStatus::Pending => "pending",
            ScrapeStatus::Searching => "searching",
            ScrapeStatus::Success => "success",
            ScrapeStatus::Failed => "failed",
            ScrapeStatus::Skipped => "skipped",
        }
    }
}

/// Merging does not depend on the order of its two arguments.
pub proof fn lemma_merge_commutative(a: ScrapeStatus, b: ScrapeStatus)
    ensures
        merged(a, b) == merged(b, a),
{
}

/// Merging is associative, so the status of several tracks does not depend on
/// how they are grouped.
pub proof fn lemma_merge_associative(a: ScrapeStatus, b: ScrapeStatus, c: ScrapeStatus)
    ensures
        merged(merged(a, b), c) == merged(a, merged(b, c)),
{
}

/// A status merged with itself is that status.
pub proof fn lemma_merge_idempotent(a: ScrapeStatus)
    ensures
        merged(a, a) == a,
{
}

/// `Success` absorbs every other status.
pub proof fn lemma_merge_success_absorbs(x: ScrapeStatus)
    ensures
        merged(ScrapeStatus::Success, x) == ScrapeStatus::Success,
        merged(x, ScrapeStatus::Success) == ScrapeStatus::Success,
{
}

/// `Failed` absorbs every status but `Success`.
pub proof fn lemma_merge_failed_absorbs(x: ScrapeStatus)
    requires
        x != ScrapeStatus::Success,
    ensures
        merged(ScrapeStatus::Failed, x) == ScrapeStatus::Failed,
        merged(x, ScrapeStatus::Failed) == ScrapeStatus::Failed,
{
}

/// The merge is `Skipped` exactly when both tracks were skipped.
pub proof fn lemma_merge_skipped(a: ScrapeStatus, b: ScrapeStatus)
    ensures
        merged(a, b) == ScrapeStatus::Skipped <==> (a == ScrapeStatus::Skipped && b
            == ScrapeStatus::Skipped),
{
}

/// What is known of an item's metadata.
#[derive(Debug, Clone)]
pub struct GameMetadata {
    pub status: ScrapeStatus,
    pub name: Option<String>,
    pub developer: Option<String>,
    pub publisher: Option<String>,
    pub genre: Option<String>,
    pub release_date: Option<String>,
    pub rating: Option<String>,
    pub image_path: Option<String>,
    pub error_message: Option<String>,
}

/// The mathematical value of a [`GameMetadata`].
pub struct GameMetadataView {
    pub status: ScrapeStatus,
    pub name: Option<Seq<char>>,
    pub developer: Option<Seq<char>>,
    pub publisher: Option<Seq<char>>,
    pub genre: Option<Seq<char>>,
    pub release_date: Option<Seq<char>>,
    pub rating: Option<Seq<char>>,
    pub image_path: Option<Seq<char>>,
    pub error_message: Option<Seq<char>>,
}

impl View for GameMetadata {
    type V = GameMetadataView;

    open spec fn view(&self) -> GameMetadataView {
        GameMetadataView {
            status: self.status,
            name: opt_view(self.name),
            developer: opt_view(self.developer),
            publisher: opt_view(self.publisher),
            genre: opt_view(self.genre),
            release_date: opt_view(self.release_date),
            rating: opt_view(self.rating),
            image_path: opt_view(self.image_path),
            error_message: opt_view(self.error_message),
        }
    }
}

impl GameMetadataView {
    /// Metadata of which nothing is known yet.
    pub open spec fn pending() -> GameMetadataView {
        GameMetadataView {
            status: ScrapeStatus::Pending,
            name: None,
            developer: None,
            publisher: None,
            genre: None,
            release_date: None,
            rating: None,
            image_path: None,
            error_message: None,
        }
    }
}

impl GameMetadata {
    /// Metadata of which nothing is known yet.
    pub fn pending() -> (r: GameMetadata)
        ensures
            r@ == GameMetadataView::pending(),
    {
        GameMetadata {
            status: ScrapeStatus::Pending,
            name: None,
            developer: None,
            publisher: None,
            genre: None,
            release_date: None,
            rating: None,
            image_path: None,
            error_message: None,
        }
    }

    /// A copy with the same value.
    pub fn duplicate(&self) -> (r: GameMetadata)
        ensures
            r@ == self@,
    {
        GameMetadata {
            status: self.status,
            name: clone_opt(&self.name),
            developer: clone_opt(&self.developer),
            publisher: clone_opt(&self.publisher),
            genre: clone_opt(&self.genre),
            release_date: clone_opt(&self.release_date),
            rating: clone_opt(&self.rating),
            image_path: clone_opt(&self.image_path),
            error_message: clone_opt(&self.error_message),
        }
    }
}

/// What is known of an item's guides.
#[derive(Debug, Copy, Clone, PartialEq, Eq, Structural)]
pub struct GameGuides {
    pub status: ScrapeStatus,
    pub count: Option<usize>,
}

/// The record of one item: its name and its two tracks.
#[derive(Debug, Clone)]
pub struct GameData {
    pub rom_name: String,
    pub metadata: GameMetadata,
    pub guides: GameGuides,
}

/// The mathematical value of a [`GameData`].
pub struct GameDataView {
    pub rom_name: Seq<char>,
    pub metadata: GameMetadataView,
    pub guides: GameGuides,
}

impl View for GameData {
    type V = GameDataView;

    open spec fn view(&self) -> GameDataView {
        GameDataView { rom_name: self.rom_name@, metadata: self.metadata@, guides: self.guides }
    }
}

impl GameDataView {
    /// The record of an item on which no work was done yet.
    pub open spec fn pending(rom_name: Seq<char>) -> GameDataView {
        GameDataView {
            rom_name,
            metadata: GameMetadataView::pending(),
            guides: GameGuides { status: ScrapeStatus::Pending, count: None },
        }
    }

    /// The status of the item when both of its tracks count.
    pub open spec fn merged_status(self) -> ScrapeStatus {
        merged(self.metadata.status, self.guides.status)
    }
}

/// The value of an optional record.
pub open spec fn opt_data_view(o: Option<GameData>) -> Option<GameDataView> {
    match o {
        Some(d) => Some(d@),
        None => None,
    }
}

impl GameData {
    /// The record of an item on which no work was done yet.
    pub fn pending(rom_name: &str) -> (r: GameData)
        ensures
            r@ == GameDataView::pending(rom_name@),
    {
        GameData {
            rom_name: String::from_str(rom_name),
            metadata: GameMetadata::pending(),
            guides: GameGuides { status: ScrapeStatus::Pending, count: None },
        }
    }

    /// A copy with the same value.
    pub fn duplicate(&self) -> (r: GameData)
        ensures
            r@ == self@,
    {
        GameData {
            rom_name: self.rom_name.clone(),
            metadata: self.metadata.duplicate(),
            guides: self.guides,
        }
    }
}

/// The counters of a run.
pub struct ScrapingProgress {
    pub total: usize,
    pub completed: usize,
    pub current_rom: Option<String>,
    pub success_count: usize,
    pub fail_count: usize,
    pub skip_count: usize,
}

/// The mathematical value of a [`ScrapingProgress`].
pub struct ScrapingProgressView {
    pub total: nat,
    pub completed: nat,
    pub current_rom: Option<Seq<char>>,
    pub success_count: nat,
    pub fail_count: nat,
    pub skip_count: nat,
}

impl View for ScrapingProgress {
    type V = ScrapingProgressView;

    open spec fn view(&self) -> ScrapingProgressView {
        ScrapingProgressView {
            total: self.total as nat,
            completed: self.completed as nat,
            current_rom: opt_view(self.current_rom),
            success_count: self.success_count as nat,
            fail_count: self.fail_count as nat,
            skip_count: self.skip_count as nat,
        }
    }
}

impl ScrapingProgress {
    /// A copy with the same value.
    pub fn duplicate(&self) -> (r: ScrapingProgress)
        ensures
            r@ == self@,
    {
        ScrapingProgress {
            total: self.total,
            completed: self.completed,
            current_rom: clone_opt(&self.current_rom),
            success_count: self.success_count,
            fail_count: self.fail_count,
            skip_count: self.skip_count,
        }
    }
}

/// One progress event: the counters of the run at the moment it was made, a
/// message for a reader, and the record of the item it is about, if any.
#[derive(Debug, Clone)]
pub struct ProgressUpdate {
    pub total: usize,
    pub completed: usize,
    pub current_rom: Option<String>,
    pub success_count: usize,
    pub fail_count: usize,
    pub skip_count: usize,
    pub message: String,
    pub game_update: Option<GameData>,
}

/// The mathematical value of a [`ProgressUpdate`].
pub struct ProgressUpdateView {
    pub progress: ScrapingProgressView,
    pub message: Seq<char>,
    pub game_update: Option<GameDataView>,
}

impl View for ProgressUpdate {
    type V = ProgressUpdateView;

    open spec fn view(&self) -> ProgressUpdateView {
        ProgressUpdateView {
            progress: ScrapingProgressView {
                total: self.total as nat,
                completed: self.completed as nat,
                current_rom: opt_view(self.current_rom),
                success_count: self.success_count as nat,
                fail_count: self.fail_count as nat,
                skip_count: self.skip_count as nat,
            },
            message: self.message@,
            game_update: opt_data_view(self.game_update),
        }
    }
}

/// The values of a list of progress events, in order.
pub open spec fn updates_view(v: Seq<ProgressUpdate>) -> Seq<ProgressUpdateView> {
    Seq::new(v.len(), |i: int| v[i]@)
}

/// The event that carries the counters of `progress`, `message` and
/// `game_update`.
pub fn progress_update(
    progress: &ScrapingProgress,
    message: String,
    game_update: Option<GameData>,
) -> (r: ProgressUpdate)
    ensures
        r@ == (ProgressUpdateView {
            progress: progress@,
            message: message@,
            game_update: opt_data_view(game_update),
        }),
{
    ProgressUpdate {
        total: progress.total,
        completed: progress.completed,
        current_rom: clone_opt(&progress.current_rom),
        success_count: progress.success_count,
        fail_count: progress.fail_count,
        skip_count: progress.skip_count,
        message,
        game_update,
    }
}

/// The line that the console log shows for an event: the message alone, or,
/// for an event about an item, the mark of the item's merged status, the
/// item's name and the message.
pub open spec fn log_line_text(message: Seq<char>, game_update: Option<GameDataView>) -> Seq<
    char,
> {
    match game_update {
        Some(d) => d.merged_status().spec_mark() + " "@ + d.rom_name + " - "@ + message,
        None => message,
    }
}

/// The line that the console log shows for an event.
pub fn log_line(message: &str, game_update: &Option<GameData>) -> (r: String)
    ensures
        r@ == log_line_text(message@, opt_data_view(*game_update)),
{
    match game_update {
        Some(d) => {
            let status = d.metadata.status.merge(d.guides.status);
            let mut line = String::from_str(status.mark());
            push_text(&mut line, " ");
            push_text(&mut line, d.rom_name.as_str());
            push_text(&mut line, " - ");
            push_text(&mut line, message);
            line
        },
        None => String::from_str(message),
    }
}

/// Appends the event made of `progress`, `message` and `game_update`.
pub fn emit(
    updates: &mut Vec<ProgressUpdate>,
    progress: &ScrapingProgress,
    message: String,
    game_update: Option<GameData>,
)
    ensures
        updates_view(final(updates)@) == updates_view(old(updates)@).push(
            event(progress@, message@, opt_data_view(game_update)),
        ),
{
    let u = progress_update(progress, message, game_update);
    updates.push(u);
    assert(updates_view(updates@) =~= updates_view(old(updates)@).push(u@));
}

/// The event made of `progress`, `message` and `game_update`.
pub open spec fn event(
    progress: ScrapingProgressView,
    message: Seq<char>,
    game_update: Option<GameDataView>,
) -> ProgressUpdateView {
    ProgressUpdateView { progress, message, game_update }
}


} // verus!
