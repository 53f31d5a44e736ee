//! One run over the discovered items, as a state machine: the caller scans,
//! runs the tracks of each item and persists; the session decides whether the
//! run goes on, folds each item's outcome into the counters and words the
//! events of the run.
//!
//! Cancellation is looked at between items only: the request comes in with
//! the next item, and an item that was started is brought to its end.

use vstd::prelude::*;
use crate::progress::{
    emit, event, merged, updates_view, GameData, GameDataView, ProgressUpdate,
    ProgressUpdateView, ScrapeStatus, ScrapingProgress, ScrapingProgressView,
};
use crate::text::{decimal, decimal_of_usize, push_text};

verus! {

/// How many of `statuses` are `Success`.
pub open spec fn successes(statuses: Seq<ScrapeStatus>) -> nat
    decreases statuses.len(),
{
    if statuses.len() == 0 {
        0
    } else {
        successes(statuses.drop_last()) + if statuses.last() == ScrapeStatus::Success {
            1nat
        } else {
            0nat
        }
    }
}

/// How many of `statuses` are `Skipped`.
pub open spec fn skips(statuses: Seq<ScrapeStatus>) -> nat
    decreases statuses.len(),
{
    if statuses.len() == 0 {
        0
    } else {
        skips(statuses.drop_last()) + if statuses.last() == ScrapeStatus::Skipped {
            1nat
        } else {
            0nat
        }
    }
}

/// How many of `statuses` are neither `Success` nor `Skipped`: these count as
/// failures.
pub open spec fn failures(statuses: Seq<ScrapeStatus>) -> nat
    decreases statuses.len(),
{
    if statuses.len() == 0 {
        0
    } else {
        failures(statuses.drop_last()) + if statuses.last() != ScrapeStatus::Success
            && statuses.last() != ScrapeStatus::Skipped {
            1nat
        } else {
            0nat
        }
    }
}

/// The status under which an item is counted: the merge of its two tracks
/// where the guides track ran, else the status of its metadata.
pub open spec fn item_status(guides_enabled: bool, data: GameDataView) -> ScrapeStatus {
    if guides_enabled {
        merged(data.metadata.status, data.guides.status)
    } else {
        data.metadata.status
    }
}

/// The message that opens a run.
pub open spec fn found_message(total: nat) -> Seq<char> {
    "Found "@ + decimal(total) + " ROMs to process"@
}

/// The message that opens an item.
pub open spec fn processing_message(rom_name: Seq<char>, console_name: Seq<char>) -> Seq<char> {
    "Processing: "@ + rom_name + " ("@ + console_name + ")"@
}

/// The message that closes a run.
pub open spec fn summary_message(progress: ScrapingProgressView, cancelled: bool) -> Seq<char> {
    "Scraping "@ + (if cancelled {
        "cancelled"@
    } else {
        "complete"@
    }) + "! Total: "@ + decimal(progress.total) + ", Success: "@ + decimal(progress.success_count)
        + ", Skipped: "@ + decimal(progress.skip_count) + ", Failed: "@ + decimal(
        progress.fail_count,
    )
}

/// What a run came to.
#[derive(Debug, Copy, Clone, PartialEq, Eq, Structural)]
pub struct SessionSummary {
    pub total: usize,
    pub success: usize,
    pub fail: usize,
    pub skip: usize,
    pub cancelled: bool,
}

/// What the caller reports to the session.
#[derive(Debug)]
pub enum SessionEvent {
    /// The scan has found `total` items.
    Scanned { total: usize },
    /// The next item of the scan, and whether cancellation was requested by
    /// now.
    NextItem { cancel_requested: bool, rom_name: String, console_name: String },
    /// The tracks of the item in work have ended with this record.
    ItemDone(GameData),
    /// The scan holds no further item.
    Exhausted,
}

/// The mathematical value of a [`SessionEvent`].
pub enum SessionEventView {
    Scanned { total: nat },
    NextItem { cancel_requested: bool, rom_name: Seq<char>, console_name: Seq<char> },
    ItemDone(GameDataView),
    Exhausted,
}

impl View for SessionEvent {
    type V = SessionEventView;

    open spec fn view(&self) -> SessionEventView {
        match self {
            SessionEvent::Scanned { total } => SessionEventView::Scanned { total: *total as nat },
            SessionEvent::NextItem {
                cancel_requested,
                rom_name,
                console_name,
            } => SessionEventView::NextItem {
                cancel_requested: *cancel_requested,
                rom_name: rom_name@,
                console_name: console_name@,
            },
            SessionEvent::ItemDone(data) => SessionEventView::ItemDone(data@),
            SessionEvent::Exhausted => SessionEventView::Exhausted,
        }
    }
}

/// What the session asks its caller to do next.
#[derive(Debug)]
pub enum SessionAction {
    /// Report the next item of the scan, or that none is left.
    Next,
    /// Run the metadata track on `game_data`, then the guides track if
    /// `guides` is set, and report the record.
    Process { game_data: GameData, guides: bool },
    /// Persist `game_data` and append the item to the index and to the log
    /// of visited paths; then report the next item, or that none is left.
    Store { game_data: GameData },
    /// The run has ended.
    Finished { summary: SessionSummary },
    /// The event did not answer what the session had asked for; nothing has
    /// changed.
    Rejected,
}

/// The mathematical value of a [`SessionAction`].
pub enum SessionActionView {
    Next,
    Process { game_data: GameDataView, guides: bool },
    Store { game_data: GameDataView },
    Finished { summary: SessionSummary },
    Rejected,
}

impl View for SessionAction {
    type V = SessionActionView;

    open spec fn view(&self) -> SessionActionView {
        match self {
            SessionAction::Next => SessionActionView::Next,
            SessionAction::Process { game_data, guides } => SessionActionView::Process {
                game_data: game_data@,
                guides: *guides,
            },
            SessionAction::Store { game_data } => SessionActionView::Store { game_data: game_data@ },
            SessionAction::Finished { summary } => SessionActionView::Finished { summary: *summary },
            SessionAction::Rejected => SessionActionView::Rejected,
        }
    }
}

/// What the session is waiting for.
#[derive(Debug, Copy, Clone, PartialEq, Eq, Structural)]
pub enum SessionStage {
    /// The result of the scan.
    Scanning,
    /// The next item, or word that none is left.
    Idle,
    /// The record of the item in work.
    InItem,
    /// Nothing: the run has ended.
    Finished,
}

/// One run.
pub struct Session {
    progress: ScrapingProgress,
    guides_enabled: bool,
    stage: SessionStage,
    cancelled: bool,
    history: Ghost<Seq<ScrapeStatus>>,
}

/// The mathematical value of a [`Session`].
pub struct SessionView {
    /// The counters of the run.
    pub progress: ScrapingProgressView,
    /// Whether a guides provider is configured, so that the guides track runs
    /// and counts.
    pub guides_enabled: bool,
    /// What the session is waiting for.
    pub stage: SessionStage,
    /// Whether the run was stopped by a request for cancellation.
    pub cancelled: bool,
    /// The statuses under which the items done so far were counted, in the
    /// order of the scan.
    pub history: Seq<ScrapeStatus>,
}

/// What one step of the session leaves: the session, the events to publish,
/// in order, and the next action.
pub struct SessionOutcome {
    pub session: SessionView,
    pub updates: Seq<ProgressUpdateView>,
    pub action: SessionActionView,
}

/// The events and the action that a step hands to the caller.
pub struct SessionStep {
    pub updates: Vec<ProgressUpdate>,
    pub action: SessionAction,
}

impl SessionView {
    /// The counters are the tally of the items done, no more items are done
    /// than the scan found, and the total is a number of the machine.
    pub open spec fn wf(self) -> bool {
        &&& self.progress.completed == self.history.len()
        &&& self.progress.success_count == successes(self.history)
        &&& self.progress.skip_count == skips(self.history)
        &&& self.progress.fail_count == failures(self.history)
        &&& self.progress.completed <= self.progress.total <= usize::MAX
        &&& self.stage == SessionStage::InItem ==> self.progress.completed < self.progress.total
    }

    /// What the run has come to at this point.
    pub open spec fn summary(self) -> SessionSummary {
        SessionSummary {
            total: self.progress.total as usize,
            success: self.progress.success_count as usize,
            fail: self.progress.fail_count as usize,
            skip: self.progress.skip_count as usize,
            cancelled: self.cancelled,
        }
    }

    /// The answer to an event that the session did not ask for.
    pub open spec fn rejected(self) -> SessionOutcome {
        SessionOutcome { session: self, updates: Seq::empty(), action: SessionActionView::Rejected }
    }

    /// The end of the run: no item is in work any more, and the closing event
    /// gives the counters.
    pub open spec fn finish(self, cancelled: bool, updates: Seq<ProgressUpdateView>) -> SessionOutcome {
        let progress = ScrapingProgressView { current_rom: None, ..self.progress };
        let ended = SessionView { progress, stage: SessionStage::Finished, cancelled, ..self };
        SessionOutcome {
            session: ended,
            updates: updates.push(event(progress, summary_message(progress, cancelled), None)),
            action: SessionActionView::Finished { summary: ended.summary() },
        }
    }

    /// The session after an item with `status` was counted.
    pub open spec fn counted(self, status: ScrapeStatus) -> SessionView {
        SessionView {
            progress: ScrapingProgressView {
                completed: self.progress.completed + 1,
                success_count: self.progress.success_count + if status == ScrapeStatus::Success {
                    1nat
                } else {
                    0nat
                },
                skip_count: self.progress.skip_count + if status == ScrapeStatus::Skipped {
                    1nat
                } else {
                    0nat
                },
                fail_count: self.progress.fail_count + if status != ScrapeStatus::Success && status
                    != ScrapeStatus::Skipped {
                    1nat
                } else {
                    0nat
                },
                ..self.progress
            },
            stage: SessionStage::Idle,
            history: self.history.push(status),
            ..self
        }
    }

    /// One step of the session: what `ev` means at the stage where the
    /// session stands. An event that the stage did not ask for is rejected,
    /// and so is an item beyond the number that the scan announced.
    pub open spec fn step(self, ev: SessionEventView) -> SessionOutcome {
        match (self.stage, ev) {
            (SessionStage::Scanning, SessionEventView::Scanned { total }) => {
                let progress = ScrapingProgressView {
                    total,
                    completed: 0,
                    current_rom: None,
                    success_count: 0,
                    fail_count: 0,
                    skip_count: 0,
                };
                SessionOutcome {
                    session: SessionView {
                        progress,
                        stage: SessionStage::Idle,
                        history: Seq::empty(),
                        ..self
                    },
                    updates: seq![event(progress, found_message(total), None)],
                    action: SessionActionView::Next,
                }
            },
            (
                SessionStage::Idle,
                SessionEventView::NextItem { cancel_requested, rom_name, console_name },
            ) => {
                if cancel_requested {
                    self.finish(
                        true,
                        seq![event(self.progress, "Scraping cancelled by user"@, None)],
                    )
                } else if self.progress.completed >= self.progress.total {
                    self.rejected()
                } else {
                    let progress = ScrapingProgressView {
                        current_rom: Some(rom_name),
                        ..self.progress
                    };
                    let game_data = GameDataView::pending(rom_name);
                    SessionOutcome {
                        session: SessionView { progress, stage: SessionStage::InItem, ..self },
                        updates: seq![
                            event(
                                progress,
                                processing_message(rom_name, console_name),
                                Some(game_data),
                            ),
                        ],
                        action: SessionActionView::Process {
                            game_data,
                            guides: self.guides_enabled,
                        },
                    }
                }
            },
            (SessionStage::InItem, SessionEventView::ItemDone(data)) => SessionOutcome {
                session: self.counted(item_status(self.guides_enabled, data)),
                updates: Seq::empty(),
                action: SessionActionView::Store { game_data: data },
            },
            (SessionStage::Idle, SessionEventView::Exhausted) => self.finish(false, Seq::empty()),
            _ => self.rejected(),
        }
    }
}

impl View for Session {
    type V = SessionView;

    closed spec fn view(&self) -> SessionView {
        SessionView {
            progress: self.progress@,
            guides_enabled: self.guides_enabled,
            stage: self.stage,
            cancelled: self.cancelled,
            history: self.history@,
        }
    }
}

impl Session {
    /// A run that has not scanned yet. `guides_enabled` says whether a guides
    /// provider is configured.
    pub fn new(guides_enabled: bool) -> (r: Session)
        ensures
            r@.wf(),
            r@.stage == SessionStage::Scanning,
            r@.guides_enabled == guides_enabled,
            r@.cancelled == false,
            r@.history == Seq::<ScrapeStatus>::empty(),
            r@.progress == (ScrapingProgressView {
                total: 0,
                completed: 0,
                current_rom: None,
                success_count: 0,
                fail_count: 0,
                skip_count: 0,
            }),
    {
        Session {
            progress: ScrapingProgress {
                total: 0,
                completed: 0,
                current_rom: None,
                success_count: 0,
                fail_count: 0,
                skip_count: 0,
            },
            guides_enabled,
            stage: SessionStage::Scanning,
            cancelled: false,
            history: Ghost(Seq::empty()),
        }
    }

    /// The counters of the run.
    pub fn progress(&self) -> (r: &ScrapingProgress)
        ensures
            r@ == self@.progress,
    {
        &self.progress
    }

    /// What the session is waiting for.
    pub fn stage(&self) -> (r: SessionStage)
        ensures
            r == self@.stage,
    {
        self.stage
    }

    /// What the run has come to at this point.
    pub fn summary(&self) -> (r: SessionSummary)
        ensures
            r == self@.summary(),
    {
        SessionSummary {
            total: self.progress.total,
            success: self.progress.success_count,
            fail: self.progress.fail_count,
            skip: self.progress.skip_count,
            cancelled: self.cancelled,
        }
    }

    /// Ends the run.
    fn finish(&mut self, cancelled: bool, updates: Vec<ProgressUpdate>) -> (r: SessionStep)
        ensures
            ({
                let o = old(self)@.finish(cancelled, updates_view(updates@));
                &&& final(self)@ == o.session
                &&& updates_view(r.updates@) == o.updates
                &&& r.action@ == o.action
            }),
    {
        let mut updates = updates;
        self.progress.current_rom = None;
        self.cancelled = cancelled;
        self.stage = SessionStage::Finished;
        let mut message = String::from_str("Scraping ");
        if cancelled {
            push_text(&mut message, "cancelled");
        } else {
            push_text(&mut message, "complete");
        }
        push_text(&mut message, "! Total: ");
        push_text(&mut message, decimal_of_usize(self.progress.total).as_str());
        push_text(&mut message, ", Success: ");
        push_text(&mut message, decimal_of_usize(self.progress.success_count).as_str());
        push_text(&mut message, ", Skipped: ");
        push_text(&mut message, decimal_of_usize(self.progress.skip_count).as_str());
        push_text(&mut message, ", Failed: ");
        push_text(&mut message, decimal_of_usize(self.progress.fail_count).as_str());
        emit(&mut updates, &self.progress, message, None);
        let summary = self.summary();
        SessionStep { updates, action: SessionAction::Finished { summary } }
    }
}

/// One step of a run. The caller publishes the returned events in order,
/// performs the returned action and reports what came of it with the next
/// call, until the action is `Finished`.
pub fn scrape(session: &mut Session, ev: SessionEvent) -> (r: SessionStep)
    requires
        old(session)@.wf(),
    ensures
        final(session)@.wf(),
        ({
            let o = old(session)@.step(ev@);
            &&& final(session)@ == o.session
            &&& updates_view(r.updates@) == o.updates
            &&& r.action@ == o.action
        }),
{
    let mut updates: Vec<ProgressUpdate> = Vec::new();
    assert(updates_view(updates@) =~= Seq::empty());
    match (session.stage, ev) {
        (SessionStage::Scanning, SessionEvent::Scanned { total }) => {
            session.progress =
            ScrapingProgress {
                total,
                completed: 0,
                current_rom: None,
                success_count: 0,
                fail_count: 0,
                skip_count: 0,
            };
            session.history = Ghost(Seq::empty());
            session.stage = SessionStage::Idle;
            let mut message = String::from_str("Found ");
            push_text(&mut message, decimal_of_usize(total).as_str());
            push_text(&mut message, " ROMs to process");
            emit(&mut updates, &session.progress, message, None);
            assert(updates_view(updates@) =~= seq![
                event(session@.progress, found_message(total as nat), None),
            ]);
            SessionStep { updates, action: SessionAction::Next }
        },
        (SessionStage::Idle, SessionEvent::NextItem { cancel_requested, rom_name, console_name }) => {
            if cancel_requested {
                emit(
                    &mut updates,
                    &session.progress,
                    String::from_str("Scraping cancelled by user"),
                    None,
                );
                assert(updates_view(updates@) =~= seq![
                    event(session@.progress, "Scraping cancelled by user"@, None),
                ]);
                session.finish(true, updates)
            } else if session.progress.completed >= session.progress.total {
                SessionStep { updates, action: SessionAction::Rejected }
            } else {
                let game_data = GameData::pending(rom_name.as_str());
                let mut message = String::from_str("Processing: ");
                push_text(&mut message, rom_name.as_str());
                push_text(&mut message, " (");
                push_text(&mut message, console_name.as_str());
                push_text(&mut message, ")");
                session.progress.current_rom = Some(rom_name);
                session.stage = SessionStage::InItem;
                emit(&mut updates, &session.progress, message, Some(game_data.duplicate()));
                assert(updates_view(updates@) =~= seq![
                    event(
                        session@.progress,
                        processing_message(rom_name@, console_name@),
                        Some(game_data@),
                    ),
                ]);
                SessionStep {
                    updates,
                    action: SessionAction::Process { game_data, guides: session.guides_enabled },
                }
            }
        },
        (SessionStage::InItem, SessionEvent::ItemDone(game_data)) => {
            let status = if session.guides_enabled {
                game_data.metadata.status.merge(game_data.guides.status)
            } else {
                game_data.metadata.status
            };
            proof {
                let h = session.history@;
                assert(h.push(status).drop_last() =~= h);
                lemma_tally_bounded(h);
            }
            if status == ScrapeStatus::Success {
                session.progress.success_count += 1;
            } else if status == ScrapeStatus::Skipped {
                session.progress.skip_count += 1;
            } else {
                session.progress.fail_count += 1;
            }
            session.progress.completed += 1;
            session.history = Ghost(session.history@.push(status));
            session.stage = SessionStage::Idle;
            SessionStep { updates, action: SessionAction::Store { game_data } }
        },
        (SessionStage::Idle, SessionEvent::Exhausted) => session.finish(false, updates),
        _ => SessionStep { updates, action: SessionAction::Rejected },
    }
}

/// Every item is counted once: as a success, as skipped or as a failure.
pub proof fn lemma_tally_bounded(statuses: Seq<ScrapeStatus>)
    ensures
        successes(statuses) + skips(statuses) + failures(statuses) == statuses.len(),
    decreases statuses.len(),
{
    if statuses.len() > 0 {
        lemma_tally_bounded(statuses.drop_last());
    }
}

/// In every state that a run can reach, the three counters add up to the
/// number of items done, and that number is not above the total.
pub proof fn lemma_counters_add_up(session: SessionView)
    requires
        session.wf(),
    ensures
        session.progress.success_count + session.progress.skip_count + session.progress.fail_count
            == session.progress.completed,
        session.progress.completed <= session.progress.total,
{
    lemma_tally_bounded(session.history);
}

/// A step keeps what was counted before it: the history only grows, and it
/// grows by one item exactly when the record of the item in work comes in.
pub proof fn lemma_step_keeps_history(session: SessionView, ev: SessionEventView)
    requires
        session.stage != SessionStage::Scanning,
    ensures
        ({
            let after = session.step(ev).session;
            if session.stage == SessionStage::InItem && ev is ItemDone {
                after.history == session.history.push(
                    item_status(session.guides_enabled, ev->ItemDone_0),
                )
            } else {
                after.history == session.history && after.progress.completed
                    == session.progress.completed && after.progress.success_count
                    == session.progress.success_count && after.progress.skip_count
                    == session.progress.skip_count && after.progress.fail_count
                    == session.progress.fail_count
            }
        }),
{
}

/// Cancellation between items: when the next item comes with a request for
/// cancellation, it is not processed, the run ends as cancelled, and the
/// items done before keep what they were counted as.
pub proof fn lemma_cancellation_stops_before_next_item(
    session: SessionView,
    rom_name: Seq<char>,
    console_name: Seq<char>,
)
    requires
        session.wf(),
        session.stage == SessionStage::Idle,
    ensures
        ({
            let o = session.step(
                SessionEventView::NextItem { cancel_requested: true, rom_name, console_name },
            );
            &&& o.action == SessionActionView::Finished { summary: o.session.summary() }
            &&& o.session.summary().cancelled
            &&& o.session.stage == SessionStage::Finished
            &&& o.session.history == session.history
            &&& o.session.progress.completed == session.progress.completed
            &&& o.session.summary().success == successes(session.history)
            &&& o.session.summary().skip == skips(session.history)
            &&& o.session.summary().fail == failures(session.history)
        }),
{
    lemma_tally_bounded(session.history);
}

/// A run that has ended processes nothing more: every further event is
/// rejected and leaves the session as it is.
pub proof fn lemma_finished_is_final(session: SessionView, ev: SessionEventView)
    requires
        session.stage == SessionStage::Finished,
    ensures
        session.step(ev) == session.rejected(),
        session.step(ev).session == session,
{
}

/// A run in which every item was skipped counts each of them as skipped and
/// none as a success or a failure.
pub proof fn lemma_all_skipped(statuses: Seq<ScrapeStatus>)
    requires
        forall|i: int| 0 <= i < statuses.len() ==> statuses[i] == ScrapeStatus::Skipped,
    ensures
        skips(statuses) == statuses.len(),
        successes(statuses) == 0,
        failures(statuses) == 0,
    decreases statuses.len(),
{
    if statuses.len() > 0 {
        lemma_all_skipped(statuses.drop_last());
    }
}

/// Without a guides provider the guides track does not count: the item is
/// counted under the status of its metadata, whatever its guides say.
pub proof fn lemma_guides_ignored_when_disabled(data: GameDataView)
    ensures
        item_status(false, data) == data.metadata.status,
{
}

} // verus!
