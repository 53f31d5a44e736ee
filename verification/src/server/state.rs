//! The state of scraping that the front end shows and that outlives the
//! process.

use vstd::prelude::*;
use crate::progress::ProgressUpdate;

verus! {

/// The state of scraping.
#[derive(Debug, Clone)]
pub struct ScrapingState {
    pub scraping: bool,
    pub progress: usize,
    pub total_games: usize,
    pub success_count: usize,
    pub fail_count: usize,
    pub skip_count: usize,
    pub current_message: String,
}

/// The mathematical value of a [`ScrapingState`].
pub struct ScrapingStateView {
    pub scraping: bool,
    pub progress: nat,
    pub total_games: nat,
    pub success_count: nat,
    pub fail_count: nat,
    pub skip_count: nat,
    pub current_message: Seq<char>,
}

impl View for ScrapingState {
    type V = ScrapingStateView;

    open spec fn view(&self) -> ScrapingStateView {
        ScrapingStateView {
            scraping: self.scraping,
            progress: self.progress as nat,
            total_games: self.total_games as nat,
            success_count: self.success_count as nat,
            fail_count: self.fail_count as nat,
            skip_count: self.skip_count as nat,
            current_message: self.current_message@,
        }
    }
}

impl ScrapingStateView {
    /// The state before anything was scraped.
    pub open spec fn initial() -> ScrapingStateView {
        ScrapingStateView {
            scraping: false,
            progress: 0,
            total_games: 0,
            success_count: 0,
            fail_count: 0,
            skip_count: 0,
            current_message: Seq::empty(),
        }
    }
}

impl Default for ScrapingState {
    fn default() -> (r: ScrapingState)
        ensures
            r@ == ScrapingStateView::initial(),
    {
        ScrapingState {
            scraping: false,
            progress: 0,
            total_games: 0,
            success_count: 0,
            fail_count: 0,
            skip_count: 0,
            current_message: String::new(),
        }
    }
}

impl ScrapingState {
    /// The state with which the process starts, from what an earlier process
    /// stored: where nothing could be read, the initial state; else the
    /// stored one, except that no scraping is under way.
    pub fn restored(stored: Option<ScrapingState>) -> (r: ScrapingState)
        ensures
            r@ == match stored {
                Some(s) => ScrapingStateView { scraping: false, ..s@ },
                None => ScrapingStateView::initial(),
            },
    {
        match stored {
            Some(s) => {
                let mut s = s;
                s.scraping = false;
                s
            },
            None => ScrapingState::default(),
        }
    }

    /// The state at the start of a run.
    pub fn started() -> (r: ScrapingState)
        ensures
            r@ == (ScrapingStateView { scraping: true, ..ScrapingStateView::initial() }),
    {
        let mut s = ScrapingState::default();
        s.scraping = true;
        s
    }

    /// Takes over the counters and the message of a progress event.
    pub fn apply_update(&mut self, update: &ProgressUpdate)
        ensures
            final(self)@ == (ScrapingStateView {
                scraping: old(self)@.scraping,
                progress: update@.progress.completed,
                total_games: update@.progress.total,
                success_count: update@.progress.success_count,
                fail_count: update@.progress.fail_count,
                skip_count: update@.progress.skip_count,
                current_message: update@.message,
            }),
    {
        self.progress = update.completed;
        self.total_games = update.total;
        self.success_count = update.success_count;
        self.fail_count = update.fail_count;
        self.skip_count = update.skip_count;
        self.current_message = update.message.clone();
    }

    /// A copy with the same value.
    pub fn duplicate(&self) -> (r: ScrapingState)
        ensures
            r@ == self@,
    {
        ScrapingState {
            scraping: self.scraping,
            progress: self.progress,
            total_games: self.total_games,
            success_count: self.success_count,
            fail_count: self.fail_count,
            skip_count: self.skip_count,
            current_message: self.current_message.clone(),
        }
    }
}

} // verus!
