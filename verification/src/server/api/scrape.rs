//! What the handlers that start, stop and configure a run answer.

use vstd::prelude::*;
use crate::text::{decimal, decimal_of_usize, push_text};
use crate::progress::{ScrapingProgress, ScrapingProgressView};
use crate::server::state::{ScrapingState, ScrapingStateView};

verus! {

/// The answer to a request that starts or stops a run.
#[derive(Debug)]
pub struct ScrapeResponse {
    pub success: bool,
    pub message: String,
}

/// The request to work below another ROM directory.
#[derive(Debug)]
pub struct SaveSettingsRequest {
    pub roms_path: String,
}

/// The request for the state of a ROM directory.
#[derive(Debug)]
pub struct GetStateRequest {
    pub roms_path: String,
}

/// The answer to a request to work below another ROM directory.
#[derive(Debug)]
pub struct SaveSettingsResponse {
    pub success: bool,
    pub message: String,
    pub state: ScrapingState,
}

/// The message of a run that has come to its end.
pub open spec fn complete_message(progress: ScrapingProgressView) -> Seq<char> {
    "Scraping complete! Total: "@ + decimal(progress.total) + ", Success: "@ + decimal(
        progress.success_count,
    ) + ", Skipped: "@ + decimal(progress.skip_count) + ", Failed: "@ + decimal(progress.fail_count)
}

/// The event that tells the front end that a run has failed, as JSON text.
pub open spec fn failure_event(error: Seq<char>) -> Seq<char> {
    "{\"message\": \"Scraping failed: "@ + error
        + "\", \"completed\": 0, \"total\": 0, \"success_count\": 0, \"fail_count\": 0, \"skip_count\": 0}"@
}

/// The answer to a request to start a run: only one run is under way at a
/// time.
pub fn start_scraping(scraping: bool) -> (r: ScrapeResponse)
    ensures
        r.success == !scraping,
        r.message@ == if scraping {
            "Scraping already in progress"@
        } else {
            "Scraping started"@
        },
{
    if scraping {
        ScrapeResponse { success: false, message: String::from_str("Scraping already in progress") }
    } else {
        ScrapeResponse { success: true, message: String::from_str("Scraping started") }
    }
}

/// The answer to a request to stop the run: there must be one under way.
pub fn stop_scraping(scraping: bool) -> (r: ScrapeResponse)
    ensures
        r.success == scraping,
        r.message@ == if scraping {
            "Scraping cancelled"@
        } else {
            "No scraping in progress"@
        },
{
    if scraping {
        ScrapeResponse { success: true, message: String::from_str("Scraping cancelled") }
    } else {
        ScrapeResponse { success: false, message: String::from_str("No scraping in progress") }
    }
}

/// The answer to a request to work below `roms_path`: while a run is under
/// way nothing changes; else the state that was loaded from there is taken
/// over.
pub fn save_settings(scraping: bool, roms_path: &str, loaded: ScrapingState) -> (r:
    SaveSettingsResponse)
    ensures
        r.success == !scraping,
        r.message@ == if scraping {
            "Cannot change settings while scraping is in progress"@
        } else {
            "Settings saved. Loaded state from "@ + roms_path@
        },
        r.state@ == if scraping {
            ScrapingStateView::initial()
        } else {
            loaded@
        },
{
    if scraping {
        SaveSettingsResponse {
            success: false,
            message: String::from_str("Cannot change settings while scraping is in progress"),
            state: ScrapingState::default(),
        }
    } else {
        let mut message = String::from_str("Settings saved. Loaded state from ");
        push_text(&mut message, roms_path);
        SaveSettingsResponse { success: true, message, state: loaded }
    }
}

/// Whether a run can start: at least one provider must be configured.
pub fn has_scrapers(metadata_backends: usize, guide_backends: usize) -> (r: Result<(), String>)
    ensures
        match r {
            Ok(_) => metadata_backends > 0 || guide_backends > 0,
            Err(message) => metadata_backends == 0 && guide_backends == 0 && message@
                == "No scrapers configured. Please enable at least one metadata backend or guide backend."@,
        },
{
    if metadata_backends == 0 && guide_backends == 0 {
        Err(
            String::from_str(
                "No scrapers configured. Please enable at least one metadata backend or guide backend.",
            ),
        )
    } else {
        Ok(())
    }
}

/// The message of a run that has come to its end.
pub fn run_complete_message(progress: &ScrapingProgress) -> (r: String)
    ensures
        r@ == complete_message(progress@),
{
    let mut message = String::from_str("Scraping complete! Total: ");
    push_text(&mut message, decimal_of_usize(progress.total).as_str());
    push_text(&mut message, ", Success: ");
    push_text(&mut message, decimal_of_usize(progress.success_count).as_str());
    push_text(&mut message, ", Skipped: ");
    push_text(&mut message, decimal_of_usize(progress.skip_count).as_str());
    push_text(&mut message, ", Failed: ");
    push_text(&mut message, decimal_of_usize(progress.fail_count).as_str());
    message
}

/// The event that tells the front end that a run has failed.
pub fn run_failed_event(error: &str) -> (r: String)
    ensures
        r@ == failure_event(error@),
{
    let mut event = String::from_str("{\"message\": \"Scraping failed: ");
    push_text(&mut event, error);
    push_text(
        &mut event,
        "\", \"completed\": 0, \"total\": 0, \"success_count\": 0, \"fail_count\": 0, \"skip_count\": 0}",
    );
    event
}

/// The state that the front end is shown: the live one while a run is under
/// way, else the one that was loaded from the ROM directory.
pub fn get_state(scraping: bool, live: &ScrapingState, loaded: ScrapingState) -> (r: ScrapingState)
    ensures
        r@ == if scraping {
            live@
        } else {
            loaded@
        },
{
    if scraping {
        live.duplicate()
    } else {
        loaded
    }
}

} // verus!
