//! Per-provider exponential backoff: the first pause after a rate limit is one
//! second, each further one doubles, none is longer than five minutes, and a
//! success forgets the provider.

use vstd::prelude::*;
use crate::progress::{progress_update, ProgressUpdate, ProgressUpdateView, ScrapingProgress};
use crate::text::{decimal, decimal_string, push_text, same_text};

verus! {

/// The first pause of a provider, in seconds.
pub const INITIAL_INTERVAL_SECS: u64 = 1;

/// The longest pause, in seconds.
pub const MAX_INTERVAL_SECS: u64 = 300;

/// The pause that follows a pause of `current` seconds.
pub open spec fn next_interval(current: nat) -> nat {
    if 2 * current <= MAX_INTERVAL_SECS as nat {
        2 * current
    } else {
        MAX_INTERVAL_SECS as nat
    }
}

/// The pause for the `k`-th rate limit in a row, counted from zero, of a
/// provider without earlier state.
pub open spec fn schedule(k: nat) -> nat
    decreases k,
{
    if k == 0 {
        INITIAL_INTERVAL_SECS as nat
    } else {
        next_interval(schedule((k - 1) as nat))
    }
}

/// The pause that the next rate limit of `name` gets under `backoff`: the
/// recorded one, or the first pause for a provider without a record.
pub open spec fn wait_of(backoff: Map<Seq<char>, nat>, name: Seq<char>) -> nat {
    if backoff.contains_key(name) {
        backoff[name]
    } else {
        INITIAL_INTERVAL_SECS as nat
    }
}

/// The message that announces a pause.
pub open spec fn pause_message(secs: nat, scraper_name: Seq<char>) -> Seq<char> {
    "Pausing for "@ + decimal(secs) + "s (rate limited by "@ + scraper_name + ")"@
}

/// The state of one provider: the pause that its next rate limit will get.
struct BackoffEntry {
    name: String,
    current_interval: u64,
}

/// Whether an entry for `name` stands in `entries`.
spec fn has_entry(entries: Seq<BackoffEntry>, name: Seq<char>) -> bool {
    exists|i: int| 0 <= i < entries.len() && #[trigger] entries[i].name@ == name
}

/// The place of the entry for `name`.
spec fn entry_index(entries: Seq<BackoffEntry>, name: Seq<char>) -> int {
    choose|i: int| 0 <= i < entries.len() && #[trigger] entries[i].name@ == name
}

/// The pauses that `entries` holds, by provider.
spec fn entries_map(entries: Seq<BackoffEntry>) -> Map<Seq<char>, nat> {
    Map::new(
        |name: Seq<char>| has_entry(entries, name),
        |name: Seq<char>| entries[entry_index(entries, name)].current_interval as nat,
    )
}

/// Tracks the backoff of each provider that was rate limited since its last
/// success.
pub struct BackoffState {
    scrapers: Vec<BackoffEntry>,
}

impl View for BackoffState {
    type V = Map<Seq<char>, nat>;

    closed spec fn view(&self) -> Map<Seq<char>, nat> {
        entries_map(self.scrapers@)
    }
}

impl BackoffState {
    /// No provider has two entries, and every pause lies between the first
    /// and the longest.
    pub closed spec fn wf(&self) -> bool {
        &&& forall|i: int, j: int|
            0 <= i < j < self.scrapers@.len() ==> #[trigger] self.scrapers@[i].name@
                != #[trigger] self.scrapers@[j].name@
        &&& forall|i: int|
            0 <= i < self.scrapers@.len() ==> INITIAL_INTERVAL_SECS <= (
            #[trigger] self.scrapers@[i]).current_interval <= MAX_INTERVAL_SECS
    }

    /// The pause that the next rate limit of `name` gets.
    pub open spec fn next_wait(&self, name: Seq<char>) -> nat {
        wait_of(self@, name)
    }

    /// Every recorded pause lies between the first and the longest.
    pub proof fn lemma_bounds(&self, name: Seq<char>)
        requires
            self.wf(),
        ensures
            INITIAL_INTERVAL_SECS <= self.next_wait(name) <= MAX_INTERVAL_SECS,
    {
        if self@.contains_key(name) {
            let i = entry_index(self.scrapers@, name);
            assert(self.scrapers@[i].current_interval >= INITIAL_INTERVAL_SECS);
        }
    }

    /// A state that knows no provider.
    pub fn new() -> (r: BackoffState)
        ensures
            r.wf(),
            r@ == Map::<Seq<char>, nat>::empty(),
    {
        let r = BackoffState { scrapers: Vec::new() };
        assert(r@ =~= Map::<Seq<char>, nat>::empty());
        r
    }

    /// The place of the entry for `scraper_name`, if there is one.
    fn find(&self, scraper_name: &str) -> (r: Option<usize>)
        requires
            self.wf(),
        ensures
            match r {
                Some(i) => i < self.scrapers@.len() && self.scrapers@[i as int].name@
                    == scraper_name@ && self@.contains_key(scraper_name@) && self@[scraper_name@]
                    == self.scrapers@[i as int].current_interval,
                None => !self@.contains_key(scraper_name@) && forall|j: int|
                    0 <= j < self.scrapers@.len() ==> (#[trigger] self.scrapers@[j]).name@
                        != scraper_name@,
            },
    {
        let mut i: usize = 0;
        while i < self.scrapers.len()
            invariant
                self.wf(),
                i <= self.scrapers@.len(),
                forall|j: int| 0 <= j < i ==> (#[trigger] self.scrapers@[j]).name@ != scraper_name@,
            decreases self.scrapers@.len() - i,
        {
            if same_text(self.scrapers[i].name.as_str(), scraper_name) {
                proof {
                    let k = entry_index(self.scrapers@, scraper_name@);
                    assert(self.scrapers@[i as int].name@ == scraper_name@);
                    assert(k == i);
                }
                return Some(i);
            }
            i += 1;
        }
        None
    }

    /// The place of the entry for `scraper_name`, which is made with the
    /// first pause where the provider has none.
    fn get_backoff(&mut self, scraper_name: &str) -> (i: usize)
        requires
            old(self).wf(),
        ensures
            final(self).wf(),
            i < final(self).scrapers@.len(),
            final(self).scrapers@[i as int].name@ == scraper_name@,
            final(self).scrapers@[i as int].current_interval == old(self).next_wait(
                scraper_name@,
            ),
            final(self)@ == old(self)@.insert(scraper_name@, old(self).next_wait(scraper_name@)),
    {
        match self.find(scraper_name) {
            Some(i) => {
                assert(self@ =~= old(self)@.insert(
                    scraper_name@,
                    old(self).next_wait(scraper_name@),
                ));
                i
            },
            None => {
                let ghost before = self.scrapers@;
                self.scrapers.push(
                    BackoffEntry {
                        name: String::from_str(scraper_name),
                        current_interval: INITIAL_INTERVAL_SECS,
                    },
                );
                let i = self.scrapers.len() - 1;
                proof {
                    let after = self.scrapers@;
                    assert(after == before.push(after[i as int]));
                    assert forall|name: Seq<char>| has_entry(after, name) <==> (has_entry(
                        before,
                        name,
                    ) || name == scraper_name@) by {
                        if has_entry(before, name) {
                            let k = entry_index(before, name);
                            assert(after[k].name@ == name);
                        }
                        if name == scraper_name@ {
                            assert(after[i as int].name@ == name);
                        }
                    }
                    assert forall|name: Seq<char>| has_entry(before, name) implies after[entry_index(
                        after,
                        name,
                    )].current_interval == before[entry_index(before, name)].current_interval by {
                        let k = entry_index(before, name);
                        assert(after[k].name@ == name);
                        let m = entry_index(after, name);
                        assert(m == k);
                    }
                    assert(self@ =~= old(self)@.insert(
                        scraper_name@,
                        old(self).next_wait(scraper_name@),
                    ));
                }
                i
            },
        }
    }

    /// Takes the next pause of a provider that has just signalled a rate
    /// limit: returns its length in seconds, and lengthens the pause that
    /// follows. The caller waits that long before it goes on.
    pub fn next_backoff(&mut self, scraper_name: &str) -> (secs: u64)
        requires
            old(self).wf(),
        ensures
            final(self).wf(),
            secs == old(self).next_wait(scraper_name@),
            INITIAL_INTERVAL_SECS <= secs <= MAX_INTERVAL_SECS,
            final(self)@ == old(self)@.insert(scraper_name@, next_interval(secs as nat)),
            final(self).next_wait(scraper_name@) == next_interval(secs as nat),
            secs <= final(self).next_wait(scraper_name@) <= MAX_INTERVAL_SECS,
    {
        let i = self.get_backoff(scraper_name);
        let ghost mid = *self;
        let secs = self.scrapers[i].current_interval;
        let next = if secs >= MAX_INTERVAL_SECS / 2 {
            MAX_INTERVAL_SECS
        } else {
            secs * 2
        };
        let name = self.scrapers[i].name.clone();
        self.scrapers.set(i, BackoffEntry { name, current_interval: next });
        proof {
            let before = mid.scrapers@;
            let after = self.scrapers@;
            assert(next == next_interval(secs as nat));
            assert forall|k: int| 0 <= k < after.len() implies (#[trigger] after[k]).name@
                == before[k].name@ by {}
            assert forall|name: Seq<char>| has_entry(after, name) <==> has_entry(before, name) by {
                if has_entry(before, name) {
                    let k = entry_index(before, name);
                    assert(after[k].name@ == name);
                }
                if has_entry(after, name) {
                    let k = entry_index(after, name);
                    assert(before[k].name@ == name);
                }
            }
            assert forall|name: Seq<char>| has_entry(before, name) implies entry_index(after, name)
                == entry_index(before, name) by {
                let k = entry_index(before, name);
                assert(after[k].name@ == name);
                let m = entry_index(after, name);
                assert(before[m].name@ == name);
            }
            assert(has_entry(before, scraper_name@));
            assert(entry_index(before, scraper_name@) == i);
            assert(self@ =~= mid@.insert(scraper_name@, next_interval(secs as nat)));
            assert(self@ =~= old(self)@.insert(scraper_name@, next_interval(secs as nat)));
        }
        secs
    }

    /// Takes the next pause of a rate-limited provider and words the event
    /// that announces it. The caller publishes the event and waits for the
    /// returned number of seconds.
    pub fn apply_backoff(&mut self, scraper_name: &str, progress: &ScrapingProgress) -> (r: (
        u64,
        ProgressUpdate,
    ))
        requires
            old(self).wf(),
        ensures
            final(self).wf(),
            r.0 == old(self).next_wait(scraper_name@),
            INITIAL_INTERVAL_SECS <= r.0 <= MAX_INTERVAL_SECS,
            final(self)@ == old(self)@.insert(scraper_name@, next_interval(r.0 as nat)),
            r.1@ == (ProgressUpdateView {
                progress: progress@,
                message: pause_message(r.0 as nat, scraper_name@),
                game_update: None,
            }),
    {
        let secs = self.next_backoff(scraper_name);
        let mut message = String::from_str("Pausing for ");
        push_text(&mut message, decimal_string(secs).as_str());
        push_text(&mut message, "s (rate limited by ");
        push_text(&mut message, scraper_name);
        push_text(&mut message, ")");
        (secs, progress_update(progress, message, None))
    }

    /// Forgets a provider after a successful request: its next rate limit
    /// starts again from the first pause.
    pub fn reset(&mut self, scraper_name: &str)
        requires
            old(self).wf(),
        ensures
            final(self).wf(),
            final(self)@ == old(self)@.remove(scraper_name@),
            final(self).next_wait(scraper_name@) == INITIAL_INTERVAL_SECS,
    {
        match self.find(scraper_name) {
            Some(i) => {
                let ghost before = self.scrapers@;
                self.scrapers.remove(i);
                proof {
                    let after = self.scrapers@;
                    assert(after =~= before.remove(i as int));
                    assert forall|k: int| 0 <= k < after.len() implies #[trigger] after[k] == before[if k
                        < i {
                        k
                    } else {
                        k + 1
                    }] by {}
                    assert forall|name: Seq<char>| has_entry(after, name) <==> (has_entry(
                        before,
                        name,
                    ) && name != scraper_name@) by {
                        if has_entry(before, name) && name != scraper_name@ {
                            let k = entry_index(before, name);
                            if k < i {
                                assert(after[k].name@ == name);
                            } else {
                                assert(after[k - 1].name@ == name);
                            }
                        }
                        if has_entry(after, name) {
                            let k = entry_index(after, name);
                            let b = if k < i {
                                k
                            } else {
                                k + 1
                            };
                            assert(before[b].name@ == name);
                        }
                    }
                    assert forall|name: Seq<char>| has_entry(after, name) implies after[entry_index(
                        after,
                        name,
                    )].current_interval == before[entry_index(before, name)].current_interval by {
                        let k = entry_index(after, name);
                        let b = if k < i {
                            k
                        } else {
                            k + 1
                        };
                        assert(before[b].name@ == name);
                        let m = entry_index(before, name);
                        assert(m == b);
                    }
                    assert(self@ =~= old(self)@.remove(scraper_name@));
                }
            },
            None => {
                assert(self@ =~= old(self)@.remove(scraper_name@));
            },
        }
    }
}

impl Default for BackoffState {
    fn default() -> (r: BackoffState)
        ensures
            r.wf(),
            r@ == Map::<Seq<char>, nat>::empty(),
    {
        BackoffState::new()
    }
}

/// Each pause is at least as long as the one before it, and none is longer
/// than the longest.
pub proof fn lemma_next_interval_non_decreasing(current: nat)
    requires
        current <= MAX_INTERVAL_SECS,
    ensures
        current <= next_interval(current) <= MAX_INTERVAL_SECS,
{
}

/// The pauses of one provider under rate limits in a row never shrink and
/// never pass the longest pause.
pub proof fn lemma_schedule_monotonic(j: nat, k: nat)
    requires
        j <= k,
    ensures
        INITIAL_INTERVAL_SECS <= schedule(j) <= schedule(k) <= MAX_INTERVAL_SECS,
    decreases k,
{
    if k == 0 {
    } else if j == k {
        lemma_schedule_monotonic((k - 1) as nat, (k - 1) as nat);
    } else {
        lemma_schedule_monotonic(j, (k - 1) as nat);
    }
}

/// From the tenth rate limit in a row on, the pause is the longest one.
pub proof fn lemma_schedule_reaches_cap(k: nat)
    requires
        k >= 9,
    ensures
        schedule(k) == MAX_INTERVAL_SECS,
    decreases k,
{
    reveal_with_fuel(schedule, 10);
    if k > 9 {
        lemma_schedule_reaches_cap((k - 1) as nat);
    }
}

/// Rate limits in a row walk the schedule: where the next pause of a provider
/// is the `k`-th of the schedule, taking it leaves the `k + 1`-th as the next.
pub proof fn lemma_backoff_follows_schedule(before: BackoffState, after: BackoffState, name: Seq<
    char,
>, k: nat)
    requires
        before.next_wait(name) == schedule(k),
        after@ == before@.insert(name, next_interval(before.next_wait(name))),
    ensures
        after.next_wait(name) == schedule(k + 1),
        before.next_wait(name) <= after.next_wait(name),
{
    lemma_schedule_monotonic(k, k + 1);
}

/// A success resets the provider: whatever its pause had grown to, its next
/// rate limit gets the first pause again.
pub proof fn lemma_reset_restores_floor(before: BackoffState, after: BackoffState, name: Seq<char>)
    requires
        after@ == before@.remove(name),
    ensures
        after.next_wait(name) == schedule(0),
        forall|other: Seq<char>| other != name ==> after.next_wait(other) == before.next_wait(other),
{
}

/// A rate limit of one provider leaves the pauses of the others as they were.
pub proof fn lemma_backoff_is_per_provider(
    before: BackoffState,
    after: BackoffState,
    name: Seq<char>,
    other: Seq<char>,
)
    requires
        after@ == before@.insert(name, next_interval(before.next_wait(name))),
        other != name,
    ensures
        after.next_wait(other) == before.next_wait(other),
{
}

} // verus!
