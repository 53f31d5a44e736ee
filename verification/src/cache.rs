//! The completion cache: which items are known to have no metadata or no
//! guides, the progress of the last session and its most recent results. The
//! cache is the in-memory image of a directory tree; the paths of that tree
//! are computed here, so that whoever persists the cache puts every fact
//! where it belongs.
//!
//! A fact is kept under the sanitized names of the console and of the item.
//! Sanitizing is not one-to-one: two items whose names differ only in
//! characters that a file name must not hold share a marker, so that marking
//! one marks the other. Names without such characters never collide.

use vstd::prelude::*;
use crate::text::{
    clone_opt, contains_text, join_path, joined, opt_view, push_text, remove_text, sanitize,
    sanitized, text_set,
};

verus! {

/// The number of recent results that the cache keeps.
pub const MAX_CACHED_RESULTS: usize = 10;

/// The progress of a session, as the cache stores it.
#[derive(Debug, Clone)]
pub struct ScrapeProgress {
    pub total: usize,
    pub completed: usize,
    pub success_count: usize,
    pub fail_count: usize,
    pub skip_count: usize,
    pub current_rom: Option<String>,
}

/// The mathematical value of a [`ScrapeProgress`].
pub struct ScrapeProgressView {
    pub total: nat,
    pub completed: nat,
    pub success_count: nat,
    pub fail_count: nat,
    pub skip_count: nat,
    pub current_rom: Option<Seq<char>>,
}

impl View for ScrapeProgress {
    type V = ScrapeProgressView;

    open spec fn view(&self) -> ScrapeProgressView {
        ScrapeProgressView {
            total: self.total as nat,
            completed: self.completed as nat,
            success_count: self.success_count as nat,
            fail_count: self.fail_count as nat,
            skip_count: self.skip_count as nat,
            current_rom: opt_view(self.current_rom),
        }
    }
}

impl ScrapeProgress {
    /// A copy with the same value.
    pub fn duplicate(&self) -> (r: ScrapeProgress)
        ensures
            r@ == self@,
    {
        ScrapeProgress {
            total: self.total,
            completed: self.completed,
            success_count: self.success_count,
            fail_count: self.fail_count,
            skip_count: self.skip_count,
            current_rom: clone_opt(&self.current_rom),
        }
    }
}

/// The value of an optional progress.
pub open spec fn opt_progress_view(o: Option<ScrapeProgress>) -> Option<ScrapeProgressView> {
    match o {
        Some(p) => Some(p@),
        None => None,
    }
}

/// The summary of one item's outcome.
#[derive(Debug, Clone)]
pub struct GameResult {
    pub rom_name: String,
    pub console: String,
    pub metadata_status: String,
    pub guides_status: String,
    pub timestamp: u64,
}

/// The mathematical value of a [`GameResult`].
pub struct GameResultView {
    pub rom_name: Seq<char>,
    pub console: Seq<char>,
    pub metadata_status: Seq<char>,
    pub guides_status: Seq<char>,
    pub timestamp: u64,
}

impl View for GameResult {
    type V = GameResultView;

    open spec fn view(&self) -> GameResultView {
        GameResultView {
            rom_name: self.rom_name@,
            console: self.console@,
            metadata_status: self.metadata_status@,
            guides_status: self.guides_status@,
            timestamp: self.timestamp,
        }
    }
}

impl GameResult {
    /// A copy with the same value.
    pub fn duplicate(&self) -> (r: GameResult)
        ensures
            r@ == self@,
    {
        GameResult {
            rom_name: self.rom_name.clone(),
            console: self.console.clone(),
            metadata_status: self.metadata_status.clone(),
            guides_status: self.guides_status.clone(),
            timestamp: self.timestamp,
        }
    }
}

/// The values of a list of results, in order.
pub open spec fn results_view(v: Seq<GameResult>) -> Seq<GameResultView> {
    Seq::new(v.len(), |i: int| v[i]@)
}

/// The characters that a file name must not hold.
pub open spec fn hostile_chars() -> Seq<char> {
    seq!['/', '\\', ':', '*', '?', '"', '<', '>', '|']
}

/// The name of the marker of an item below the directory of its category:
/// the sanitized console, and in it the sanitized item with `.marker` behind.
pub open spec fn marker_name(console: Seq<char>, rom_name: Seq<char>) -> Seq<char> {
    sanitized(console, hostile_chars()) + "/"@ + sanitized(rom_name, hostile_chars()) + ".marker"@
}

/// The path of the marker of an item below `base_dir`.
pub open spec fn marker_path(base_dir: Seq<char>, console: Seq<char>, rom_name: Seq<char>) -> Seq<
    char,
> {
    joined(
        joined(base_dir, sanitized(console, hostile_chars())),
        sanitized(rom_name, hostile_chars()) + ".marker"@,
    )
}

/// The recent results after `result` was added to `results`: the new one
/// comes first, and of the older ones as many stay as the bound leaves room
/// for.
pub open spec fn with_result<A>(results: Seq<A>, result: A) -> Seq<A> {
    if results.len() < MAX_CACHED_RESULTS {
        seq![result] + results
    } else {
        seq![result] + results.take(MAX_CACHED_RESULTS - 1)
    }
}

/// The completion cache below one directory.
#[derive(Debug)]
pub struct ScrapeCache {
    pub cache_dir: String,
    metadata_markers: Vec<String>,
    guides_markers: Vec<String>,
    progress: Option<ScrapeProgress>,
    results: Vec<GameResult>,
}

/// The mathematical value of a [`ScrapeCache`].
pub struct ScrapeCacheView {
    /// The directory of the cache.
    pub cache_dir: Seq<char>,
    /// The names of the markers that stand for "no metadata found".
    pub metadata_markers: Set<Seq<char>>,
    /// The names of the markers that stand for "no guides found".
    pub guides_markers: Set<Seq<char>>,
    /// The stored progress of the last session.
    pub progress: Option<ScrapeProgressView>,
    /// The recent results, newest first.
    pub results: Seq<GameResultView>,
}

impl ScrapeCacheView {
    /// Whether the item is marked as having no metadata.
    pub open spec fn metadata_failed(self, console: Seq<char>, rom_name: Seq<char>) -> bool {
        self.metadata_markers.contains(marker_name(console, rom_name))
    }

    /// Whether the item is marked as having no guides.
    pub open spec fn guides_failed(self, console: Seq<char>, rom_name: Seq<char>) -> bool {
        self.guides_markers.contains(marker_name(console, rom_name))
    }

    /// A cache without facts below `cache_dir`.
    pub open spec fn empty(cache_dir: Seq<char>) -> ScrapeCacheView {
        ScrapeCacheView {
            cache_dir,
            metadata_markers: Set::empty(),
            guides_markers: Set::empty(),
            progress: None,
            results: Seq::empty(),
        }
    }
}

impl View for ScrapeCache {
    type V = ScrapeCacheView;

    closed spec fn view(&self) -> ScrapeCacheView {
        ScrapeCacheView {
            cache_dir: self.cache_dir@,
            metadata_markers: text_set(self.metadata_markers@),
            guides_markers: text_set(self.guides_markers@),
            progress: opt_progress_view(self.progress),
            results: results_view(self.results@),
        }
    }
}

/// The characters that a file name must not hold.
fn hostile() -> (r: Vec<char>)
    ensures
        r@ == hostile_chars(),
{
    let r = vec!['/', '\\', ':', '*', '?', '"', '<', '>', '|'];
    assert(r@ =~= hostile_chars());
    r
}

/// The name of the marker of an item below the directory of its category.
fn marker_name_of(console: &str, rom_name: &str) -> (r: String)
    ensures
        r@ == marker_name(console@, rom_name@),
{
    let bad = hostile();
    let mut r = sanitize(console, &bad);
    push_text(&mut r, "/");
    push_text(&mut r, sanitize(rom_name, &bad).as_str());
    push_text(&mut r, ".marker");
    r
}

impl ScrapeCache {
    /// The cache of a ROM directory, in its usual place; nothing is known
    /// yet.
    pub fn new(roms_dir: &str) -> (r: ScrapeCache)
        ensures
            r@ == ScrapeCacheView::empty(joined(joined(roms_dir@, ".collie"@), "cache"@)),
    {
        ScrapeCache::with_cache_dir(ScrapeCache::default_cache_dir(roms_dir))
    }

    /// A cache below `cache_dir`; nothing is known yet.
    pub fn with_cache_dir(cache_dir: String) -> (r: ScrapeCache)
        ensures
            r@ == ScrapeCacheView::empty(cache_dir@),
    {
        let r = ScrapeCache {
            cache_dir,
            metadata_markers: Vec::new(),
            guides_markers: Vec::new(),
            progress: None,
            results: Vec::new(),
        };
        assert(r@.metadata_markers =~= Set::empty());
        assert(r@.guides_markers =~= Set::empty());
        assert(r@.results =~= Seq::empty());
        r
    }

    /// The directory of the markers for "no metadata found".
    pub fn metadata_dir(&self) -> (r: String)
        ensures
            r@ == joined(self@.cache_dir, "metadata_not_found"@),
    {
        join_path(self.cache_dir.as_str(), "metadata_not_found")
    }

    /// The directory of the markers for "no guides found".
    pub fn guides_dir(&self) -> (r: String)
        ensures
            r@ == joined(self@.cache_dir, "guides_not_found"@),
    {
        join_path(self.cache_dir.as_str(), "guides_not_found")
    }

    /// The file of the stored progress.
    pub fn progress_file(&self) -> (r: String)
        ensures
            r@ == joined(self@.cache_dir, "progress.json"@),
    {
        join_path(self.cache_dir.as_str(), "progress.json")
    }

    /// The file of the recent results.
    pub fn results_file(&self) -> (r: String)
        ensures
            r@ == joined(self@.cache_dir, "results.json"@),
    {
        join_path(self.cache_dir.as_str(), "results.json")
    }

    /// The path of the marker of an item below `base_dir`: the names of the
    /// console and of the item are sanitized first.
    pub fn get_cache_file_path(&self, base_dir: &str, console: &str, rom_name: &str) -> (r: String)
        ensures
            r@ == marker_path(base_dir@, console@, rom_name@),
    {
        let bad = hostile();
        let console_safe = sanitize(console, &bad);
        let mut file = sanitize(rom_name, &bad);
        push_text(&mut file, ".marker");
        let dir = join_path(base_dir, console_safe.as_str());
        join_path(dir.as_str(), file.as_str())
    }

    /// Whether the item is marked as having no metadata.
    pub fn has_metadata_failed(&self, console: &str, rom_name: &str) -> (r: bool)
        ensures
            r == self@.metadata_failed(console@, rom_name@),
    {
        let name = marker_name_of(console, rom_name);
        contains_text(&self.metadata_markers, name.as_str())
    }

    /// Whether the item is marked as having no guides.
    pub fn has_guides_failed(&self, console: &str, rom_name: &str) -> (r: bool)
        ensures
            r == self@.guides_failed(console@, rom_name@),
    {
        let name = marker_name_of(console, rom_name);
        contains_text(&self.guides_markers, name.as_str())
    }

    /// Marks the item as having no metadata. Nothing else changes.
    pub fn mark_metadata_not_found(&mut self, console: &str, rom_name: &str)
        ensures
            final(self)@ == (ScrapeCacheView {
                metadata_markers: old(self)@.metadata_markers.insert(
                    marker_name(console@, rom_name@),
                ),
                ..old(self)@
            }),
            final(self)@.metadata_failed(console@, rom_name@),
    {
        let name = marker_name_of(console, rom_name);
        if !contains_text(&self.metadata_markers, name.as_str()) {
            let ghost before = self.metadata_markers@;
            self.metadata_markers.push(name);
            proof {
                lemma_text_set_push(before, self.metadata_markers@);
            }
        }
        assert(self@.metadata_markers =~= old(self)@.metadata_markers.insert(
            marker_name(console@, rom_name@),
        ));
    }

    /// Marks the item as having no guides. Nothing else changes.
    pub fn mark_guides_not_found(&mut self, console: &str, rom_name: &str)
        ensures
            final(self)@ == (ScrapeCacheView {
                guides_markers: old(self)@.guides_markers.insert(marker_name(console@, rom_name@)),
                ..old(self)@
            }),
            final(self)@.guides_failed(console@, rom_name@),
    {
        let name = marker_name_of(console, rom_name);
        if !contains_text(&self.guides_markers, name.as_str()) {
            let ghost before = self.guides_markers@;
            self.guides_markers.push(name);
            proof {
                lemma_text_set_push(before, self.guides_markers@);
            }
        }
        assert(self@.guides_markers =~= old(self)@.guides_markers.insert(
            marker_name(console@, rom_name@),
        ));
    }

    /// Takes back the mark "no metadata" of the item. Nothing else changes.
    pub fn clear_metadata_failed(&mut self, console: &str, rom_name: &str)
        ensures
            final(self)@ == (ScrapeCacheView {
                metadata_markers: old(self)@.metadata_markers.remove(
                    marker_name(console@, rom_name@),
                ),
                ..old(self)@
            }),
            !final(self)@.metadata_failed(console@, rom_name@),
    {
        let name = marker_name_of(console, rom_name);
        remove_text(&mut self.metadata_markers, name.as_str());
    }

    /// Takes back the mark "no guides" of the item. Nothing else changes.
    pub fn clear_guides_failed(&mut self, console: &str, rom_name: &str)
        ensures
            final(self)@ == (ScrapeCacheView {
                guides_markers: old(self)@.guides_markers.remove(marker_name(console@, rom_name@)),
                ..old(self)@
            }),
            !final(self)@.guides_failed(console@, rom_name@),
    {
        let name = marker_name_of(console, rom_name);
        remove_text(&mut self.guides_markers, name.as_str());
    }

    /// Stores the progress of the session in place of what was stored.
    pub fn save_progress(&mut self, progress: &ScrapeProgress)
        ensures
            final(self)@ == (ScrapeCacheView { progress: Some(progress@), ..old(self)@ }),
    {
        self.progress = Some(progress.duplicate());
    }

    /// The stored progress, if there is one.
    pub fn load_progress(&self) -> (r: Option<ScrapeProgress>)
        ensures
            opt_progress_view(r) == self@.progress,
    {
        match &self.progress {
            Some(p) => Some(p.duplicate()),
            None => None,
        }
    }

    /// Adds a result in front of the recent ones and drops the oldest where
    /// the bound would be passed.
    pub fn add_result(&mut self, result: GameResult)
        ensures
            final(self)@ == (ScrapeCacheView {
                results: with_result(old(self)@.results, result@),
                ..old(self)@
            }),
            final(self)@.results.len() <= MAX_CACHED_RESULTS,
            final(self)@.results[0] == result@,
    {
        self.results.insert(0, result);
        self.results.truncate(MAX_CACHED_RESULTS);
        assert(self@.results =~= with_result(old(self)@.results, result@));
    }

    /// The recent results, newest first.
    pub fn load_results(&self) -> (r: Vec<GameResult>)
        ensures
            results_view(r@) == self@.results,
    {
        let mut r: Vec<GameResult> = Vec::new();
        let mut i: usize = 0;
        while i < self.results.len()
            invariant
                i <= self.results@.len(),
                r@.len() == i,
                results_view(r@) == results_view(self.results@).take(i as int),
            decreases self.results@.len() - i,
        {
            let ghost before = r@;
            r.push(self.results[i].duplicate());
            proof {
                let all = results_view(self.results@);
                assert(r@.len() == i + 1);
                assert forall|k: int| 0 <= k < i + 1 implies results_view(r@)[k] == all.take(
                    i + 1,
                )[k] by {
                    if k < i {
                        assert(r@[k] == before[k]);
                        assert(results_view(before)[k] == all.take(i as int)[k]);
                    }
                }
                assert(results_view(r@) =~= all.take(i + 1));
            }
            i += 1;
        }
        assert(results_view(r@) =~= results_view(self.results@));
        r
    }

    /// Forgets the stored progress and the recent results; the markers
    /// stay.
    pub fn clear_session_cache(&mut self)
        ensures
            final(self)@ == (ScrapeCacheView {
                progress: None,
                results: Seq::empty(),
                ..old(self)@
            }),
    {
        self.progress = None;
        self.results = Vec::new();
        assert(self@.results =~= Seq::empty());
    }

    /// Forgets everything.
    pub fn clear_all(&mut self)
        ensures
            final(self)@ == ScrapeCacheView::empty(old(self)@.cache_dir),
    {
        self.metadata_markers = Vec::new();
        self.guides_markers = Vec::new();
        self.progress = None;
        self.results = Vec::new();
        assert(self@.metadata_markers =~= Set::empty());
        assert(self@.guides_markers =~= Set::empty());
        assert(self@.results =~= Seq::empty());
    }

    /// The usual place of the cache of a ROM directory.
    pub fn default_cache_dir(roms_dir: &str) -> (r: String)
        ensures
            r@ == joined(joined(roms_dir@, ".collie"@), "cache"@),
    {
        let collie = join_path(roms_dir, ".collie");
        join_path(collie.as_str(), "cache")
    }
}

/// The set of texts after one string was appended.
proof fn lemma_text_set_push(before: Seq<String>, after: Seq<String>)
    requires
        after.len() == before.len() + 1,
        forall|i: int| 0 <= i < before.len() ==> after[i] == before[i],
    ensures
        text_set(after) == text_set(before).insert(after.last()@),
{
    assert forall|t: Seq<char>| text_set(after).contains(t) <==> text_set(before).insert(
        after.last()@,
    ).contains(t) by {
        if text_set(after).contains(t) {
            let i = choose|i: int| 0 <= i < after.len() && #[trigger] after[i]@ == t;
            if i < before.len() {
                assert(before[i]@ == t);
            }
        }
        if text_set(before).contains(t) {
            let i = choose|i: int| 0 <= i < before.len() && #[trigger] before[i]@ == t;
            assert(after[i]@ == t);
        }
        if t == after.last()@ {
            assert(after[after.len() - 1]@ == t);
        }
    }
    assert(text_set(after) =~= text_set(before).insert(after.last()@));
}

/// The two categories are apart: a mark in one never shows in the other.
pub proof fn lemma_marks_stay_in_their_category(
    cache: ScrapeCacheView,
    console: Seq<char>,
    rom_name: Seq<char>,
    other_console: Seq<char>,
    other_rom: Seq<char>,
)
    ensures
        (ScrapeCacheView {
            metadata_markers: cache.metadata_markers.insert(marker_name(console, rom_name)),
            ..cache
        }).guides_failed(other_console, other_rom) == cache.guides_failed(other_console, other_rom),
        (ScrapeCacheView {
            guides_markers: cache.guides_markers.insert(marker_name(console, rom_name)),
            ..cache
        }).metadata_failed(other_console, other_rom) == cache.metadata_failed(
            other_console,
            other_rom,
        ),
{
}

/// Marking and then clearing an item leaves it unmarked, and clearing it does
/// not touch an item with another marker name.
pub proof fn lemma_clear_undoes_mark(
    markers: Set<Seq<char>>,
    console: Seq<char>,
    rom_name: Seq<char>,
    other_console: Seq<char>,
    other_rom: Seq<char>,
)
    requires
        marker_name(other_console, other_rom) != marker_name(console, rom_name),
    ensures
        !markers.insert(marker_name(console, rom_name)).remove(
            marker_name(console, rom_name),
        ).contains(marker_name(console, rom_name)),
        markers.insert(marker_name(console, rom_name)).remove(
            marker_name(console, rom_name),
        ).contains(marker_name(other_console, other_rom)) == markers.contains(
            marker_name(other_console, other_rom),
        ),
{
}

/// Names without hostile characters never share a marker: two items whose
/// console and item names are clean have the same marker name only if they
/// are the same item.
pub proof fn lemma_clean_names_do_not_collide(
    console: Seq<char>,
    rom_name: Seq<char>,
    other_console: Seq<char>,
    other_rom: Seq<char>,
)
    requires
        forall|i: int| 0 <= i < console.len() ==> !hostile_chars().contains(console[i]),
        forall|i: int| 0 <= i < rom_name.len() ==> !hostile_chars().contains(rom_name[i]),
        forall|i: int| 0 <= i < other_console.len() ==> !hostile_chars().contains(other_console[i]),
        forall|i: int| 0 <= i < other_rom.len() ==> !hostile_chars().contains(other_rom[i]),
        marker_name(console, rom_name) == marker_name(other_console, other_rom),
    ensures
        console == other_console,
        rom_name == other_rom,
{
    reveal_strlit("/");
    reveal_strlit(".marker");
    let bad = hostile_chars();
    crate::text::lemma_sanitized_clean(console, bad);
    crate::text::lemma_sanitized_clean(rom_name, bad);
    crate::text::lemma_sanitized_clean(other_console, bad);
    crate::text::lemma_sanitized_clean(other_rom, bad);
    let a = marker_name(console, rom_name);
    let b = marker_name(other_console, other_rom);
    assert(bad.contains('/')) by {
        assert(bad[0] == '/');
    }
    assert(a.len() == console.len() + 1 + rom_name.len() + 7);
    assert(b.len() == other_console.len() + 1 + other_rom.len() + 7);
    if console.len() < other_console.len() {
        assert(a[console.len() as int] == '/');
        assert(b[console.len() as int] == other_console[console.len() as int]);
        assert(false);
    }
    if other_console.len() < console.len() {
        assert(b[other_console.len() as int] == '/');
        assert(a[other_console.len() as int] == console[other_console.len() as int]);
        assert(false);
    }
    assert(console =~= other_console) by {
        assert forall|i: int| 0 <= i < console.len() implies console[i] == other_console[i] by {
            assert(a[i] == console[i]);
            assert(b[i] == other_console[i]);
        }
    }
    assert(rom_name =~= other_rom) by {
        assert forall|i: int| 0 <= i < rom_name.len() implies rom_name[i] == other_rom[i] by {
            assert(a[console.len() + 1 + i] == rom_name[i]);
            assert(b[console.len() + 1 + i] == other_rom[i]);
        }
    }
}

/// The recent results after each of `added` was added in turn, the first of
/// them first.
pub open spec fn with_results<A>(results: Seq<A>, added: Seq<A>) -> Seq<A>
    decreases added.len(),
{
    if added.len() == 0 {
        results
    } else {
        with_result(with_results(results, added.drop_last()), added.last())
    }
}

/// The history is bounded and ordered: after any number of additions no more
/// results are kept than the bound allows, the newest comes first, the ones
/// added before follow from newer to older, behind them stand the results
/// that were there before, and what does not fit is dropped from the old end.
pub proof fn lemma_history_bounded<A>(results: Seq<A>, added: Seq<A>)
    requires
        results.len() <= MAX_CACHED_RESULTS,
    ensures
        with_results(results, added).len() == if results.len() + added.len() <= MAX_CACHED_RESULTS {
            results.len() + added.len()
        } else {
            MAX_CACHED_RESULTS as nat
        },
        forall|i: int|
            0 <= i < added.len() && i < MAX_CACHED_RESULTS ==> with_results(results, added)[i]
                == added[added.len() - 1 - i],
        forall|i: int|
            added.len() <= i < with_results(results, added).len() ==> with_results(
                results,
                added,
            )[i] == results[i - added.len()],
    decreases added.len(),
{
    if added.len() > 0 {
        let front = added.drop_last();
        lemma_history_bounded(results, front);
        let before = with_results(results, front);
        let after = with_results(results, added);
        assert(after == with_result(before, added.last()));
        assert forall|i: int| 0 <= i < added.len() && i < MAX_CACHED_RESULTS implies after[i]
            == added[added.len() - 1 - i] by {
            if i > 0 {
                assert(after[i] == before[i - 1]);
                assert(before[i - 1] == front[front.len() - 1 - (i - 1)]);
            }
        }
        assert forall|i: int| added.len() <= i < after.len() implies after[i] == results[i
            - added.len()] by {
            assert(after[i] == before[i - 1]);
        }
    }
}

} // verus!
