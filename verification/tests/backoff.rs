use collie::backoff::BackoffState;
use collie::progress::ScrapingProgress;

fn progress() -> ScrapingProgress {
    ScrapingProgress {
        total: 7,
        completed: 2,
        current_rom: Some("game.gba".to_string()),
        success_count: 1,
        fail_count: 1,
        skip_count: 0,
    }
}

#[test]
fn backoff_doubles_up_to_the_cap() {
    let mut backoff = BackoffState::new();
    let waits: Vec<u64> = (0..12).map(|_| backoff.next_backoff("ScreenScraper")).collect();
    assert_eq!(waits, vec![1, 2, 4, 8, 16, 32, 64, 128, 256, 300, 300, 300]);
}

#[test]
fn backoff_never_decreases() {
    let mut backoff = BackoffState::new();
    let mut last = 0;
    for _ in 0..40 {
        let wait = backoff.next_backoff("TheGamesDB");
        assert!(wait >= last);
        assert!(wait <= 300);
        last = wait;
    }
    assert_eq!(last, 300);
}

#[test]
fn success_resets_the_next_wait_to_the_floor() {
    let mut backoff = BackoffState::new();
    assert_eq!(backoff.next_backoff("ScreenScraper"), 1);
    assert_eq!(backoff.next_backoff("ScreenScraper"), 2);
    assert_eq!(backoff.next_backoff("ScreenScraper"), 4);
    backoff.reset("ScreenScraper");
    assert_eq!(backoff.next_backoff("ScreenScraper"), 1);
    assert_eq!(backoff.next_backoff("ScreenScraper"), 2);
}

#[test]
fn backoff_is_kept_per_provider() {
    let mut backoff = BackoffState::default();
    assert_eq!(backoff.next_backoff("ScreenScraper"), 1);
    assert_eq!(backoff.next_backoff("ScreenScraper"), 2);
    assert_eq!(backoff.next_backoff("TheGamesDB"), 1);
    assert_eq!(backoff.next_backoff("ScreenScraper"), 4);
    backoff.reset("TheGamesDB");
    backoff.reset("GameFAQs");
    assert_eq!(backoff.next_backoff("ScreenScraper"), 8);
    assert_eq!(backoff.next_backoff("TheGamesDB"), 1);
}

#[test]
fn apply_backoff_words_the_pause() {
    let mut backoff = BackoffState::new();
    let (secs, update) = backoff.apply_backoff("ScreenScraper", &progress());
    assert_eq!(secs, 1);
    assert_eq!(update.message, "Pausing for 1s (rate limited by ScreenScraper)");
    assert_eq!(update.total, 7);
    assert_eq!(update.completed, 2);
    assert_eq!(update.success_count, 1);
    assert_eq!(update.fail_count, 1);
    assert_eq!(update.skip_count, 0);
    assert_eq!(update.current_rom, Some("game.gba".to_string()));
    assert!(update.game_update.is_none());
    for _ in 0..8 {
        backoff.apply_backoff("ScreenScraper", &progress());
    }
    let (secs, update) = backoff.apply_backoff("ScreenScraper", &progress());
    assert_eq!(secs, 300);
    assert_eq!(update.message, "Pausing for 300s (rate limited by ScreenScraper)");
}
