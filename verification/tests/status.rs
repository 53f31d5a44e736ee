use collie::progress::ScrapeStatus;

const ALL: [ScrapeStatus; 5] = [
    ScrapeStatus::Pending,
    ScrapeStatus::Searching,
    ScrapeStatus::Success,
    ScrapeStatus::Failed,
    ScrapeStatus::Skipped,
];

#[test]
fn merge_is_commutative() {
    for a in ALL {
        for b in ALL {
            assert_eq!(a.merge(b), b.merge(a));
        }
    }
}

#[test]
fn merge_success_absorbs_everything() {
    for x in ALL {
        assert_eq!(ScrapeStatus::Success.merge(x), ScrapeStatus::Success);
        assert_eq!(x.merge(ScrapeStatus::Success), ScrapeStatus::Success);
    }
}

#[test]
fn merge_failed_absorbs_all_but_success() {
    for x in ALL {
        if x != ScrapeStatus::Success {
            assert_eq!(ScrapeStatus::Failed.merge(x), ScrapeStatus::Failed);
            assert_eq!(x.merge(ScrapeStatus::Failed), ScrapeStatus::Failed);
        }
    }
}

#[test]
fn merge_skipped_needs_both_sides() {
    assert_eq!(ScrapeStatus::Skipped.merge(ScrapeStatus::Skipped), ScrapeStatus::Skipped);
    assert_eq!(ScrapeStatus::Skipped.merge(ScrapeStatus::Pending), ScrapeStatus::Pending);
    assert_eq!(ScrapeStatus::Searching.merge(ScrapeStatus::Skipped), ScrapeStatus::Searching);
    assert_eq!(ScrapeStatus::Pending.merge(ScrapeStatus::Searching), ScrapeStatus::Searching);
}
