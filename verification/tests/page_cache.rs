use moodle_tui::page_cache::{course_pages_to_keep, PageStamp, MAX_CACHED_COURSE_PAGES};

fn page(timestamp: Option<u64>, expired: bool) -> PageStamp {
    PageStamp { timestamp, expired }
}

#[test]
fn keeps_live_pages_newest_first() {
    let pages = vec![
        page(Some(10), false),
        page(Some(30), false),
        page(None, false),
        page(Some(50), true),
        page(Some(20), false),
        page(Some(30), false),
    ];
    assert_eq!(course_pages_to_keep(&pages), vec![1, 5, 4, 0]);
}

#[test]
fn keeps_at_most_the_newest_pages_allowed() {
    let pages: Vec<PageStamp> = (0..60u64).map(|t| page(Some(t), false)).collect();
    let kept = course_pages_to_keep(&pages);
    assert_eq!(kept.len(), MAX_CACHED_COURSE_PAGES);
    assert_eq!(kept[0], 59);
    assert_eq!(kept[MAX_CACHED_COURSE_PAGES - 1], 60 - MAX_CACHED_COURSE_PAGES);
}

#[test]
fn keeps_nothing_of_an_empty_or_expired_cache() {
    assert!(course_pages_to_keep(&Vec::new()).is_empty());
    assert!(course_pages_to_keep(&vec![page(Some(1), true), page(None, false)]).is_empty());
}
