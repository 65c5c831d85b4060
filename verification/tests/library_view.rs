use soziopolis_lingq_tool::domain::{ArticleListItem, LibrarySortMode};
use soziopolis_lingq_tool::gui::library_order::{
    collect_topic_counts, compare_library_articles, display_library_articles,
};
use soziopolis_lingq_tool::jobs::should_emit_progress_update;

fn card(id: i64, title: &str, published_at: &str, word_count: i64, uploaded: bool) -> ArticleListItem {
    ArticleListItem {
        id,
        url: format!("https://www.soziopolis.de/texte/essay/{id}.html"),
        title: title.to_owned(),
        subtitle: String::new(),
        teaser: String::new(),
        preview_summary: String::new(),
        author: String::new(),
        date: String::new(),
        published_at: published_at.to_owned(),
        section: "Essay".to_owned(),
        word_count,
        fetched_at: String::new(),
        custom_topic: "Politik".to_owned(),
        uploaded_to_lingq: uploaded,
        lingq_lesson_id: None,
        lingq_lesson_url: String::new(),
    }
}

fn ids(cards: &[ArticleListItem]) -> Vec<i64> {
    cards.iter().map(|c| c.id).collect()
}

#[test]
fn library_orders_by_each_mode() {
    let cards = vec![
        card(1, "beta", "2024-01-02", 500, false),
        card(2, "Alpha", "2024-03-01", 1500, true),
        card(3, "gamma", "2023-12-31", 900, false),
    ];
    let newest = display_library_articles(&cards, "", false, None, None, LibrarySortMode::Newest, false);
    assert_eq!(ids(&newest), vec![2, 1, 3]);
    let oldest = display_library_articles(&cards, "", false, None, None, LibrarySortMode::Oldest, false);
    assert_eq!(ids(&oldest), vec![3, 1, 2]);
    let longest = display_library_articles(&cards, "", false, None, None, LibrarySortMode::Longest, false);
    assert_eq!(ids(&longest), vec![2, 3, 1]);
    let shortest = display_library_articles(&cards, "", false, None, None, LibrarySortMode::Shortest, false);
    assert_eq!(ids(&shortest), vec![1, 3, 2]);
    let by_title = display_library_articles(&cards, "", false, None, None, LibrarySortMode::Title, true);
    assert_eq!(ids(&by_title), vec![2, 1, 3]);
}

#[test]
fn library_filters_before_ordering() {
    let cards = vec![
        card(1, "beta", "2024-01-02", 500, false),
        card(2, "Alpha", "2024-03-01", 1500, true),
        card(3, "gamma", "2023-12-31", 900, false),
    ];
    let not_uploaded = display_library_articles(&cards, "", true, None, None, LibrarySortMode::Longest, false);
    assert_eq!(ids(&not_uploaded), vec![3, 1]);
    let bounded = display_library_articles(&cards, "", false, Some(600), Some(1000), LibrarySortMode::Newest, false);
    assert_eq!(ids(&bounded), vec![3]);
    let other_topic = display_library_articles(&cards, "Kultur", false, None, None, LibrarySortMode::Newest, false);
    assert!(other_topic.is_empty());
    let topic = display_library_articles(&cards, "Politik", false, None, None, LibrarySortMode::Newest, false);
    assert_eq!(topic.len(), 3);
}

#[test]
fn ties_are_broken_by_title_ignoring_case() {
    let a = card(1, "beta", "2024-01-01", 500, false);
    let b = card(2, "Alpha", "2024-01-01", 500, false);
    assert_eq!(compare_library_articles(&a, &b, LibrarySortMode::Longest, false), 1);
    assert_eq!(compare_library_articles(&b, &a, LibrarySortMode::Longest, false), -1);
    assert_eq!(compare_library_articles(&a, &a, LibrarySortMode::Newest, true), 0);
}

#[test]
fn topics_are_counted_in_order() {
    let mut a = card(1, "beta", "2024-01-02", 500, false);
    a.custom_topic = "Wirtschaft".to_owned();
    let b = card(2, "Alpha", "2024-03-01", 1500, true);
    let c = card(3, "gamma", "2023-12-31", 900, false);
    let counts = collect_topic_counts(&vec![a, b, c]);
    assert_eq!(counts, vec![("Politik".to_owned(), 2), ("Wirtschaft".to_owned(), 1)]);
    assert!(collect_topic_counts(&Vec::new()).is_empty());
}

#[test]
fn progress_updates_are_throttled() {
    assert_eq!(should_emit_progress_update(0, Some(10), Some(5)), (true, false));
    assert_eq!(should_emit_progress_update(10, Some(10), Some(5)), (true, true));
    assert_eq!(should_emit_progress_update(3, Some(10), Some(5)), (false, false));
    assert_eq!(should_emit_progress_update(3, Some(10), Some(125)), (true, true));
    assert_eq!(should_emit_progress_update(3, None, None), (true, true));
}
