use soziopolis_lingq_tool::lingq::{normalize_text, summarize_api_body, Collection};
use soziopolis_lingq_tool::services::LingqService;

#[test]
fn normalize_text_preserves_paragraph_breaks() {
    let text = " One   two \n\n  Three   four ";
    assert_eq!(normalize_text(text), "One two\n\nThree four");
}

#[test]
fn summarize_api_body_condenses_whitespace_and_truncates() {
    let input = format!("error: {}", "detail ".repeat(80));
    let summary = summarize_api_body(&input);
    assert!(summary.starts_with("error: detail"));
    assert!(summary.ends_with("..."));
    assert!(summary.len() <= 220);
}

#[test]
fn collections_are_sorted_case_insensitively() {
    let mut collections = [
        Collection {
            id: 1,
            title: "zebra".to_owned(),
            lessons_count: 0,
        },
        Collection {
            id: 2,
            title: "Alpha".to_owned(),
            lessons_count: 0,
        },
    ];
    collections.sort_by(|a, b| a.title.to_lowercase().cmp(&b.title.to_lowercase()));
    assert_eq!(collections[0].title, "Alpha");
    assert_eq!(collections[1].title, "zebra");
}

#[test]
fn collections_from_pages_keep_the_case_insensitive_order() {
    let pages = vec![
        vec![Collection { id: 1, title: "zebra".to_owned(), lessons_count: 0 }],
        vec![Collection { id: 2, title: "Alpha".to_owned(), lessons_count: 3 }],
    ];
    let collections = LingqService::collections_from_pages(pages);
    assert_eq!(collections.len(), 2);
    assert_eq!(collections[0].title, "Alpha");
    assert_eq!(collections[0].lessons_count, 3);
    assert_eq!(collections[1].title, "zebra");
}
