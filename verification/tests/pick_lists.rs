use soziopolis_lingq_tool::app_paths::{data_dir_for, join_with, portable_data_dir};
use soziopolis_lingq_tool::gui::helpers::{
    current_topic_label, topic_from_option, topic_option_label, topic_options,
};
use soziopolis_lingq_tool::soziopolis::browse::{merge_all_sections_states, merged_report_fits};
use soziopolis_lingq_tool::soziopolis::types::{
    sections, ArticleSummary, DiscoveryReport, DiscoverySourceKind, SectionBrowseState,
};
use std::collections::VecDeque;

#[test]
fn topic_options_list_every_topic_with_its_count() {
    let counts = vec![("Essay".to_owned(), 3), ("Politik (Inland)".to_owned(), 12)];
    let options = topic_options(&counts);
    assert_eq!(options, vec!["All topics", "Essay (3)", "Politik (Inland) (12)"]);
    assert_eq!(topic_option_label("Recht", 0), "Recht (0)");
}

#[test]
fn current_topic_label_shows_the_chosen_topic() {
    let counts = vec![("Essay".to_owned(), 3), ("Recht".to_owned(), 1)];
    assert_eq!(current_topic_label("", &counts), "All topics");
    assert_eq!(current_topic_label("Recht", &counts), "Recht (1)");
    assert_eq!(current_topic_label("Kunst", &counts), "Kunst");
}

#[test]
fn picked_topic_entries_read_back_as_topics() {
    assert_eq!(topic_from_option("All topics"), "");
    assert_eq!(topic_from_option("Essay (3)"), "Essay");
    assert_eq!(topic_from_option("Politik (Inland) (12)"), "Politik (Inland)");
    assert_eq!(topic_from_option("Kunst"), "Kunst");
    for (topic, count) in [("Essay", 3usize), ("Politik (Inland)", 12), ("A (b", 0)] {
        assert_eq!(topic_from_option(&topic_option_label(topic, count)), topic);
    }
}

#[test]
fn paths_are_joined_with_one_separator() {
    assert_eq!(join_with("base", "data", '/'), "base/data");
    assert_eq!(join_with("base/", "data", '/'), "base/data");
    assert_eq!(join_with("C:\\app", "data", '\\'), "C:\\app\\data");
    assert_eq!(join_with("", "data", '\\'), "data");
    let sep = std::path::MAIN_SEPARATOR;
    assert_eq!(
        portable_data_dir("app", true, true),
        Some(format!("app{sep}data{sep}soziopolis_lingq_tool"))
    );
    assert_eq!(
        portable_data_dir("app", false, true),
        Some(format!("app{sep}portable_data{sep}soziopolis_lingq_tool"))
    );
    assert_eq!(portable_data_dir("app", false, false), None);
}

fn walk(urls: &[&str], deduped: usize) -> SectionBrowseState {
    SectionBrowseState {
        articles: urls
            .iter()
            .map(|url| ArticleSummary {
                url: (*url).to_owned(),
                title: "T".to_owned(),
                teaser: String::new(),
                author: String::new(),
                date: String::new(),
                section: "Essay".to_owned(),
                source_kind: DiscoverySourceKind::Section,
                source_label: String::new(),
            })
            .collect(),
        report: DiscoveryReport { deduped_articles: deduped, ..DiscoveryReport::default() },
        exhausted: true,
        section: sections()[1],
        pending_page_urls: VecDeque::new(),
        discovered_page_urls: Vec::new(),
        seen_article_urls: Vec::new(),
        visited_page_urls: Vec::new(),
    }
}

#[test]
fn merged_report_fits_only_when_every_counter_has_room() {
    let ok = [walk(&["https://a"], 4), walk(&["https://a", "https://b"], 1)];
    assert!(merged_report_fits(&ok, 20));
    let merged = merge_all_sections_states(&ok, 20);
    assert_eq!(merged.report.deduped_articles, 6);
    assert_eq!(merged.articles.len(), 2);
    let at_max = [walk(&["https://a"], usize::MAX - 1), walk(&["https://a"], 0)];
    assert!(merged_report_fits(&at_max, 20));
    let full = [walk(&["https://a"], usize::MAX), walk(&["https://a"], 0)];
    assert!(!merged_report_fits(&full, 20));
    let full_counts = [walk(&[], usize::MAX), walk(&[], 1)];
    assert!(!merged_report_fits(&full_counts, 20));
    assert!(merged_report_fits(&[walk(&[], usize::MAX)], 20));
}

#[test]
fn data_dir_follows_the_documented_order() {
    let sep = std::path::MAIN_SEPARATOR;
    assert_eq!(data_dir_for(Some("chosen".to_owned()), Some("app"), true, true, "base"), "chosen");
    assert_eq!(data_dir_for(None, Some("app"), true, false, "base"), format!("app{sep}data{sep}soziopolis_lingq_tool"));
    assert_eq!(
        data_dir_for(None, Some("app"), false, true, "base"),
        format!("app{sep}portable_data{sep}soziopolis_lingq_tool")
    );
    assert_eq!(data_dir_for(None, Some("app"), false, false, "base"), format!("base{sep}soziopolis_lingq_tool"));
    assert_eq!(data_dir_for(None, None, true, true, "base"), format!("base{sep}soziopolis_lingq_tool"));
}
