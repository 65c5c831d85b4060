use soziopolis_lingq_tool::soziopolis::browse::{browse_section_worker_count, merge_all_sections_states};
use soziopolis_lingq_tool::soziopolis::listing::{
    desired_section_page_count, extract_paginated_section_urls, section_page_urls,
};
use soziopolis_lingq_tool::soziopolis::types::{
    sections, ArticleSummary, DiscoveryReport, DiscoverySourceKind, SectionBrowseState,
};
use std::collections::VecDeque;

#[test]
fn section_page_urls_expand_with_higher_limits() {
    let html = r#"
            <html><body>
                <a href="/texte/interview.html?listArticles13%5Bcontroller%5D=Search&amp;listArticles13%5Bpage%5D=1&amp;cHash=aaa">1</a>
                <a href="/texte/interview.html?listArticles13%5Bcontroller%5D=Search&amp;listArticles13%5Bpage%5D=2&amp;cHash=bbb">2</a>
                <a href="/texte/interview.html?listArticles13%5Bcontroller%5D=Search&amp;listArticles13%5Bpage%5D=3&amp;cHash=ccc">3</a>
                <a href="/texte/interview.html?listArticles13%5Bcontroller%5D=Search&amp;listArticles13%5Bpage%5D=4&amp;cHash=ddd">4</a>
                <a href="/texte/interview.html?listArticles13%5Bcontroller%5D=Search&amp;listArticles13%5Bpage%5D=5&amp;cHash=eee">5</a>
                <a href="/texte/interview.html?listArticles13%5Bcontroller%5D=Search&amp;listArticles13%5Bpage%5D=6&amp;cHash=fff">6</a>
                <a href="/texte/interview.html?listArticles13%5Bcontroller%5D=Search&amp;listArticles13%5Bpage%5D=7&amp;cHash=ggg">7</a>
            </body></html>
        "#;
    let urls = section_page_urls(&sections()[3], html, 80);
    assert_eq!(urls.len(), 6);
    assert!(urls[0].contains("listArticles13%5Bpage%5D=2"));
    assert!(urls[0].contains("cHash="));
}

#[test]
fn merge_all_sections_states_marks_exhausted_only_when_every_section_is_done() {
    let state_a = SectionBrowseState {
        articles: vec![ArticleSummary {
            url: "https://example.com/a".to_owned(),
            title: "A".to_owned(),
            teaser: String::new(),
            author: String::new(),
            date: String::new(),
            section: "Essay".to_owned(),
            source_kind: DiscoverySourceKind::Section,
            source_label: "Essays".to_owned(),
        }],
        report: DiscoveryReport::default(),
        exhausted: true,
        section: sections()[1],
        pending_page_urls: VecDeque::new(),
        discovered_page_urls: Vec::new(),
        seen_article_urls: Vec::new(),
        visited_page_urls: Vec::new(),
    };
    let state_b = SectionBrowseState {
        articles: vec![ArticleSummary {
            url: "https://example.com/b".to_owned(),
            title: "B".to_owned(),
            teaser: String::new(),
            author: String::new(),
            date: String::new(),
            section: "Interview".to_owned(),
            source_kind: DiscoverySourceKind::Section,
            source_label: "Interviews".to_owned(),
        }],
        report: DiscoveryReport::default(),
        exhausted: false,
        section: sections()[3],
        pending_page_urls: VecDeque::from([String::from("https://example.com/page2")]),
        discovered_page_urls: Vec::new(),
        seen_article_urls: Vec::new(),
        visited_page_urls: Vec::new(),
    };

    let merged = merge_all_sections_states(&[state_a.clone(), state_b.clone()], 20);
    assert_eq!(merged.articles.len(), 2);
    assert!(!merged.exhausted);

    let merged_exhausted = merge_all_sections_states(
        &[
            state_a,
            SectionBrowseState {
                exhausted: true,
                ..state_b
            },
        ],
        20,
    );
    assert!(merged_exhausted.exhausted);
}

#[test]
fn browse_section_worker_count_is_bounded() {
    assert_eq!(browse_section_worker_count(0), 1);
    assert_eq!(browse_section_worker_count(1), 1);
    assert_eq!(browse_section_worker_count(3), 3);
    assert_eq!(browse_section_worker_count(20), 4);
}

#[test]
fn desired_section_page_count_scales_but_stays_bounded() {
    assert_eq!(desired_section_page_count(0), 2);
    assert_eq!(desired_section_page_count(80), 8);
    assert_eq!(desired_section_page_count(160), 16);
    assert_eq!(desired_section_page_count(5000), 80);
}

/// The interviews listing at page 10, reduced to its pagination block.
const INTERVIEW_PAGE_10: &str = r#"
<html><body>
  <h2><a href="/texte/interview/ein-gespraech-ueber-etwas.html">Ein Gespräch über etwas Wichtiges</a></h2>
  <ul class="pagination">
    <li><a href="/texte/interview.html?listArticles13%5Bcontroller%5D=Search&amp;listArticles13%5Bpage%5D=1&amp;cHash=p1">1</a></li>
    <li><a href="/texte/interview.html?listArticles13%5Bcontroller%5D=Search&amp;listArticles13%5Bpage%5D=9&amp;cHash=p9">9</a></li>
    <li class="current"><a href="/texte/interview.html?listArticles13%5Bcontroller%5D=Search&amp;listArticles13%5Bpage%5D=10&amp;cHash=p10">10</a></li>
    <li><a href="/texte/interview.html?listArticles13%5Bcontroller%5D=Search&amp;listArticles13%5Bpage%5D=11&amp;cHash=p11">11</a></li>
    <li><a href="/texte/interview.html?listArticles13%5Bcontroller%5D=Search&amp;listArticles13%5Bpage%5D=12&amp;cHash=p12">12</a></li>
    <li><a href="/texte/interview.html?listArticles13%5Bcontroller%5D=Search&amp;listArticles13%5Bpage%5D=13&amp;cHash=p13">13</a></li>
  </ul>
</body></html>
"#;

#[test]
fn deeper_interview_fixture_discovers_later_pages() {
    let urls = extract_paginated_section_urls(&sections()[3], INTERVIEW_PAGE_10, 20);
    assert!(urls.iter().any(|url| url.contains("page%5D=11")));
    assert!(urls.iter().any(|url| url.contains("page%5D=12")));
    assert!(urls.iter().any(|url| url.contains("page%5D=13")));
}
