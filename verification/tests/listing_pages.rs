use soziopolis_lingq_tool::lingq::{
    authorization_header, collection_from_row, collections_url, lesson_page_url, lesson_payload,
    lessons_url, login_token, parse_failure_message, rejection_message, sort_collections,
    Collection, UploadRequest,
};
use soziopolis_lingq_tool::services::{
    split_known_articles, BrowseService, LibraryService, LingqService,
};
use soziopolis_lingq_tool::soziopolis::headlines::{
    collect_articles_from_document, extract_teaser, listing_metadata,
};
use soziopolis_lingq_tool::soziopolis::types::{
    sections, ArticleSummary, DiscoveryReport, DiscoverySourceKind,
};
use soziopolis_lingq_tool::soziopolis::walk::{per_section_limit, start_section_browse};

const LISTING: &str = r#"
<html><body>
  <div class="teaser">
    <p class="article-overline"><span class="article-type">Essay</span> <span class="author-name">Anna Beispiel</span> <span class="author-name">Anna Beispiel</span></p>
    <h2><a href="/texte/essay/artikel-eins.html">Die erste Geschichte über etwas</a></h2>
    <p class="article-abstract">Ein Anriss, der lang genug ist, um als Teaser zu gelten.</p>
    <span class="article-date">01.02.2024</span>
  </div>
  <div class="teaser">
    <h3><a href="https://www.soziopolis.de/texte/essay/artikel-eins.html">Die erste Geschichte über etwas</a></h3>
  </div>
  <div class="teaser"><h2><a href="/kontakt.html">Kontakt zur Redaktion aufnehmen</a></h2></div>
  <div class="teaser"><h2><a href="/texte/essay/zwei.html">Essays</a></h2></div>
  <div class="teaser"><h2><a href="/texte/essay/zwei.html">Die zweite Geschichte über etwas</a></h2></div>
  <div class="teaser"><h2><a href="/texte/essay/drei.html">Die dritte Geschichte ohne Teaser</a></h2></div>
</body></html>
"#;

fn summary(url: &str) -> ArticleSummary {
    ArticleSummary {
        url: url.to_owned(),
        title: "A title".to_owned(),
        teaser: String::new(),
        author: String::new(),
        date: String::new(),
        section: String::new(),
        source_kind: DiscoverySourceKind::Section,
        source_label: String::new(),
    }
}

#[test]
fn listing_collects_articles_with_teaser_and_metadata() {
    let mut seen = Vec::new();
    let mut articles = Vec::new();
    let mut report = DiscoveryReport::new();
    let ok = collect_articles_from_document(
        LISTING,
        None,
        "https://www.soziopolis.de/texte/essay.html",
        DiscoverySourceKind::Section,
        usize::MAX,
        &mut seen,
        &mut articles,
        &mut report,
    );
    assert!(ok);
    assert_eq!(articles.len(), 2);
    let first = &articles[0];
    assert_eq!(first.url, "https://www.soziopolis.de/texte/essay/artikel-eins.html");
    assert_eq!(first.title, "Die erste Geschichte über etwas");
    assert_eq!(first.teaser, "Ein Anriss, der lang genug ist, um als Teaser zu gelten.");
    assert_eq!(first.author, "Anna Beispiel");
    assert_eq!(first.date, "01.02.2024");
    assert_eq!(first.section, "Essay");
    assert_eq!(articles[1].url, "https://www.soziopolis.de/texte/essay/drei.html");
    // Without a teaser of its own, the nearest ancestor holding one (the
    // page body) supplies it.
    assert_eq!(articles[1].teaser, "Ein Anriss, der lang genug ist, um als Teaser zu gelten.");
    assert_eq!(report.section_articles, 2);
    // The repeated first link and the second link to "zwei" count as duplicates.
    assert_eq!(report.deduped_articles, 2);
    assert_eq!(seen.len(), 3);
}

#[test]
fn listing_stops_at_the_limit() {
    let mut seen = Vec::new();
    let mut articles = vec![summary("https://www.soziopolis.de/texte/essay/alt.html")];
    let mut report = DiscoveryReport::new();
    let ok = collect_articles_from_document(
        LISTING,
        Some("Essays"),
        "https://www.soziopolis.de/texte/essay.html",
        DiscoverySourceKind::Topic,
        2,
        &mut seen,
        &mut articles,
        &mut report,
    );
    assert!(ok);
    assert_eq!(articles.len(), 2);
    assert_eq!(articles[1].section, "Essay");
    assert_eq!(report.topic_articles, 1);
    assert_eq!(report.deduped_articles, 0);
}

#[test]
fn listing_falls_back_to_the_given_section() {
    let html = r#"<html><body><div><h2><a href="/texte/essay/vier.html">Die vierte Geschichte hier</a></h2></div></body></html>"#;
    let mut seen = Vec::new();
    let mut articles = Vec::new();
    let mut report = DiscoveryReport::new();
    assert!(collect_articles_from_document(
        html,
        Some("Essays"),
        "https://www.soziopolis.de/texte/essay.html",
        DiscoverySourceKind::Section,
        10,
        &mut seen,
        &mut articles,
        &mut report,
    ));
    assert_eq!(articles.len(), 1);
    assert_eq!(articles[0].section, "Essays");
    assert_eq!(articles[0].author, "");
}

#[test]
fn teaser_is_cut_to_240_characters() {
    let long = "x".repeat(300);
    let ctx = vec![vec![vec![], vec![], vec![], vec![], vec![], vec![vec![long.clone()]]]];
    let teaser = extract_teaser(&ctx, &"Link".to_owned());
    assert_eq!(teaser.len(), 240);
    let metadata = listing_metadata(&ctx, None, "https://www.soziopolis.de/texte/interview.html");
    assert_eq!(metadata.0, "");
    assert_eq!(metadata.2, "Interviews");
}

#[test]
fn section_walk_starts_with_first_page_and_queues_later_pages() {
    let section = sections()[1];
    let html = format!(
        "<html><body>{}<a href=\"{}?listArticles12%5Bcontroller%5D=Search&amp;listArticles12%5Bpage%5D=2\">2</a><a href=\"{}?listArticles12%5Bcontroller%5D=Search&amp;listArticles12%5Bpage%5D=3\">3</a></body></html>",
        LISTING, section.url, section.url
    );
    let mut state = start_section_browse(&section, &html);
    assert_eq!(state.articles.len(), 2);
    assert_eq!(state.report.section_pages_visited, 1);
    assert_eq!(state.pending_page_urls.len(), 2);
    assert_eq!(state.discovered_page_urls.len(), 2);
    assert_eq!(state.visited_page_urls, vec![section.url.to_owned()]);
    assert!(!state.exhausted);

    let next = state.next_page(10).expect("a page to read");
    assert!(next.contains("page%5D=2"));
    assert_eq!(state.visited_page_urls.len(), 2);
    let page_html = r#"<html><body><div><h2><a href="/texte/essay/fuenf.html">Die fünfte Geschichte hier</a></h2></div></body></html>"#;
    assert!(state.absorb_page(&next, page_html, 10));
    assert_eq!(state.articles.len(), 3);
    assert_eq!(state.report.section_pages_visited, 2);

    // The target is met: no further page is chosen.
    assert!(state.next_page(3).is_none());
    assert!(!state.exhausted);
}

#[test]
fn section_walk_without_pages_uses_legacy_numbering() {
    let section = sections()[1];
    let state = start_section_browse(&section, LISTING);
    assert_eq!(state.pending_page_urls.len(), 7);
    assert!(state.pending_page_urls[0].ends_with("listArticles12%5Bpage%5D=2"));
}

#[test]
fn per_section_limit_is_clamped() {
    assert_eq!(per_section_limit(10, 7), 8);
    assert_eq!(per_section_limit(100, 7), 15);
    assert_eq!(per_section_limit(1000, 7), 20);
    assert_eq!(per_section_limit(100, 0), 20);
}

#[test]
fn unknown_section_is_reported() {
    assert_eq!(
        BrowseService::section_for("nope").err().as_deref(),
        Some("unknown section 'nope'")
    );
    assert_eq!(BrowseService::section_for(sections()[2].id).unwrap().id, sections()[2].id);
}

#[test]
fn failed_refresh_carries_the_message_everywhere() {
    let result = LibraryService::refresh_failed("db locked".to_owned());
    assert_eq!(result.imported_urls.err().as_deref(), Some("db locked"));
    assert_eq!(result.library_articles.err().as_deref(), Some("db locked"));
    assert_eq!(result.library_stats.err().as_deref(), Some("db locked"));
}

#[test]
fn import_skips_articles_already_in_the_library() {
    let chosen = vec![summary("https://a"), summary("https://b"), summary("https://c")];
    let known = vec!["https://b".to_owned()];
    let (pending, skipped) = split_known_articles(chosen, &known);
    assert_eq!(skipped, 1);
    assert_eq!(pending.len(), 2);
    assert!(pending.iter().all(|a| a.url != "https://b"));
}

fn collection(id: i64, title: &str) -> Collection {
    Collection { id, title: title.to_owned(), lessons_count: 0 }
}

#[test]
fn collections_from_pages_are_sorted_ignoring_case() {
    let pages = vec![vec![collection(1, "zebra"), collection(2, "Alpha")], vec![collection(3, "beta")]];
    let all = LingqService::collections_from_pages(pages);
    let titles: Vec<&str> = all.iter().map(|c| c.title.as_str()).collect();
    assert_eq!(titles, vec!["Alpha", "beta", "zebra"]);
    let sorted = sort_collections(vec![collection(1, "b"), collection(2, "A")]);
    assert_eq!(sorted[0].id, 2);
}

#[test]
fn lingq_requests_and_messages() {
    assert_eq!(collections_url("de"), "https://www.lingq.com/api/v3/de/collections/my/");
    assert_eq!(lessons_url("de"), "https://www.lingq.com/api/v3/de/lessons/");
    assert_eq!(lesson_page_url("de", 42), "https://www.lingq.com/de/learn/lesson/42/");
    assert_eq!(authorization_header("abc"), "Token abc");
    assert_eq!(
        rejection_message("LingQ rejected the lesson upload", "400 Bad Request", "  bad   input "),
        "LingQ rejected the lesson upload (status 400 Bad Request). Response: bad input"
    );
    assert_eq!(
        rejection_message("LingQ rejected the lesson upload", "500 Internal Server Error", "   "),
        "LingQ rejected the lesson upload (status 500 Internal Server Error)."
    );
    assert_eq!(parse_failure_message("LingQ login response", ""), "failed to parse LingQ login response");
    assert_eq!(
        parse_failure_message("LingQ login response", "<html>"),
        "failed to parse LingQ login response: <html>"
    );
    assert_eq!(login_token(Some("tok".to_owned())).unwrap().token, "tok");
    assert_eq!(
        login_token(Some("  ".to_owned())).err().as_deref(),
        Some("LingQ login succeeded but no token was returned")
    );
    assert!(login_token(None).is_err());
    let row = collection_from_row(5, "Kurs".to_owned(), None, Some(7));
    assert_eq!(row.lessons_count, 7);
    assert_eq!(collection_from_row(5, "Kurs".to_owned(), Some(3), Some(7)).lessons_count, 3);
    assert_eq!(collection_from_row(5, "Kurs".to_owned(), None, None).lessons_count, 0);
}

#[test]
fn lesson_payload_normalizes_text_and_rejects_blank_lessons() {
    let request = UploadRequest {
        api_key: "k".to_owned(),
        language_code: "de".to_owned(),
        collection_id: Some(9),
        title: "Titel".to_owned(),
        text: " Eins   zwei \n\n  drei ".to_owned(),
        original_url: Some("https://www.soziopolis.de/x.html".to_owned()),
    };
    let payload = lesson_payload(&request).unwrap();
    assert_eq!(payload.text, "Eins zwei\n\ndrei");
    assert_eq!(payload.status, "private");
    assert_eq!(payload.collection, Some(9));
    let blank = UploadRequest { text: " \n\n ".to_owned(), ..request };
    assert_eq!(lesson_payload(&blank).err().as_deref(), Some("lesson text is empty"));
}

#[test]
fn walk_skips_pages_already_visited_and_queues_each_page_once() {
    let section = sections()[1];
    let html = format!(
        "<html><body><a href=\"{u}?listArticles12%5Bcontroller%5D=Search&amp;listArticles12%5Bpage%5D=2\">2</a><a href=\"{u}?listArticles12%5Bcontroller%5D=Search&amp;listArticles12%5Bpage%5D=3\">3</a></body></html>",
        u = section.url
    );
    let mut state = start_section_browse(&section, &html);
    let page2 = state.pending_page_urls[0].clone();
    state.visited_page_urls.push(page2.clone());
    let next = state.next_page(50).expect("a page");
    assert!(next.contains("page%5D=3"));
    assert!(state.pending_page_urls.is_empty());
    // Reading a page that points to pages already discovered queues nothing new.
    assert!(state.absorb_page(&next, &html, 50));
    assert_eq!(state.discovered_page_urls.len(), 2);
    assert!(state.pending_page_urls.is_empty());
    assert!(state.next_page(50).is_none());
    assert!(state.exhausted);
}

#[test]
fn absorbing_a_page_fails_only_when_the_report_is_full() {
    let section = sections()[1];
    let mut state = start_section_browse(&section, "<html><body></body></html>");
    state.report = DiscoveryReport { source_pages_visited: usize::MAX, ..DiscoveryReport::default() };
    assert!(!state.absorb_page(section.url, LISTING, 10));
    assert_eq!(state.report.source_pages_visited, usize::MAX);
    assert!(state.articles.is_empty());

    state.report = DiscoveryReport { section_articles: usize::MAX - 1, ..DiscoveryReport::default() };
    assert!(!state.absorb_page(section.url, LISTING, 10));
    assert_eq!(state.report.source_pages_visited, 1);
    assert_eq!(state.report.section_pages_visited, 1);
    assert!(state.articles.is_empty());

    state.report = DiscoveryReport::default();
    assert!(state.absorb_page(section.url, LISTING, 10));
    assert_eq!(state.report.source_pages_visited, 1);
    assert!(!state.articles.is_empty());
}
