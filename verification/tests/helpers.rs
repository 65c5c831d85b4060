use soziopolis_lingq_tool::app_error::{AppError, AppErrorKind};
use soziopolis_lingq_tool::database::{build_fts_query, build_text_fingerprint};
use soziopolis_lingq_tool::domain::ArticleListItem;
use soziopolis_lingq_tool::gui::helpers::{
    compact_url, compute_local_library_stats, format_import_result_summary, format_job_timestamp,
    parse_optional_positive_usize, truncate_for_ui,
};
use soziopolis_lingq_tool::lingq::sort_collections;
use soziopolis_lingq_tool::lingq::Collection;
use soziopolis_lingq_tool::soziopolis::article::trim_chars;
use soziopolis_lingq_tool::soziopolis::dates::normalize_article_date;
use soziopolis_lingq_tool::soziopolis::page::normalize_inline_markers;
use soziopolis_lingq_tool::soziopolis::walk::{is_retryable_status, retry_delay_ms};

#[test]
fn article_dates_are_normalized() {
    assert_eq!(normalize_article_date(" 19.02.2026 ").as_deref(), Some("2026-02-19"));
    assert_eq!(normalize_article_date("2026-02-19").as_deref(), Some("2026-02-19"));
    assert_eq!(normalize_article_date("2026-02-19T10:00:00+01:00").as_deref(), Some("2026-02-19"));
    assert_eq!(normalize_article_date("Februar 2026"), None);
    assert_eq!(normalize_article_date("   "), None);
}

#[test]
fn job_timestamps_are_shown_in_utc() {
    assert_eq!(format_job_timestamp("0"), "1970-01-01 00:00:00 UTC");
    assert_eq!(format_job_timestamp(" 86400 "), "1970-01-02 00:00:00 UTC");
    assert_eq!(format_job_timestamp(""), "Unknown time");
    assert_eq!(format_job_timestamp("yesterday"), "yesterday");
}

#[test]
fn texts_are_shortened_for_display() {
    assert_eq!(truncate_for_ui("kurz", 10), "kurz");
    assert_eq!(truncate_for_ui("abcdefghijkl", 8), "abcde...");
    assert_eq!(compact_url("https://www.soziopolis.de/texte/essay.html"), "soziopolis.de/texte/essay.html");
    assert_eq!(trim_chars("äöüß", 2), "äö");
}

#[test]
fn optional_word_bounds_are_parsed() {
    assert_eq!(parse_optional_positive_usize("  ", "Min words"), Ok(None));
    assert_eq!(parse_optional_positive_usize(" 42 ", "Min words"), Ok(Some(42)));
    assert_eq!(
        parse_optional_positive_usize("0", "Min words"),
        Err("Min words must be greater than zero.".to_owned())
    );
    assert_eq!(
        parse_optional_positive_usize("viele", "Max words"),
        Err("Max words must be a positive number.".to_owned())
    );
}

#[test]
fn import_summaries_name_every_count() {
    assert_eq!(format_import_result_summary(3, 0, 0, 0, false, None), "Saved 3 article(s).");
    let summary = format_import_result_summary(1, 2, 0, 1, true, Some("timeout"));
    assert!(summary.starts_with("Import canceled."));
    assert!(summary.contains("Saved 1 article(s)."));
    assert!(summary.contains("Also skipped 2 already imported, 1 failed."));
    assert!(summary.contains("First error: timeout"));
}

#[test]
fn errors_are_classified_by_their_message() {
    assert_eq!(AppError::classify("login", "401 Unauthorized").kind, AppErrorKind::Auth);
    assert_eq!(AppError::classify("upload", "LingQ rejected the lesson upload").kind, AppErrorKind::Upload);
    assert_eq!(AppError::classify("browse", "request timed out").kind, AppErrorKind::Network);
    assert_eq!(AppError::classify("save", "sqlite busy").kind, AppErrorKind::Database);
}

#[test]
fn search_queries_become_prefix_terms() {
    assert_eq!(build_fts_query(Some("Digitale Medien")).as_deref(), Some("Digitale* AND Medien*"));
    assert_eq!(build_fts_query(Some("  ")), None);
    assert_eq!(build_fts_query(None), None);
}

#[test]
fn footnote_markers_are_removed() {
    assert_eq!(normalize_inline_markers("Ein Satz[12] und noch  einer [3]."), "Ein Satz und noch einer .");
}

#[test]
fn fingerprints_depend_on_the_content() {
    let a = build_text_fingerprint("Titel", "", "Autorin", "2026-01-01", "Text des Artikels.");
    let b = build_text_fingerprint("  titel ", "", "Autorin", "2026-01-01", "Text des Artikels.");
    let c = build_text_fingerprint("Anderer Titel", "", "Autorin", "2026-01-01", "Text des Artikels.");
    assert_eq!(a, b);
    assert_ne!(a, c);
    assert!(!a.is_empty());
}

#[test]
fn retries_follow_the_status() {
    assert!(is_retryable_status(503));
    assert!(is_retryable_status(429));
    assert!(is_retryable_status(408));
    assert!(!is_retryable_status(404));
    assert_eq!(retry_delay_ms(1, true), Some(450));
    assert_eq!(retry_delay_ms(2, true), Some(900));
    assert_eq!(retry_delay_ms(3, true), None);
    assert_eq!(retry_delay_ms(1, false), None);
}

#[test]
fn collection_order_ignores_case() {
    let sorted = sort_collections(vec![
        Collection { id: 1, title: "Banana".to_owned(), lessons_count: 0 },
        Collection { id: 2, title: "apple".to_owned(), lessons_count: 0 },
        Collection { id: 3, title: "APPLE".to_owned(), lessons_count: 0 },
    ]);
    let ids: Vec<i64> = sorted.iter().map(|c| c.id).collect();
    assert_eq!(ids, vec![2, 3, 1]);
}

fn card(id: i64, section: &str, words: i64, uploaded: bool) -> ArticleListItem {
    ArticleListItem {
        id,
        url: format!("https://www.soziopolis.de/{id}.html"),
        title: format!("Artikel {id}"),
        subtitle: String::new(),
        teaser: String::new(),
        preview_summary: String::new(),
        author: String::new(),
        date: String::new(),
        published_at: String::new(),
        section: section.to_owned(),
        word_count: words,
        fetched_at: String::new(),
        custom_topic: String::new(),
        uploaded_to_lingq: uploaded,
        lingq_lesson_id: None,
        lingq_lesson_url: String::new(),
    }
}

#[test]
fn library_statistics_round_and_rank_sections() {
    let stats = compute_local_library_stats(&vec![
        card(1, "Essay", 100, true),
        card(2, "Interview", 201, false),
        card(3, "Essay", 200, false),
    ]);
    assert_eq!(stats.total_articles, 3);
    assert_eq!(stats.uploaded_articles, 1);
    // (100 + 201 + 200) / 3 = 167 after rounding.
    assert_eq!(stats.average_word_count, 167);
    assert_eq!(stats.sections.len(), 2);
    assert_eq!(stats.sections[0].section, "Essay");
    assert_eq!(stats.sections[0].count, 2);
    assert_eq!(stats.sections[1].section, "Interview");
    let empty = compute_local_library_stats(&Vec::new());
    assert_eq!(empty.total_articles, 0);
    assert_eq!(empty.average_word_count, 0);
}

use soziopolis_lingq_tool::gui::message::{Effect, Message};
use soziopolis_lingq_tool::gui::state::{App, Screen};
use soziopolis_lingq_tool::settings::SettingsStore;

fn fresh_app() -> App {
    let (app, _) = App::new(SettingsStore::create_default("settings.json".to_owned()), None, String::new(), None, None, None);
    app
}

#[test]
fn switching_views_saves_the_settings() {
    let mut app = fresh_app();
    let effects = app.update(Message::SwitchView(Screen::Library));
    assert!(matches!(app.current_view, Screen::Library));
    assert_eq!(app.settings.data().last_view, "library");
    assert_eq!(effects.len(), 1);
    assert!(matches!(effects[0], Effect::SaveSettings));
}

#[test]
fn toggling_an_article_twice_restores_the_selection() {
    let mut app = fresh_app();
    let url = "https://www.soziopolis.de/texte/essay/eins.html".to_owned();
    app.update(Message::BrowseToggleArticle(url.clone()));
    assert_eq!(app.browse.selected, vec![url.clone()]);
    app.update(Message::BrowseToggleArticle(url));
    assert!(app.browse.selected.is_empty());
}

#[test]
fn pausing_and_resuming_the_queue() {
    let mut app = fresh_app();
    app.update(Message::PauseQueue);
    assert!(app.jobs.paused);
    app.update(Message::ResumeQueue);
    assert!(!app.jobs.paused);
}

use soziopolis_lingq_tool::soziopolis::cache::{
    browse_cache_file_name, disk_copy_fresh, memory_copy_fresh, needs_eviction, stalest_entry,
};

#[test]
fn page_cache_rules() {
    let name = browse_cache_file_name("https://www.soziopolis.de/texte/essay.html");
    assert!(name.ends_with(".html"));
    assert_eq!(name.len(), 16 + 5);
    assert_ne!(name, browse_cache_file_name("https://www.soziopolis.de/texte/interview.html"));
    assert!(memory_copy_fresh(180));
    assert!(!memory_copy_fresh(181));
    assert!(disk_copy_fresh(900));
    assert!(!disk_copy_fresh(901));
    assert!(needs_eviction(96, false));
    assert!(!needs_eviction(96, true));
    assert!(!needs_eviction(95, false));
    assert_eq!(stalest_entry(&vec![5, 3, 9, 3]), Some(1));
    assert_eq!(stalest_entry(&Vec::new()), None);
}

use soziopolis_lingq_tool::gui::diagnostics::log_excerpt;

#[test]
fn log_excerpt_keeps_the_last_lines() {
    assert_eq!(log_excerpt("a\nb\r\nc\n", 2), "b\nc");
    assert_eq!(log_excerpt("a\nb\nc", 5), "a\nb\nc");
    assert_eq!(log_excerpt("", 5), "Log is currently empty.");
    assert_eq!(log_excerpt(" \n \n", 5), "Log is currently empty.");
}

use soziopolis_lingq_tool::gui::diagnostics::support_bundle_dir_name;

#[test]
fn support_bundle_summary_and_folder() {
    assert_eq!(support_bundle_dir_name("1700000000"), "support-bundle-1700000000");
    let app = fresh_app();
    assert_eq!(
        app.support_bundle_summary(),
        "Soziopolis Reader 1.1.0\r\nCurrent view: browse\r\nLibrary articles: 0\r\nBrowse articles: 0"
    );
}

#[test]
fn saved_queue_comes_back() {
    let mut app = fresh_app();
    app.update(Message::PauseQueue);
    let snapshot = app.queue_snapshot();
    let next_id = snapshot.next_job_id;
    let (restored, _) = App::new(
        SettingsStore::create_default("settings.json".to_owned()),
        None,
        String::new(),
        None,
        None,
        Some((snapshot, None)),
    );
    assert!(restored.jobs.paused);
    assert!(restored.jobs.queued.is_empty());
    assert!(restored.jobs.next_job_id >= next_id);
}

#[test]
fn lingq_selection_by_word_count() {
    let mut app = fresh_app();
    app.library.articles = vec![card(1, "Essay", 100, false), card(2, "Essay", 500, true), card(3, "Essay", 900, false)];
    app.lingq.word_count_min = "200".to_owned();
    app.lingq.select_only_not_uploaded = true;
    app.select_lingq_articles_by_word_count();
    assert_eq!(app.lingq.selected_articles, vec![3]);
    assert_eq!(app.notice.as_ref().map(|n| n.message.as_str()), Some("Selected 1 article(s) for upload."));
    app.lingq.word_count_max = "zero".to_owned();
    app.select_lingq_articles_by_word_count();
    assert_eq!(app.lingq.selected_articles, vec![3]);
    assert_eq!(app.notice.as_ref().map(|n| n.message.as_str()), Some("Max words must be a positive number."));
}
