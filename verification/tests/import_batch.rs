use soziopolis_lingq_tool::app_error::{AppError, AppErrorKind};
use soziopolis_lingq_tool::database::{debug_article_fingerprint, StoredArticle};
use soziopolis_lingq_tool::credential_store::{password_to_store, token_from_stored_password};
use soziopolis_lingq_tool::services::{
    import_job_failed, split_known_articles, upload_job_failed, FetchOutcome, ImportTally, UploadTally,
};
use soziopolis_lingq_tool::soziopolis::types::{Article, ArticleSummary, DiscoverySourceKind};

fn summary(url: &str) -> ArticleSummary {
    ArticleSummary {
        url: url.to_owned(),
        title: format!("Title of {url}"),
        teaser: String::new(),
        author: String::new(),
        date: String::new(),
        section: String::new(),
        source_kind: DiscoverySourceKind::Section,
        source_label: String::new(),
    }
}

fn article(url: &str, title: &str, body: &str) -> Article {
    Article {
        url: url.to_owned(),
        title: title.to_owned(),
        subtitle: String::new(),
        teaser: String::new(),
        author: "Anna Beispiel".to_owned(),
        date: "01.02.2024".to_owned(),
        published_at: "2024-02-01".to_owned(),
        section: "Essay".to_owned(),
        source_kind: "article".to_owned(),
        source_label: "Soziopolis".to_owned(),
        body_text: body.to_owned(),
        clean_text: body.to_owned(),
        word_count: body.split_whitespace().count(),
        fetched_at: "1700000000".to_owned(),
    }
}

fn stored(id: i64, url: &str) -> StoredArticle {
    StoredArticle {
        id,
        url: url.to_owned(),
        title: format!("Stored {id}"),
        subtitle: String::new(),
        teaser: String::new(),
        preview_summary: String::new(),
        author: String::new(),
        date: String::new(),
        published_at: String::new(),
        section: "Essay".to_owned(),
        source_kind: "article".to_owned(),
        source_label: String::new(),
        content_fingerprint: String::new(),
        body_text: String::new(),
        clean_text: String::new(),
        word_count: 100,
        fetched_at: String::new(),
        custom_topic: String::new(),
        uploaded_to_lingq: false,
        lingq_lesson_id: None,
        lingq_lesson_url: String::new(),
    }
}

#[test]
fn repeated_selected_urls_are_fetched_once() {
    let chosen = vec![summary("https://a"), summary("https://b"), summary("https://a"), summary("https://c")];
    let known = vec!["https://c".to_owned()];
    let (pending, skipped) = split_known_articles(chosen, &known);
    let urls: Vec<&str> = pending.iter().map(|a| a.url.as_str()).collect();
    assert_eq!(urls, vec!["https://a", "https://b"]);
    assert_eq!(skipped, 2);
}

#[test]
fn same_content_in_one_batch_is_saved_once() {
    let mut tally = ImportTally::new(0);
    let first = article("https://a", "Eine Geschichte", "Ein Text über etwas.");
    let same_content = article("https://b", "  eine GESCHICHTE ", "Ein Text über etwas.");
    let other = article("https://c", "Eine andere Geschichte", "Ein ganz anderer Text.");
    assert_eq!(debug_article_fingerprint(&first), debug_article_fingerprint(&same_content));
    tally.record_fetch(&summary("https://a"), FetchOutcome::Fetched { article: first, duplicate: false });
    tally.record_fetch(&summary("https://b"), FetchOutcome::Fetched { article: same_content, duplicate: false });
    tally.record_fetch(&summary("https://c"), FetchOutcome::Fetched { article: other, duplicate: false });
    let urls: Vec<&str> = tally.fetched.iter().map(|a| a.url.as_str()).collect();
    assert_eq!(urls, vec!["https://a", "https://c"]);
    assert_eq!(tally.skipped_existing, 1);
    assert_eq!(tally.processed, 3);
}

#[test]
fn repeated_url_in_one_batch_is_saved_once() {
    let mut tally = ImportTally::new(1);
    tally.record_fetch(
        &summary("https://a"),
        FetchOutcome::Fetched { article: article("https://a", "Eins", "Text eins."), duplicate: false },
    );
    tally.record_fetch(
        &summary("https://a"),
        FetchOutcome::Fetched { article: article("https://a", "Zwei", "Text zwei."), duplicate: false },
    );
    tally.record_fetch(
        &summary("https://d"),
        FetchOutcome::Fetched { article: article("https://d", "Drei", "Text drei."), duplicate: true },
    );
    tally.record_fetch(&summary("https://e"), FetchOutcome::Failed("timeout".to_owned()));
    assert_eq!(tally.fetched.len(), 1);
    assert_eq!(tally.fetched[0].title, "Eins");
    assert_eq!(tally.skipped_existing, 3);
    assert_eq!(tally.processed, 5);
    assert_eq!(tally.failed.len(), 1);
    assert_eq!(tally.failed[0].category, "fetch");
}

#[test]
fn failed_batch_save_falls_back_to_single_saves() {
    let mut tally = ImportTally::new(0);
    assert!(tally.record_batch_save(Err("database is locked".to_owned())));
    assert_eq!(tally.saved_count, 0);
    assert!(tally.saved_articles.is_empty());
    assert!(!tally.record_batch_save(Ok(vec![stored(7, "https://a"), stored(8, "https://b")])));
    assert_eq!(tally.saved_count, 2);
    let ids: Vec<i64> = tally.saved_articles.iter().map(|c| c.id).collect();
    assert_eq!(ids, vec![7, 8]);
}

#[test]
fn fingerprints_are_sixteen_lower_case_hex_digits() {
    let fingerprint = debug_article_fingerprint(&article("https://a", "Titel", "Text."));
    assert_eq!(fingerprint.len(), 16);
    assert!(fingerprint.chars().all(|c| c.is_ascii_digit() || ('a'..='f').contains(&c)));
}

#[test]
fn errors_are_stamped_with_unix_seconds() {
    let error = AppError::new(AppErrorKind::Network, "browse", "timed out");
    assert!(!error.recorded_at.is_empty());
    assert!(error.recorded_at.chars().all(|c| c.is_ascii_digit()));
    assert!(error.recorded_at.parse::<u64>().unwrap() > 1_600_000_000);
}

#[test]
fn fingerprints_ignore_case_spacing_and_other_fields() {
    let a = article("https://a", "Eine Geschichte", "Ein Text über etwas.");
    let mut b = article("https://b", "  EINE geschichte\t", "  Ein Text über etwas.  ");
    b.teaser = "Ein Anriss".to_owned();
    b.section = "Interview".to_owned();
    b.word_count = 999;
    b.fetched_at = "1".to_owned();
    b.author = " anna beispiel ".to_owned();
    assert_eq!(debug_article_fingerprint(&a), debug_article_fingerprint(&b));
    let mut c = a.clone();
    c.date = "02.02.2024".to_owned();
    assert_ne!(debug_article_fingerprint(&a), debug_article_fingerprint(&c));
}

#[test]
fn jobs_that_cannot_run_report_one_failure() {
    let import = import_job_failed("database is locked".to_owned());
    assert_eq!(import.saved_count, 0);
    assert_eq!(import.failed.len(), 1);
    assert_eq!(import.failed[0].category, "error");
    assert_eq!(import.failed[0].message, "database is locked");
    assert!(!import.canceled);
    let upload = upload_job_failed("database is locked".to_owned());
    assert_eq!(upload.uploaded, 0);
    assert_eq!(upload.failed[0].title, "Upload job");
    assert_eq!(upload.failed[0].article_id, 0);
}

#[test]
fn stopped_workers_are_internal_failures() {
    let mut tally = ImportTally::new(0);
    tally.record_fetch(&summary("https://a"), FetchOutcome::Failed("timeout".to_owned()));
    tally.record_worker_stop("stopped".to_owned());
    assert_eq!(tally.processed, 2);
    assert_eq!(tally.failed[0].category, "internal");
    assert_eq!(tally.failed[0].message, "stopped");
    assert_eq!(tally.failed[1].category, "fetch");
    let mut uploads = UploadTally::new(Vec::new());
    uploads.record_worker_stop("stopped".to_owned());
    assert_eq!(uploads.processed, 1);
    assert_eq!(uploads.failed[0].title, "Internal task");
    assert_eq!(uploads.failed[0].article_id, 0);
}

#[test]
fn stored_tokens_are_trimmed() {
    assert_eq!(token_from_stored_password("  abc \n").as_deref(), Some("abc"));
    assert_eq!(token_from_stored_password("   "), None);
    assert_eq!(password_to_store(" abc "), "abc");
}
