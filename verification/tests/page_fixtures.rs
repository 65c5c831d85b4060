//! Listing and article pages shaped like Soziopolis pages.
use soziopolis_lingq_tool::soziopolis::article::build_clean_text;
use soziopolis_lingq_tool::soziopolis::headlines::collect_articles_from_document;
use soziopolis_lingq_tool::soziopolis::page::{collect_authors, extract_body, extract_section, first_text};
use soziopolis_lingq_tool::soziopolis::types::{DiscoveryReport, DiscoverySourceKind};

const ARTICLE_PAGE: &str = r#"<!DOCTYPE html>
<html><head>
<title>Im Strudel des Digitalen | Soziopolis</title>
<meta property="og:title" content="Im Strudel des Digitalen">
</head><body>
<div class="article-header">
  <p class="article-overline"><span class="article-type">Essay</span> <span class="author-name">Sybille Kraemer</span></p>
  <h1 class="article-title">Im Strudel des Digitalen</h1>
  <h2 class="article-subtitle">Rezension zu "Der Stachel des Digitalen. Geisteswissenschaften und Digital Humanities" von Sybille Kraemer</h2>
</div>
<div class="article-content">
  <p>Der Stachel des Digitalen ist ein Buch, das die Geisteswissenschaften herausfordert und zugleich ermutigt.</p>
  <h2>Zwischen Daten und Deutung</h2>
  <p>Wer Texte zählt, deutet sie noch nicht; wer sie deutet, kommt ohne Zählen aber kaum noch aus.</p>
  <p>Artikel lesen</p>
</div>
</body></html>"#;

const SECTION_PAGE: &str = r#"<html><body>
<div class="article-list">
  <div class="article-list-item">
    <p class="article-overline"><span class="article-type">Essay</span> <span class="author-name">Sybille Kraemer</span></p>
    <h2><a href="/texte/essay/im-strudel-des-digitalen.html">Im Strudel des Digitalen</a></h2>
    <p class="article-abstract">Was die Digital Humanities für die Geisteswissenschaften bedeuten.</p>
    <p class="article-date">19.02.2026</p>
  </div>
  <div class="article-list-item">
    <h3><a href="https://www.soziopolis.de/texte/essay/im-strudel-des-digitalen.html">Im Strudel des Digitalen</a></h3>
  </div>
  <div class="article-list-item">
    <p class="article-overline"><span class="article-type">Essay</span> <span class="author-name">Test Autorin</span></p>
    <h2><a href="/texte/essay/mood-tracker.html">Mood Tracker</a></h2>
    <p class="article-abstract">Über Selbstvermessung im Alltag und ihre Folgen.</p>
    <p class="article-date">17.02.2026</p>
  </div>
</div>
</body></html>"#;

const ESSAY_LISTING: &str = r#"<html><body>
<div class="article-list-item">
  <p class="article-overline"><span class="article-type">Essay</span> <span class="author-name">Stephanie Kappacher</span> <span class="author-name">Felix Beispiel</span></p>
  <h2 class="article-title"><a href="/texte/essay/buchempfehlungen-zum-fruehling.html">Buchempfehlungen zum Frühling</a></h2>
  <p class="article-abstract">Lektüretipps der Redaktion für die ersten warmen Tage.</p>
  <time>10.04.2026</time>
</div>
<div class="article-list-item">
  <p class="article-overline"><span class="article-type">Essay</span> <span class="author-name">Anna Beispiel</span></p>
  <h2 class="article-title"><a href="/texte/essay/eine-zweite-geschichte.html">Eine zweite Geschichte</a></h2>
  <p class="article-abstract">Ein zweiter Text für die Liste der Essays.</p>
  <time>09.04.2026</time>
</div>
</body></html>"#;

const INTERVIEW_LISTING: &str = r#"<html><body>
<div class="article-list-item">
  <p class="article-overline"><span class="article-type">Interview</span> <span class="author-name">Gonzalo Haefner</span></p>
  <h3><a href="/texte/interview/tierrechte-sind-juridische-bauchrednerei.html">„Tierrechte sind juridische Bauchrednerei“</a></h3>
  <p class="list-text">Ein Gespräch über Tiere, Recht und Stellvertretung.</p>
  <span class="article-date">04.03.2026</span>
</div>
<div class="article-list-item">
  <p class="article-overline"><span class="article-type">Interview</span> <span class="author-name">Nora Beispiel</span></p>
  <h3><a href="/texte/interview/ein-weiteres-gespraech.html">Ein weiteres Gespräch</a></h3>
  <span class="article-date">01.03.2026</span>
</div>
</body></html>"#;

fn collect(html: &str, fallback: &str, source_url: &str) -> (Vec<soziopolis_lingq_tool::soziopolis::types::ArticleSummary>, DiscoveryReport) {
    let mut seen = Vec::new();
    let mut articles = Vec::new();
    let mut report = DiscoveryReport::new();
    assert!(collect_articles_from_document(
        html,
        Some(fallback),
        source_url,
        DiscoverySourceKind::Section,
        10,
        &mut seen,
        &mut articles,
        &mut report,
    ));
    (articles, report)
}

#[test]
fn article_fixture_extracts_expected_fields() {
    let title = first_text(ARTICLE_PAGE, &vec!["h1.article-title", "h1", "meta[property=\"og:title\"]", "title"])
        .expect("fixture title");
    let subtitle = first_text(ARTICLE_PAGE, &vec!["h2.article-subtitle", "meta[name=\"description\"]"])
        .expect("fixture subtitle");
    let author = collect_authors(ARTICLE_PAGE);
    let section = extract_section(ARTICLE_PAGE).expect("fixture section");
    let body = extract_body(ARTICLE_PAGE).expect("fixture body");
    let clean_text = build_clean_text(&title, &subtitle, &author, "2026-02-19", &body);

    assert_eq!(title, "Im Strudel des Digitalen");
    assert_eq!(
        subtitle,
        "Rezension zu \"Der Stachel des Digitalen. Geisteswissenschaften und Digital Humanities\" von Sybille Kraemer"
    );
    assert_eq!(author, "Sybille Kraemer");
    assert_eq!(section, "Essay");
    assert!(body.contains("## Zwischen Daten und Deutung"));
    assert!(body.contains("Der Stachel des Digitalen"));
    assert!(!body.contains("Artikel lesen"));
    assert!(clean_text.contains("Von Sybille Kraemer"));
}

#[test]
fn section_fixture_discovers_unique_articles_and_teasers() {
    let (articles, report) = collect(SECTION_PAGE, "Essays", "https://www.soziopolis.de/texte/essay.html");
    assert_eq!(articles.len(), 2);
    assert_eq!(report.section_articles, 2);
    assert_eq!(report.deduped_articles, 1);
    assert_eq!(articles[0].title, "Im Strudel des Digitalen");
    assert_eq!(articles[0].author, "Sybille Kraemer");
    assert_eq!(articles[0].date, "19.02.2026");
    assert!(articles[0].teaser.contains("Geisteswissenschaften"));
    assert_eq!(articles[1].title, "Mood Tracker");
    assert_eq!(articles[1].author, "Test Autorin");
    assert_eq!(articles[1].date, "17.02.2026");
    assert!(articles[1].teaser.contains("Selbstvermessung"));
}

#[test]
fn real_essay_listing_fixture_preserves_author_date_and_teaser() {
    let (articles, _) = collect(ESSAY_LISTING, "Essays", "https://www.soziopolis.de/texte/essay.html");
    assert!(articles.len() >= 2);
    assert_eq!(articles[0].title, "Buchempfehlungen zum Frühling");
    assert_eq!(articles[0].date, "10.04.2026");
    assert!(articles[0].author.contains("Stephanie Kappacher"));
    assert!(articles[0].teaser.contains("Lektüretipps"));
}

#[test]
fn real_interview_listing_fixture_preserves_article_metadata() {
    let (articles, _) = collect(INTERVIEW_LISTING, "Interviews", "https://www.soziopolis.de/texte/interview.html");
    assert!(articles.len() >= 2);
    assert_eq!(articles[0].title, "„Tierrechte sind juridische Bauchrednerei“");
    assert_eq!(articles[0].date, "04.03.2026");
    assert_eq!(articles[0].section, "Interview");
    assert!(articles[0].author.contains("Gonzalo Haefner"));
}
