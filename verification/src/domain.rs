//! The library as the views list it: cards, pages and sort orders.
use vstd::prelude::*;
use crate::database::StoredArticle;

verus! {

/// How the library list is ordered.
#[derive(Debug, Clone, Copy, PartialEq, Eq, Structural)]
pub enum LibrarySortMode {
    Newest,
    Oldest,
    Longest,
    Shortest,
    Title,
}

impl LibrarySortMode {
    /// The display label of the order.
    pub open spec fn spec_label(self) -> Seq<char> {
        match self {
            LibrarySortMode::Newest => "Newest"@,
            LibrarySortMode::Oldest => "Oldest"@,
            LibrarySortMode::Longest => "Longest"@,
            LibrarySortMode::Shortest => "Shortest"@,
            LibrarySortMode::Title => "Title"@,
        }
    }

    /// The display label of the order.
    pub fn label(self) -> (res: &'static str)
        ensures
            res@ == self.spec_label(),
    {
        match self {
            LibrarySortMode::Newest => "Newest",
            LibrarySortMode::Oldest => "Oldest",
            LibrarySortMode::Longest => "Longest",
            LibrarySortMode::Shortest => "Shortest",
            LibrarySortMode::Title => "Title",
        }
    }
}

/// A library card: an article without its body.
#[derive(Debug, Clone)]
pub struct ArticleListItem {
    pub id: i64,
    pub url: String,
    pub title: String,
    pub subtitle: String,
    pub teaser: String,
    pub preview_summary: String,
    pub author: String,
    pub date: String,
    pub published_at: String,
    pub section: String,
    pub word_count: i64,
    pub fetched_at: String,
    pub custom_topic: String,
    pub uploaded_to_lingq: bool,
    pub lingq_lesson_id: Option<i64>,
    pub lingq_lesson_url: String,
}

/// One page of library cards.
#[derive(Debug, Clone)]
pub struct ArticleListPage {
    pub items: Vec<ArticleListItem>,
    pub total_count: usize,
    pub offset: usize,
    pub limit: usize,
}

/// The card of a stored article: the same fields, without the body, the
/// clean text, the provenance and the fingerprint.
pub open spec fn card_of(value: StoredArticle) -> ArticleListItem {
    ArticleListItem {
        id: value.id,
        url: value.url,
        title: value.title,
        subtitle: value.subtitle,
        teaser: value.teaser,
        preview_summary: value.preview_summary,
        author: value.author,
        date: value.date,
        published_at: value.published_at,
        section: value.section,
        word_count: value.word_count,
        fetched_at: value.fetched_at,
        custom_topic: value.custom_topic,
        uploaded_to_lingq: value.uploaded_to_lingq,
        lingq_lesson_id: value.lingq_lesson_id,
        lingq_lesson_url: value.lingq_lesson_url,
    }
}

impl ArticleListItem {
    /// A field-by-field copy.
    pub fn duplicate(&self) -> (res: ArticleListItem)
        ensures
            res == *self,
    {
        ArticleListItem {
            id: self.id,
            url: self.url.clone(),
            title: self.title.clone(),
            subtitle: self.subtitle.clone(),
            teaser: self.teaser.clone(),
            preview_summary: self.preview_summary.clone(),
            author: self.author.clone(),
            date: self.date.clone(),
            published_at: self.published_at.clone(),
            section: self.section.clone(),
            word_count: self.word_count,
            fetched_at: self.fetched_at.clone(),
            custom_topic: self.custom_topic.clone(),
            uploaded_to_lingq: self.uploaded_to_lingq,
            lingq_lesson_id: self.lingq_lesson_id,
            lingq_lesson_url: self.lingq_lesson_url.clone(),
        }
    }
}

impl From<StoredArticle> for ArticleListItem {
    fn from(value: StoredArticle) -> (res: ArticleListItem) {
        ArticleListItem {
            id: value.id,
            url: value.url,
            title: value.title,
            subtitle: value.subtitle,
            teaser: value.teaser,
            preview_summary: value.preview_summary,
            author: value.author,
            date: value.date,
            published_at: value.published_at,
            section: value.section,
            word_count: value.word_count,
            fetched_at: value.fetched_at,
            custom_topic: value.custom_topic,
            uploaded_to_lingq: value.uploaded_to_lingq,
            lingq_lesson_id: value.lingq_lesson_id,
            lingq_lesson_url: value.lingq_lesson_url,
        }
    }
}

impl vstd::std_specs::convert::FromSpecImpl<StoredArticle> for ArticleListItem {
    open spec fn obeys_from_spec() -> bool {
        true
    }

    open spec fn from_spec(v: StoredArticle) -> ArticleListItem {
        card_of(v)
    }
}

} // verus!
