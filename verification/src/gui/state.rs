//! The state of the desktop app: where the user is, what is loaded, the
//! LingQ connection and the job queue.
use vstd::prelude::*;
use crate::app_error::AppError;
use crate::database::{LibraryStats, StoredArticle};
use crate::domain::{ArticleListItem, ArticleListPage, LibrarySortMode};
use crate::jobs::{
    CompletedJob, FailedFetchItem, ImportProgress, JobKind, QueuedJob, UploadFailure,
    UploadProgress,
};
use crate::lingq::Collection;
use crate::services::BrowseSessionState;
use crate::settings::SettingsStore;
use crate::soziopolis::types::{Article, ArticleSummary, DiscoveryReport};

verus! {

/// The page the app shows (the views of the window).
#[derive(Debug, Clone, Copy, PartialEq, Eq, Structural)]
pub enum Screen {
    Browse,
    Library,
    Article,
    Diagnostics,
}

impl Screen {
    /// The name a view is saved under.
    pub open spec fn spec_as_str(self) -> Seq<char> {
        match self {
            Screen::Browse => "browse"@,
            Screen::Library => "library"@,
            Screen::Article => "article"@,
            Screen::Diagnostics => "diagnostics"@,
        }
    }

    /// The name this view is saved under.
    pub fn as_str(self) -> (res: &'static str)
        ensures
            res@ == self.spec_as_str(),
    {
        match self {
            Screen::Browse => "browse",
            Screen::Library => "library",
            Screen::Article => "article",
            Screen::Diagnostics => "diagnostics",
        }
    }

    /// The view a saved name stands for: `library` (or the older `lingq`),
    /// `article` and `diagnostics`; anything else is the browse view.
    pub open spec fn spec_from_str(value: Seq<char>) -> Screen {
        if value == "library"@ || value == "lingq"@ {
            Screen::Library
        } else if value == "article"@ {
            Screen::Article
        } else if value == "diagnostics"@ {
            Screen::Diagnostics
        } else {
            Screen::Browse
        }
    }

    /// The view saved under `value`.
    pub fn from_str(value: &str) -> (res: Screen)
        ensures
            res == Screen::spec_from_str(value@),
    {
        let v = crate::text::chars_of(value);
        if crate::text::chars_eq(&v, &crate::text::lit("library")) || crate::text::chars_eq(
            &v,
            &crate::text::lit("lingq"),
        ) {
            Screen::Library
        } else if crate::text::chars_eq(&v, &crate::text::lit("article")) {
            Screen::Article
        } else if crate::text::chars_eq(&v, &crate::text::lit("diagnostics")) {
            Screen::Diagnostics
        } else {
            Screen::Browse
        }
    }
}

/// Whether the browse list shows one section or all of them.
#[derive(Debug, Clone, Copy, PartialEq, Eq, Structural)]
pub enum BrowseScope {
    CurrentSection,
    AllSections,
}

impl BrowseScope {
    /// The label shown for a scope.
    pub open spec fn spec_label(self) -> Seq<char> {
        match self {
            BrowseScope::CurrentSection => "Current section"@,
            BrowseScope::AllSections => "All sections"@,
        }
    }

    /// The label shown for this scope.
    pub fn label(self) -> (res: &'static str)
        ensures
            res@ == self.spec_label(),
    {
        match self {
            BrowseScope::CurrentSection => "Current section",
            BrowseScope::AllSections => "All sections",
        }
    }
}

/// How a notice is styled.
#[derive(Debug, Clone, Copy, PartialEq, Eq, Structural)]
pub enum NoticeKind {
    Info,
    Success,
    Error,
}

/// How the user signs in to LingQ.
#[derive(Debug, Clone, Copy, PartialEq, Eq, Structural)]
pub enum LingqAuthMode {
    Account,
    Token,
}

impl LingqAuthMode {
    /// The label shown for a sign-in mode.
    pub open spec fn spec_label(self) -> Seq<char> {
        match self {
            LingqAuthMode::Account => "Account Login"@,
            LingqAuthMode::Token => "Token / API Key"@,
        }
    }

    /// The label shown for this sign-in mode.
    pub fn label(self) -> (res: &'static str)
        ensures
            res@ == self.spec_label(),
    {
        match self {
            LingqAuthMode::Account => "Account Login",
            LingqAuthMode::Token => "Token / API Key",
        }
    }
}

/// The message shown at the top of the window.
pub struct Notice {
    pub message: String,
    pub kind: NoticeKind,
}

/// The job being run, with its progress.
pub struct ActiveJob {
    pub id: u64,
    pub kind: JobKind,
    pub label: String,
    pub total: usize,
    pub processed: usize,
    pub succeeded: usize,
    pub failed: usize,
    pub current_item: String,
}

/// The browse page: the listing loaded, the selection and the import
/// results. Sets of URLs are kept as vectors; their order carries no meaning.
pub struct BrowseState {
    pub request_id: u64,
    pub section: String,
    pub limit: usize,
    pub scope: BrowseScope,
    pub articles: Vec<ArticleSummary>,
    pub report: Option<DiscoveryReport>,
    pub scope_label: String,
    pub search: String,
    pub selected: Vec<String>,
    pub only_new: bool,
    pub imported_urls: Vec<String>,
    pub loading: bool,
    pub end_reached: bool,
    pub session_state: Option<BrowseSessionState>,
    pub batch_fetching: bool,
    pub failed_fetches: Vec<FailedFetchItem>,
    pub import_progress: Option<ImportProgress>,
}

/// The preview drawer.
pub struct PreviewState {
    pub article: Option<Article>,
    pub stored_article: Option<StoredArticle>,
    pub loading: bool,
    pub show: bool,
}

/// The library page: the cards held in memory, the filters and the article
/// page.
pub struct LibraryState {
    pub content_refresh_request_id: u64,
    pub articles: Vec<ArticleListItem>,
    pub stats: Option<LibraryStats>,
    pub loading: bool,
    pub search: String,
    /// The search the results below were loaded for.
    pub search_query: String,
    pub search_results: Vec<ArticleListItem>,
    pub topic: String,
    pub only_not_uploaded: bool,
    pub word_count_min: String,
    pub word_count_max: String,
    pub group_by_topic: bool,
    pub sort_mode: LibrarySortMode,
    pub filters_expanded: bool,
    pub dense_mode: bool,
    pub page_index: usize,
    pub page_cache: Option<ArticleListPage>,
    pub article_detail: Option<StoredArticle>,
}

/// The LingQ connection and the upload selection (a set of ids kept as a
/// vector).
pub struct LingqState {
    pub api_key: String,
    pub auth_mode: LingqAuthMode,
    pub username: String,
    pub password: String,
    pub connected: bool,
    pub collections: Vec<Collection>,
    pub selected_collection: Option<i64>,
    pub selected_articles: Vec<i64>,
    pub word_count_min: String,
    pub word_count_max: String,
    pub select_only_not_uploaded: bool,
    pub show_settings: bool,
    pub loading_collections: bool,
    pub uploading: bool,
    pub upload_progress: Option<UploadProgress>,
}

/// The job queue: the running job, the jobs waiting, the history and the
/// failures kept for retrying and diagnosis.
pub struct JobQueue {
    pub next_job_id: u64,
    pub paused: bool,
    pub active_job: Option<ActiveJob>,
    pub queued: Vec<QueuedJob>,
    pub completed: Vec<CompletedJob>,
    pub last_failed_uploads: Vec<UploadFailure>,
    pub recent_task_failures: Vec<AppError>,
    pub diagnostics_selected_job_id: Option<u64>,
}

/// Everything the app knows between messages.
pub struct App {
    pub settings: SettingsStore,
    pub app_context_error: Option<String>,
    pub current_view: Screen,
    pub notice: Option<Notice>,
    /// Counts the notices set, so that the shell can time each one out.
    pub notice_serial: u64,
    pub browse: BrowseState,
    pub preview: PreviewState,
    pub library: LibraryState,
    pub lingq: LingqState,
    pub jobs: JobQueue,
}

/// At most this many finished jobs are kept in the history.
pub const COMPLETED_JOB_HISTORY_LIMIT: usize = 25;

/// At most this many task failures are kept.
pub const TASK_FAILURE_LIMIT: usize = 20;

/// How many more articles each "load more" asks for.
pub const BROWSE_PAGE_STEP: usize = 80;

} // verus!
