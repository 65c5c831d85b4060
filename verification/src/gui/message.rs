//! What can happen to the app (messages: the user's actions and the results
//! of work the shell ran) and the work the app asks the shell to run
//! (effects).
use vstd::prelude::*;
use crate::app_error::AppError;
use crate::database::StoredArticle;
use crate::domain::{ArticleListItem, LibrarySortMode};
use crate::gui::state::{LingqAuthMode, Screen};
use crate::jobs::{
    CompletedJob, FailedFetchItem, ImportProgress, UploadFailure, UploadProgress, UploadSuccess,
};
use crate::lingq::Collection;
use crate::services::{BrowseResponse, ContentRefreshResult};
use crate::soziopolis::types::{AllSectionsBrowseState, Article, ArticleSummary, SectionBrowseState};

verus! {

/// Where a loaded stored article is shown.
#[derive(Debug, Clone, Copy, PartialEq, Eq, Structural)]
pub enum DetailTarget {
    /// The preview drawer.
    Preview,
    /// The full article page.
    Page,
}

/// What follows once the LingQ token has been stored.
#[derive(Debug, Clone, Copy, PartialEq, Eq, Structural)]
pub enum KeyFollowUp {
    /// The user connected with a typed token.
    Connect,
    /// A login returned the token.
    Login,
}

/// Which selection to make once a library search has been loaded.
#[derive(Debug, Clone, Copy, PartialEq, Eq, Structural)]
pub enum SelectionRequest {
    /// Every card the filters show.
    AllVisible,
    /// Every card the filters show that is not uploaded yet.
    AllNotUploaded,
}

/// A message to the app.
pub enum Message {
    SwitchView(Screen),
    ToggleLingqSettings,
    ClosePreview,
    BrowseSectionChanged(String),
    BrowseSearchChanged(String),
    BrowseToggleOnlyNew(bool),
    BrowseToggleArticle(String),
    BrowseRefresh,
    BrowseAllSections,
    BrowseLoadMore,
    BrowseSelectVisibleNew,
    BrowseClearSelection,
    BrowseFetchSelected,
    BrowseFindNew,
    BrowseLoaded { request_id: u64, result: Result<BrowseResponse, AppError> },
    OpenPreview(String),
    OpenLibraryPreview(i64),
    PreviewLoaded(Result<(Article, Option<StoredArticle>), AppError>),
    OpenFullArticle(i64),
    LibrarySearchChanged(String),
    LibraryTopicChanged(String),
    LibraryToggleNotUploaded(bool),
    LibraryMinWordsChanged(String),
    LibraryMaxWordsChanged(String),
    LibrarySortChanged(LibrarySortMode),
    LibraryToggleDense(bool),
    LibraryToggleGroupByTopic(bool),
    LibraryToggleFilters,
    LibraryRefresh,
    LibrarySelectAllVisible,
    LibrarySelectAllNotUploaded,
    LibraryClearSelection,
    LibraryToggleArticle(i64),
    LibraryDeleteArticle(i64),
    LibraryNextPage,
    LibraryPrevPage,
    ArticleBack,
    ArticleCopyText,
    OpenArticle(i64),
    LingqAuthModeChanged(LingqAuthMode),
    LingqUsernameChanged(String),
    LingqPasswordChanged(String),
    LingqApiKeyChanged(String),
    LingqConnect,
    LingqDisconnect,
    LingqSignIn,
    LingqCollectionChanged(Option<i64>),
    LingqRefreshCollections,
    LingqLoggedIn(Result<String, AppError>),
    CollectionsLoaded(Result<Vec<Collection>, AppError>),
    LingqClearUploadSelection,
    LingqUploadSelected,
    ImportProgress(ImportProgress),
    BatchFetched {
        job_id: u64,
        saved_count: usize,
        saved_articles: Vec<ArticleListItem>,
        skipped_existing: usize,
        skipped_out_of_range: usize,
        failed: Vec<FailedFetchItem>,
        canceled: bool,
    },
    UploadProgressMsg { job_id: u64, progress: UploadProgress },
    BatchUploaded {
        job_id: u64,
        uploaded: usize,
        successes: Vec<UploadSuccess>,
        failed: Vec<UploadFailure>,
        canceled: bool,
    },
    ContentRefreshCompleted { request_id: u64, reason: String, result: ContentRefreshResult },
    ContentRefreshFailed { request_id: u64, reason: String, error: AppError },
    CancelActiveJob,
    PauseQueue,
    ResumeQueue,
    RunQueuedUploadNow,
    ClearQueuedJobs,
    RetryFailedImports,
    RetryFailedUploads,
    SelectDiagnosticsJob(u64),
    OpenDataFolder,
    OpenLogFile,
    CopyRecentLog,
    CreateSupportBundle,
    ClearBrowseCache,
    CompactLocalData,
    RebuildSearchIndex,
    VerifyDatabase,
    ClearTaskFailures,
    NoticeExpired,
    OpenUrl(String),
    Tick,
    Noop,
    /// A stored article was read for the preview or the article page.
    ArticleDetailLoaded { id: i64, target: DetailTarget, result: Result<Option<StoredArticle>, String> },
    /// An article was deleted from the library, or could not be.
    ArticleDeleted { id: i64, result: Result<(), String> },
    /// A full-text library search was run for a selection.
    LibrarySearchLoaded { query: String, request: SelectionRequest, result: Result<Vec<ArticleListItem>, String> },
    /// The LingQ token was stored, or could not be.
    ApiKeyStored { api_key: String, follow_up: KeyFollowUp, result: Result<(), String> },
    /// The stored LingQ token was removed, or could not be.
    ApiKeyCleared(Result<(), String>),
    /// The settings could not be written.
    SettingsSaveFailed(String),
    /// A folder or file could not be opened.
    OpenFailed(String),
    /// The end of the log was read.
    RecentLogRead(Result<String, String>),
    /// A support bundle was written to the given folder.
    SupportBundleCreated(Result<String, String>),
    /// The browse cache was cleared of this many files.
    BrowseCacheCleared(Result<usize, String>),
    /// The database was compacted.
    LocalDataCompacted(Result<(), String>),
    /// The search index was rebuilt.
    SearchIndexRebuilt(Result<(), String>),
    /// The database integrity check reported this.
    DatabaseVerified(Result<String, String>),
}

/// Work the shell runs for the app; its result comes back as a message.
pub enum Effect {
    /// Write `App::settings` to its file.
    SaveSettings,
    /// Write the queue (`App::queue_snapshot`) to the database.
    PersistQueue,
    /// Add a finished job to the database's job history.
    RecordJobHistory(CompletedJob),
    BrowseSection { request_id: u64, section: String, limit: usize },
    BrowseAllSections { request_id: u64, limit: usize },
    ContinueSection { request_id: u64, state: SectionBrowseState, limit: usize },
    ContinueAllSections { request_id: u64, state: AllSectionsBrowseState, limit: usize },
    RefreshContent { request_id: u64, reason: String },
    PreviewArticle { url: String },
    LoadArticleDetail { id: i64, target: DetailTarget },
    DeleteArticle { id: i64 },
    SearchLibrary { query: String, request: SelectionRequest },
    LoadCollections { api_key: String },
    Login { username: String, password: String },
    StoreApiKey { api_key: String, follow_up: KeyFollowUp },
    ClearApiKey,
    RunImport { job_id: u64, articles: Vec<ArticleSummary> },
    RunUpload { job_id: u64, ids: Vec<i64>, api_key: String, collection_id: Option<i64> },
    CancelJob { job_id: u64 },
    CopyToClipboard(String),
    OpenUrl(String),
    OpenDataFolder,
    OpenLogFile,
    CopyRecentLog,
    CreateSupportBundle,
    ClearBrowseCache,
    CompactLocalData,
    RebuildSearchIndex,
    VerifyDatabase,
}

} // verus!
