//! How the app answers each message: `App::update` hands each message to its
//! handler and returns the work the shell is to run.
use vstd::prelude::*;
use crate::gui::handlers::{
    has_text, toggled_id, toggled_text, without_id, without_text,
    after_all_sections,
    after_article_deleted,
    after_batch_fetched,
    after_batch_uploaded,
    after_browse_loaded,
    after_browse_refresh,
    after_cancel,
    after_clear_browse_selection,
    after_clear_failures,
    after_clear_queue,
    after_clear_upload_selection,
    after_close_preview,
    after_collection_changed,
    after_collections_loaded,
    after_content_refresh_failed,
    after_content_refreshed,
    after_copy_text,
    after_detail_loaded,
    after_expire_notice,
    after_fetch_selected,
    after_import_progress,
    after_key_cleared,
    after_key_stored,
    after_load_more,
    after_log_read,
    after_logged_in,
    after_next_library_page,
    after_only_new,
    after_pause,
    after_preview_loaded,
    after_previous_library_page,
    after_resume,
    after_retry_imports,
    after_retry_uploads,
    after_run_upload_now,
    after_search_loaded,
    after_section_changed,
    after_select_all,
    after_select_diagnostics_job,
    after_select_visible_new,
    after_set_browse_search,
    after_set_library_dense,
    after_set_library_group_by_topic,
    after_set_library_max_words,
    after_set_library_min_words,
    after_set_library_only_not_uploaded,
    after_set_library_search,
    after_set_library_sort,
    after_set_library_topic,
    after_set_lingq_api_key,
    after_set_lingq_auth_mode,
    after_set_lingq_password,
    after_set_lingq_username,
    after_switch_view,
    after_toggle_browse_article,
    after_toggle_library_article,
    after_toggle_library_filters,
    after_toggle_lingq_settings,
    after_upload_progress,
    after_upload_selected,
    key_store_requested,
    notice_shown,
    outcome_noticed,
};
use crate::gui::message::{DetailTarget, Effect, KeyFollowUp, Message, SelectionRequest};
use crate::gui::state::{App, NoticeKind, PreviewState, Screen, BROWSE_PAGE_STEP};
use crate::gui::tasks::{collections_requested, content_refresh_started, login_requested};
use crate::text::{append_chars, chars_of, decimal, decimal_vec, lit};

verus! {

/// What a message may be answered in: "load more" needs room to raise the
/// limit by a page, "next page" room to count one more page.
pub open spec fn update_allowed(app: App, message: Message) -> bool {
    &&& message is BrowseLoadMore ==> app.browse.limit + BROWSE_PAGE_STEP <= usize::MAX
    &&& message is LibraryNextPage ==> app.library.page_index < usize::MAX
}

/// What `update` does with each message: `new` is the state after it and
/// `fx` the work asked of the shell, in order.
pub open spec fn update_post(old: App, message: Message, new: App, fx: Seq<Effect>) -> bool {
    match message {
        Message::SwitchView(v) => after_switch_view(old, v, new, fx),
        Message::ToggleLingqSettings => after_toggle_lingq_settings(old, new) && fx.len() == 0,
        Message::ClosePreview => after_close_preview(old, new) && fx.len() == 0,
        Message::BrowseSectionChanged(section) => after_section_changed(old, section, new, fx),
        Message::BrowseSearchChanged(v) => after_set_browse_search(old, v, new) && fx.len() == 0,
        Message::BrowseToggleOnlyNew(b) => after_only_new(old, b, new, fx),
        Message::BrowseToggleArticle(url) => after_toggle_browse_article(old, url, new) && fx.len() == 0,
        Message::BrowseRefresh => after_browse_refresh(old, new, fx),
        Message::BrowseAllSections => after_all_sections(old, false, new, fx),
        Message::BrowseLoadMore => after_load_more(old, new, fx),
        Message::BrowseSelectVisibleNew => after_select_visible_new(old, new) && fx.len() == 0,
        Message::BrowseClearSelection => after_clear_browse_selection(old, new) && fx.len() == 0,
        Message::BrowseFetchSelected => after_fetch_selected(old, new, fx),
        Message::BrowseFindNew => after_all_sections(old, true, new, fx),
        Message::BrowseLoaded { request_id, result } => after_browse_loaded(old, request_id, result, new) && fx.len() == 0,
        Message::OpenPreview(url) => new == (App { preview: PreviewState { loading: true, show: true, article: None, stored_article: None }, ..old }) && fx == seq![Effect::PreviewArticle { url }],
        Message::OpenLibraryPreview(id) => new == old && fx == seq![Effect::LoadArticleDetail { id, target: DetailTarget::Preview }],
        Message::PreviewLoaded(result) => after_preview_loaded(old, result, new) && fx.len() == 0,
        Message::OpenFullArticle(id) => after_close_preview(old, new) && fx == seq![Effect::LoadArticleDetail { id, target: DetailTarget::Page }],
        Message::LibrarySearchChanged(v) => after_set_library_search(old, v, new) && fx.len() == 0,
        Message::LibraryTopicChanged(v) => after_set_library_topic(old, v, new) && fx.len() == 0,
        Message::LibraryToggleNotUploaded(v) => after_set_library_only_not_uploaded(old, v, new) && fx.len() == 0,
        Message::LibraryMinWordsChanged(v) => after_set_library_min_words(old, v, new) && fx.len() == 0,
        Message::LibraryMaxWordsChanged(v) => after_set_library_max_words(old, v, new) && fx.len() == 0,
        Message::LibrarySortChanged(v) => after_set_library_sort(old, v, new) && fx.len() == 0,
        Message::LibraryToggleDense(v) => after_set_library_dense(old, v, new) && fx.len() == 0,
        Message::LibraryToggleGroupByTopic(v) => after_set_library_group_by_topic(old, v, new) && fx.len() == 0,
        Message::LibraryToggleFilters => after_toggle_library_filters(old, new) && fx.len() == 0,
        Message::LibraryRefresh => content_refresh_started(old, new, "manual library refresh"@, fx),
        Message::LibrarySelectAllVisible => after_select_all(old, SelectionRequest::AllVisible, new, fx),
        Message::LibrarySelectAllNotUploaded => after_select_all(old, SelectionRequest::AllNotUploaded, new, fx),
        Message::LibraryClearSelection => after_clear_upload_selection(old, new) && fx.len() == 0,
        Message::LibraryToggleArticle(id) => after_toggle_library_article(old, id, new) && fx.len() == 0,
        Message::LibraryDeleteArticle(id) => new == old && fx == seq![Effect::DeleteArticle { id }],
        Message::LibraryNextPage => after_next_library_page(old, new) && fx.len() == 0,
        Message::LibraryPrevPage => after_previous_library_page(old, new) && fx.len() == 0,
        Message::ArticleBack => after_switch_view(old, Screen::Library, new, fx),
        Message::ArticleCopyText => after_copy_text(old, new, fx),
        Message::OpenArticle(id) => new == old && fx == seq![Effect::LoadArticleDetail { id, target: DetailTarget::Page }],
        Message::LingqAuthModeChanged(m) => after_set_lingq_auth_mode(old, m, new) && fx.len() == 0,
        Message::LingqUsernameChanged(v) => after_set_lingq_username(old, v, new) && fx.len() == 0,
        Message::LingqPasswordChanged(v) => after_set_lingq_password(old, v, new) && fx.len() == 0,
        Message::LingqApiKeyChanged(v) => after_set_lingq_api_key(old, v, new) && fx.len() == 0,
        Message::LingqConnect => key_store_requested(old, KeyFollowUp::Connect, new, fx),
        Message::LingqDisconnect => new == old && fx == seq![Effect::ClearApiKey],
        Message::LingqSignIn => login_requested(old, new, fx),
        Message::LingqCollectionChanged(id) => after_collection_changed(old, id, new, fx),
        Message::LingqRefreshCollections => collections_requested(old, new, fx),
        Message::LingqLoggedIn(result) => after_logged_in(old, result, new, fx),
        Message::CollectionsLoaded(result) => after_collections_loaded(old, result, new, fx),
        Message::LingqClearUploadSelection => after_clear_upload_selection(old, new) && fx.len() == 0,
        Message::LingqUploadSelected => after_upload_selected(old, new, fx),
        Message::ImportProgress(progress) => after_import_progress(old, progress, new) && fx.len() == 0,
        Message::BatchFetched { job_id, saved_count, saved_articles, skipped_existing, skipped_out_of_range, failed, canceled } => after_batch_fetched(old, job_id, saved_count, saved_articles@, skipped_existing, skipped_out_of_range, failed@, canceled, new, fx),
        Message::UploadProgressMsg { job_id, progress } => after_upload_progress(old, job_id, progress, new) && fx.len() == 0,
        Message::BatchUploaded { job_id, uploaded, successes, failed, canceled } => after_batch_uploaded(old, job_id, uploaded, successes@, failed@, canceled, new, fx),
        Message::ContentRefreshCompleted { request_id, reason, result } => after_content_refreshed(old, request_id, reason@, result, new) && fx.len() == 0,
        Message::ContentRefreshFailed { request_id, reason, error } => after_content_refresh_failed(old, request_id, reason@, error, new) && fx.len() == 0,
        Message::CancelActiveJob => after_cancel(old, new, fx),
        Message::PauseQueue => after_pause(old, new, fx),
        Message::ResumeQueue => after_resume(old, new, fx),
        Message::RunQueuedUploadNow => after_run_upload_now(old, new, fx),
        Message::ClearQueuedJobs => after_clear_queue(old, new, fx),
        Message::RetryFailedImports => after_retry_imports(old, new, fx),
        Message::RetryFailedUploads => after_retry_uploads(old, new, fx),
        Message::SelectDiagnosticsJob(id) => after_select_diagnostics_job(old, id, new) && fx.len() == 0,
        Message::OpenDataFolder => new == old && fx == seq![Effect::OpenDataFolder],
        Message::OpenLogFile => new == old && fx == seq![Effect::OpenLogFile],
        Message::CopyRecentLog => new == old && fx == seq![Effect::CopyRecentLog],
        Message::CreateSupportBundle => new == old && fx == seq![Effect::CreateSupportBundle],
        Message::ClearBrowseCache => new == old && fx == seq![Effect::ClearBrowseCache],
        Message::CompactLocalData => new == old && fx == seq![Effect::CompactLocalData],
        Message::RebuildSearchIndex => new == old && fx == seq![Effect::RebuildSearchIndex],
        Message::VerifyDatabase => new == old && fx == seq![Effect::VerifyDatabase],
        Message::ClearTaskFailures => after_clear_failures(old, new) && fx.len() == 0,
        Message::NoticeExpired => after_expire_notice(old, new) && fx.len() == 0,
        Message::OpenUrl(url) => new == old && fx == seq![Effect::OpenUrl(url)],
        Message::Tick => new == old && fx.len() == 0,
        Message::Noop => new == old && fx.len() == 0,
        Message::ArticleDetailLoaded { id, target, result } => after_detail_loaded(old, target, result, new, fx),
        Message::ArticleDeleted { id, result } => after_article_deleted(old, id, result, new) && fx.len() == 0,
        Message::LibrarySearchLoaded { query, request, result } => after_search_loaded(old, query, request, result, new) && fx.len() == 0,
        Message::ApiKeyStored { api_key, follow_up, result } => after_key_stored(old, api_key, follow_up, result, new, fx),
        Message::ApiKeyCleared(result) => after_key_cleared(old, result, new, fx),
        Message::SettingsSaveFailed(e) => notice_shown(old, new, "Could not save app settings: "@ + e@, NoticeKind::Error) && fx.len() == 0,
        Message::OpenFailed(e) => notice_shown(old, new, e@, NoticeKind::Error) && fx.len() == 0,
        Message::RecentLogRead(result) => after_log_read(old, result, new, fx),
        Message::SupportBundleCreated(result) => outcome_noticed(old, new, match result { Ok(p) => Ok("Created support bundle at "@ + p@ + "."@), Err(e) => Err(e@) }, NoticeKind::Success) && fx.len() == 0,
        Message::BrowseCacheCleared(result) => outcome_noticed(old, new, match result { Ok(n) => Ok("Cleared "@ + decimal(n as nat) + " cached file(s)."@), Err(e) => Err(e@) }, NoticeKind::Success) && fx.len() == 0,
        Message::LocalDataCompacted(result) => outcome_noticed(old, new, match result { Ok(_) => Ok("Compacted local database."@), Err(e) => Err(e@) }, NoticeKind::Success) && fx.len() == 0,
        Message::SearchIndexRebuilt(result) => outcome_noticed(old, new, match result { Ok(_) => Ok("Rebuilt search index."@), Err(e) => Err(e@) }, NoticeKind::Success) && fx.len() == 0,
        Message::DatabaseVerified(result) => outcome_noticed(old, new, match result { Ok(r) => Ok("Integrity check: "@ + r@), Err(e) => Err(e@) }, NoticeKind::Info) && fx.len() == 0,
    }
}

fn one(effect: Effect) -> (fx: Vec<Effect>)
    ensures
        fx@ == seq![effect],
{
    let mut fx: Vec<Effect> = Vec::new();
    fx.push(effect);
    fx
}

impl App {
    /// Answers `message`: the state moves on and the work to run comes back.
    pub fn update(&mut self, message: Message) -> (fx: Vec<Effect>)
        requires
            update_allowed(*old(self), message),
        ensures
            update_post(*old(self), message, *final(self), fx@),
    {
        match message {
            Message::SwitchView(v) => self.switch_view(v),
            Message::ToggleLingqSettings => { self.toggle_lingq_settings(); Vec::new() },
            Message::ClosePreview => { self.close_preview(); Vec::new() },
            Message::BrowseSectionChanged(section) => self.browse_section_changed(section),
            Message::BrowseSearchChanged(v) => { self.set_browse_search(v); Vec::new() },
            Message::BrowseToggleOnlyNew(b) => self.browse_toggle_only_new(b),
            Message::BrowseToggleArticle(url) => { self.toggle_browse_article(url); Vec::new() },
            Message::BrowseRefresh => self.browse_refresh(),
            Message::BrowseAllSections => self.browse_all_with_filter(false),
            Message::BrowseLoadMore => self.browse_load_more(),
            Message::BrowseSelectVisibleNew => { self.browse_select_visible_new(); Vec::new() },
            Message::BrowseClearSelection => { self.clear_browse_selection(); Vec::new() },
            Message::BrowseFetchSelected => self.browse_fetch_selected(),
            Message::BrowseFindNew => self.browse_all_with_filter(true),
            Message::BrowseLoaded { request_id, result } => { self.browse_loaded(request_id, result); Vec::new() },
            Message::OpenPreview(url) => self.spawn_open_preview(url),
            Message::OpenLibraryPreview(id) => one(Effect::LoadArticleDetail { id, target: DetailTarget::Preview }),
            Message::PreviewLoaded(result) => { self.preview_loaded(result); Vec::new() },
            Message::OpenFullArticle(id) => { self.close_preview(); one(Effect::LoadArticleDetail { id, target: DetailTarget::Page }) },
            Message::LibrarySearchChanged(v) => { self.set_library_search(v); Vec::new() },
            Message::LibraryTopicChanged(v) => { self.set_library_topic(v); Vec::new() },
            Message::LibraryToggleNotUploaded(v) => { self.set_library_only_not_uploaded(v); Vec::new() },
            Message::LibraryMinWordsChanged(v) => { self.set_library_min_words(v); Vec::new() },
            Message::LibraryMaxWordsChanged(v) => { self.set_library_max_words(v); Vec::new() },
            Message::LibrarySortChanged(v) => { self.set_library_sort(v); Vec::new() },
            Message::LibraryToggleDense(v) => { self.set_library_dense(v); Vec::new() },
            Message::LibraryToggleGroupByTopic(v) => { self.set_library_group_by_topic(v); Vec::new() },
            Message::LibraryToggleFilters => { self.toggle_library_filters(); Vec::new() },
            Message::LibraryRefresh => self.spawn_content_refresh("manual library refresh"),
            Message::LibrarySelectAllVisible => self.select_all(SelectionRequest::AllVisible),
            Message::LibrarySelectAllNotUploaded => self.select_all(SelectionRequest::AllNotUploaded),
            Message::LibraryClearSelection => { self.clear_upload_selection(); Vec::new() },
            Message::LibraryToggleArticle(id) => { self.toggle_library_article(id); Vec::new() },
            Message::LibraryDeleteArticle(id) => one(Effect::DeleteArticle { id }),
            Message::LibraryNextPage => { self.next_library_page(); Vec::new() },
            Message::LibraryPrevPage => { self.previous_library_page(); Vec::new() },
            Message::ArticleBack => self.switch_view(Screen::Library),
            Message::ArticleCopyText => self.article_copy_text(),
            Message::OpenArticle(id) => one(Effect::LoadArticleDetail { id, target: DetailTarget::Page }),
            Message::LingqAuthModeChanged(m) => { self.set_lingq_auth_mode(m); Vec::new() },
            Message::LingqUsernameChanged(v) => { self.set_lingq_username(v); Vec::new() },
            Message::LingqPasswordChanged(v) => { self.set_lingq_password(v); Vec::new() },
            Message::LingqApiKeyChanged(v) => { self.set_lingq_api_key(v); Vec::new() },
            Message::LingqConnect => self.lingq_connect(),
            Message::LingqDisconnect => one(Effect::ClearApiKey),
            Message::LingqSignIn => self.spawn_login_to_lingq(),
            Message::LingqCollectionChanged(id) => self.lingq_collection_changed(id),
            Message::LingqRefreshCollections => self.spawn_load_collections(),
            Message::LingqLoggedIn(result) => self.lingq_logged_in(result),
            Message::CollectionsLoaded(result) => self.collections_loaded(result),
            Message::LingqClearUploadSelection => { self.clear_upload_selection(); Vec::new() },
            Message::LingqUploadSelected => self.lingq_upload_selected(),
            Message::ImportProgress(progress) => { self.import_progress(progress); Vec::new() },
            Message::BatchFetched { job_id, saved_count, saved_articles, skipped_existing, skipped_out_of_range, failed, canceled } => self.batch_fetched(job_id, saved_count, saved_articles, skipped_existing, skipped_out_of_range, failed, canceled),
            Message::UploadProgressMsg { job_id, progress } => { self.upload_progress(job_id, progress); Vec::new() },
            Message::BatchUploaded { job_id, uploaded, successes, failed, canceled } => self.batch_uploaded(job_id, uploaded, successes, failed, canceled),
            Message::ContentRefreshCompleted { request_id, reason, result } => { self.content_refresh_completed(request_id, reason, result); Vec::new() },
            Message::ContentRefreshFailed { request_id, reason, error } => { self.content_refresh_failed(request_id, reason, error); Vec::new() },
            Message::CancelActiveJob => self.cancel_active_job(),
            Message::PauseQueue => self.pause_queue(),
            Message::ResumeQueue => self.resume_queue(),
            Message::RunQueuedUploadNow => self.run_queued_upload_now(),
            Message::ClearQueuedJobs => self.clear_queued_jobs(),
            Message::RetryFailedImports => self.retry_failed_imports(),
            Message::RetryFailedUploads => self.retry_failed_uploads(),
            Message::SelectDiagnosticsJob(id) => { self.select_diagnostics_job(id); Vec::new() },
            Message::OpenDataFolder => one(Effect::OpenDataFolder),
            Message::OpenLogFile => one(Effect::OpenLogFile),
            Message::CopyRecentLog => one(Effect::CopyRecentLog),
            Message::CreateSupportBundle => one(Effect::CreateSupportBundle),
            Message::ClearBrowseCache => one(Effect::ClearBrowseCache),
            Message::CompactLocalData => one(Effect::CompactLocalData),
            Message::RebuildSearchIndex => one(Effect::RebuildSearchIndex),
            Message::VerifyDatabase => one(Effect::VerifyDatabase),
            Message::ClearTaskFailures => { self.clear_task_failures(); Vec::new() },
            Message::NoticeExpired => { self.expire_notice(); Vec::new() },
            Message::OpenUrl(url) => one(Effect::OpenUrl(url)),
            Message::Tick => Vec::new(),
            Message::Noop => Vec::new(),
            Message::ArticleDetailLoaded { id, target, result } => self.article_detail_loaded(target, result),
            Message::ArticleDeleted { id, result } => { self.article_deleted(id, result); Vec::new() },
            Message::LibrarySearchLoaded { query, request, result } => { self.library_search_loaded(query, request, result); Vec::new() },
            Message::ApiKeyStored { api_key, follow_up, result } => self.api_key_stored(api_key, follow_up, result),
            Message::ApiKeyCleared(result) => self.api_key_cleared(result),
            Message::SettingsSaveFailed(e) => { let mut text = lit("Could not save app settings: "); append_chars(&mut text, &chars_of(e.as_str())); self.outcome_notice(Ok(text), NoticeKind::Error); Vec::new() },
            Message::OpenFailed(e) => { self.outcome_notice(Err(e), NoticeKind::Error); Vec::new() },
            Message::RecentLogRead(result) => self.recent_log_read(result),
            Message::SupportBundleCreated(result) => { let text = match result { Ok(p) => { let mut t = lit("Created support bundle at "); append_chars(&mut t, &chars_of(p.as_str())); append_chars(&mut t, &lit(".")); Ok(t) }, Err(e) => Err(e) }; self.outcome_notice(text, NoticeKind::Success); Vec::new() },
            Message::BrowseCacheCleared(result) => { let text = match result { Ok(n) => { let mut t = lit("Cleared "); append_chars(&mut t, &decimal_vec(n)); append_chars(&mut t, &lit(" cached file(s).")); Ok(t) }, Err(e) => Err(e) }; self.outcome_notice(text, NoticeKind::Success); Vec::new() },
            Message::LocalDataCompacted(result) => { let text = match result { Ok(_) => Ok(lit("Compacted local database.")), Err(e) => Err(e) }; self.outcome_notice(text, NoticeKind::Success); Vec::new() },
            Message::SearchIndexRebuilt(result) => { let text = match result { Ok(_) => Ok(lit("Rebuilt search index.")), Err(e) => Err(e) }; self.outcome_notice(text, NoticeKind::Success); Vec::new() },
            Message::DatabaseVerified(result) => { let text = match result { Ok(r) => { let mut t = lit("Integrity check: "); append_chars(&mut t, &chars_of(r.as_str())); Ok(t) }, Err(e) => Err(e) }; self.outcome_notice(text, NoticeKind::Info); Vec::new() },
        }
    }
}


// ───────────────────────────── laws of the selections ─────────────────────────────

proof fn lemma_without_text(v: Seq<String>, x: Seq<char>, y: Seq<char>)
    ensures
        has_text(without_text(v, x), y) == (has_text(v, y) && y != x),
    decreases v.len(),
{
    if v.len() > 0 {
        lemma_without_text(v.drop_last(), x, y);
        let rest = without_text(v.drop_last(), x);
        assert(v =~= v.drop_last().push(v.last()));
        lemma_has_text_push(v.drop_last(), v.last(), y);
        lemma_has_text_push(rest, v.last(), y);
    } else {
        assert(!has_text(v, y));
    }
}

proof fn lemma_has_text_push(v: Seq<String>, x: String, y: Seq<char>)
    ensures
        has_text(v.push(x), y) == (has_text(v, y) || x@ == y),
{
    if has_text(v, y) {
        let i = choose|i: int| 0 <= i < v.len() && (#[trigger] v[i])@ == y;
        assert(v.push(x)[i] == v[i]);
    }
    if x@ == y {
        assert(v.push(x)[v.len() as int] == x);
    }
    if has_text(v.push(x), y) && x@ != y {
        let i = choose|i: int| 0 <= i < v.push(x).len() && (#[trigger] v.push(x)[i])@ == y;
        assert(v[i] == v.push(x)[i]);
    }
}

/// Toggling an article twice leaves the browse selection holding the same
/// URLs as before.
pub proof fn law_toggle_twice_restores_selection(v: Seq<String>, url: String, y: Seq<char>)
    ensures
        has_text(toggled_text(toggled_text(v, url), url), y) == has_text(v, y),
{
    lemma_without_text(v, url@, y);
    lemma_has_text_push(v, url, y);
    lemma_without_text(v.push(url), url@, y);
    lemma_without_text(v, url@, url@);
    lemma_has_text_push(v, url, url@);
    lemma_has_text_push(without_text(v, url@), url, y);
}

proof fn lemma_contains_push(v: Seq<i64>, x: i64, y: i64)
    ensures
        v.push(x).contains(y) == (v.contains(y) || x == y),
{
    if v.contains(y) {
        let i = choose|i: int| 0 <= i < v.len() && v[i] == y;
        assert(v.push(x)[i] == v[i]);
    }
    if x == y {
        assert(v.push(x)[v.len() as int] == x);
    }
    if v.push(x).contains(y) && x != y {
        let i = choose|i: int| 0 <= i < v.push(x).len() && v.push(x)[i] == y;
        assert(v[i] == v.push(x)[i]);
    }
}

proof fn lemma_without_id(v: Seq<i64>, x: i64, y: i64)
    ensures
        without_id(v, x).contains(y) == (v.contains(y) && y != x),
    decreases v.len(),
{
    if v.len() > 0 {
        lemma_without_id(v.drop_last(), x, y);
        let rest = without_id(v.drop_last(), x);
        assert(v =~= v.drop_last().push(v.last()));
        lemma_contains_push(v.drop_last(), v.last(), y);
        lemma_contains_push(rest, v.last(), y);
    }
}

/// Toggling a card twice leaves the upload selection holding the same ids as
/// before.
pub proof fn law_toggle_twice_restores_upload_selection(v: Seq<i64>, id: i64, y: i64)
    ensures
        toggled_id(toggled_id(v, id), id).contains(y) == v.contains(y),
{
    lemma_without_id(v, id, y);
    lemma_without_id(v.push(id), id, y);
    lemma_without_id(v, id, id);
    lemma_contains_push(v, id, y);
    lemma_contains_push(v, id, id);
    lemma_contains_push(without_id(v, id), id, y);
}

} // verus!
