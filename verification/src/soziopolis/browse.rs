//! Browse sessions: merging the per-section walks of an all-sections browse.
use vstd::prelude::*;
use crate::soziopolis::types::{
    AllSectionsBrowseState, ArticleSummary, BrowseSectionResult, DiscoveryReport, ReportCounts,
    SectionBrowseState,
};
use crate::text::{chars_of, position_of_chars, str_views, views};
use std::collections::VecDeque;

verus! {

impl ArticleSummary {
    /// A field-by-field copy.
    pub fn duplicate(&self) -> (res: ArticleSummary)
        ensures
            res == *self,
    {
        ArticleSummary {
            url: self.url.clone(),
            title: self.title.clone(),
            teaser: self.teaser.clone(),
            author: self.author.clone(),
            date: self.date.clone(),
            section: self.section.clone(),
            source_kind: self.source_kind,
            source_label: self.source_label.clone(),
        }
    }
}

impl DiscoveryReport {
    /// A field-by-field copy.
    pub fn duplicate(&self) -> (res: DiscoveryReport)
        ensures
            res == *self,
    {
        DiscoveryReport { ..*self }
    }
}

/// Two walks through a section are in the same state.
pub open spec fn same_walk(a: SectionBrowseState, b: SectionBrowseState) -> bool {
    &&& a.articles@ == b.articles@
    &&& a.report == b.report
    &&& a.exhausted == b.exhausted
    &&& a.section == b.section
    &&& a.pending_page_urls@ == b.pending_page_urls@
    &&& a.discovered_page_urls@ == b.discovered_page_urls@
    &&& a.seen_article_urls@ == b.seen_article_urls@
    &&& a.visited_page_urls@ == b.visited_page_urls@
}

/// A copy of a sequence of strings.
pub fn copy_strings(v: &Vec<String>) -> (res: Vec<String>)
    ensures
        res@ == v@,
{
    let mut out: Vec<String> = Vec::new();
    let mut i: usize = 0;
    while i < v.len()
        invariant
            i <= v@.len(),
            out@ =~= v@.take(i as int),
        decreases v@.len() - i,
    {
        out.push(v[i].clone());
        i = i + 1;
    }
    assert(v@.take(v@.len() as int) =~= v@);
    out
}

/// A copy of a queue of strings.
pub fn copy_string_queue(v: &VecDeque<String>) -> (res: VecDeque<String>)
    ensures
        res@ == v@,
{
    let mut out: VecDeque<String> = VecDeque::new();
    let mut i: usize = 0;
    while i < v.len()
        invariant
            i <= v@.len(),
            out@ =~= v@.take(i as int),
        decreases v@.len() - i,
    {
        out.push_back(v[i].clone());
        i = i + 1;
    }
    assert(v@.take(v@.len() as int) =~= v@);
    out
}

impl SectionBrowseState {
    /// A field-by-field copy.
    pub fn duplicate(&self) -> (res: SectionBrowseState)
        ensures
            same_walk(res, *self),
    {
        SectionBrowseState {
            articles: crate::jobs::copy_summaries(&self.articles),
            report: self.report.duplicate(),
            exhausted: self.exhausted,
            section: self.section,
            pending_page_urls: copy_string_queue(&self.pending_page_urls),
            discovered_page_urls: copy_strings(&self.discovered_page_urls),
            seen_article_urls: copy_strings(&self.seen_article_urls),
            visited_page_urls: copy_strings(&self.visited_page_urls),
        }
    }
}

impl AllSectionsBrowseState {
    /// A copy of every section's walk.
    pub fn duplicate(&self) -> (res: AllSectionsBrowseState)
        ensures
            res.section_states@.len() == self.section_states@.len(),
            forall|i: int|
                0 <= i < res.section_states@.len() ==> same_walk(
                    #[trigger] res.section_states@[i],
                    self.section_states@[i],
                ),
    {
        let mut out: Vec<SectionBrowseState> = Vec::new();
        let mut i: usize = 0;
        while i < self.section_states.len()
            invariant
                i <= self.section_states@.len(),
                out@.len() == i,
                forall|k: int| 0 <= k < i ==> same_walk(#[trigger] out@[k], self.section_states@[k]),
            decreases self.section_states@.len() - i,
        {
            out.push(self.section_states[i].duplicate());
            i = i + 1;
        }
        AllSectionsBrowseState { section_states: out }
    }
}

/// At most this many sections are fetched at the same time.
pub const MAX_BROWSE_SECTION_WORKERS: usize = 4;

/// How many sections to fetch at once: `section_count` clamped to 1..=4.
pub fn browse_section_worker_count(section_count: usize) -> (res: usize)
    ensures
        res == (if section_count < 1 { 1 } else if section_count > MAX_BROWSE_SECTION_WORKERS { MAX_BROWSE_SECTION_WORKERS } else { section_count }),
{
    if section_count < 1 {
        1
    } else if section_count > MAX_BROWSE_SECTION_WORKERS {
        MAX_BROWSE_SECTION_WORKERS
    } else {
        section_count
    }
}

/// The URLs of a sequence of summaries.
pub open spec fn summary_urls(s: Seq<ArticleSummary>) -> Seq<Seq<char>> {
    s.map_values(|a: ArticleSummary| a.url@)
}

/// Taking one more article into a merge limited to `limit` articles: none
/// once the limit is reached, a repeat of a taken URL only counted.
pub open spec fn merge_article_step(acc: (Seq<ArticleSummary>, nat), a: ArticleSummary, limit: usize) -> (
    Seq<ArticleSummary>,
    nat,
) {
    if acc.0.len() >= limit {
        acc
    } else if summary_urls(acc.0).contains(a.url@) {
        (acc.0, acc.1 + 1)
    } else {
        (acc.0.push(a), acc.1)
    }
}

/// Merging the articles of one section walk, in order.
pub open spec fn merge_articles(
    acc: (Seq<ArticleSummary>, nat),
    arts: Seq<ArticleSummary>,
    limit: usize,
) -> (Seq<ArticleSummary>, nat)
    decreases arts.len(),
{
    if arts.len() == 0 {
        acc
    } else {
        merge_article_step(merge_articles(acc, arts.drop_last(), limit), arts.last(), limit)
    }
}

/// The merge so far: the taken articles, the summed report, and whether the
/// limit was reached at the end of a section.
pub open spec fn merge_sections(states: Seq<SectionBrowseState>, limit: usize) -> (
    Seq<ArticleSummary>,
    ReportCounts,
    bool,
)
    decreases states.len(),
{
    if states.len() == 0 {
        (Seq::empty(), ReportCounts::zero(), false)
    } else {
        let prev = merge_sections(states.drop_last(), limit);
        if prev.2 {
            prev
        } else {
            let st = states.last();
            let inner = merge_articles((prev.0, 0), st.articles@, limit);
            (
                inner.0,
                prev.1.plus(st.report@).plus(ReportCounts { deduped_articles: inner.1, ..ReportCounts::zero() }),
                inner.0.len() >= limit,
            )
        }
    }
}

/// Every walk has no pending listing page.
pub open spec fn all_exhausted(states: Seq<SectionBrowseState>) -> bool {
    forall|i: int| 0 <= i < states.len() ==> (#[trigger] states[i]).exhausted
}

proof fn lemma_merge_articles_grow(acc: (Seq<ArticleSummary>, nat), arts: Seq<ArticleSummary>, limit: usize)
    ensures
        merge_articles(acc, arts, limit).1 >= acc.1,
        merge_articles(acc, arts, limit).0.len() >= acc.0.len(),
    decreases arts.len(),
{
    if arts.len() > 0 {
        lemma_merge_articles_grow(acc, arts.drop_last(), limit);
    }
}

/// The merged report only grows as more sections are merged.
proof fn lemma_merge_sections_mono(states: Seq<SectionBrowseState>, limit: usize, i: int)
    requires
        0 <= i <= states.len(),
    ensures
        ({
            let a = merge_sections(states.take(i), limit).1;
            let b = merge_sections(states, limit).1;
            &&& a.source_pages_visited <= b.source_pages_visited
            &&& a.section_pages_visited <= b.section_pages_visited
            &&& a.subsection_pages_visited <= b.subsection_pages_visited
            &&& a.topic_pages_visited <= b.topic_pages_visited
            &&& a.section_articles <= b.section_articles
            &&& a.subsection_articles <= b.subsection_articles
            &&& a.topic_articles <= b.topic_articles
            &&& a.deduped_articles <= b.deduped_articles
        }),
    decreases states.len() - i,
{
    if i < states.len() {
        lemma_merge_sections_mono(states, limit, i + 1);
        assert(states.take(i + 1).drop_last() =~= states.take(i));
    } else {
        assert(states.take(i) =~= states);
    }
}

/// Each merged article is taken from some walk, no URL is taken twice, and
/// at most `limit` are taken.
pub open spec fn merge_wf(arts: Seq<ArticleSummary>, states: Seq<SectionBrowseState>, limit: usize) -> bool {
    &&& arts.len() <= limit
    &&& forall|i: int, j: int| 0 <= i < j < arts.len() ==> arts[i].url@ != arts[j].url@
    &&& forall|i: int|
        0 <= i < arts.len() ==> exists|s: int, k: int|
            0 <= s < states.len() && 0 <= k < states[s].articles@.len() && states[s].articles@[k]
                == #[trigger] arts[i]
}

/// Merges the walks of all sections into one listing: articles in section
/// order, each URL once, at most `total_limit` of them, with the summed
/// report; exhausted only when every walk is.
pub fn merge_all_sections_states(section_states: &[SectionBrowseState], total_limit: usize) -> (res:
    BrowseSectionResult)
    requires
        merge_sections(section_states@, total_limit).1.fits(),
    ensures
        res.articles@ == merge_sections(section_states@, total_limit).0,
        res.report@ == merge_sections(section_states@, total_limit).1,
        res.exhausted == all_exhausted(section_states@),
        merge_wf(res.articles@, section_states@, total_limit),
{
    match try_merge_all_sections_states(section_states, total_limit) {
        Some(merged) => merged,
        None => {
            assert(false);
            BrowseSectionResult { articles: Vec::new(), report: DiscoveryReport::new(), exhausted: false }
        },
    }
}

/// Whether the merged report of all walks has room in every counter, as
/// merging them asks.
pub fn merged_report_fits(section_states: &[SectionBrowseState], total_limit: usize) -> (res: bool)
    ensures
        res == merge_sections(section_states@, total_limit).1.fits(),
{
    try_merge_all_sections_states(section_states, total_limit).is_some()
}

/// The merge of `merge_all_sections_states`, or `None` when a counter of the
/// merged report would not fit in `usize`.
fn try_merge_all_sections_states(section_states: &[SectionBrowseState], total_limit: usize) -> (res: Option<
    BrowseSectionResult,
>)
    ensures
        res is Some <==> merge_sections(section_states@, total_limit).1.fits(),
        res matches Some(r) ==> {
            &&& r.articles@ == merge_sections(section_states@, total_limit).0
            &&& r.report@ == merge_sections(section_states@, total_limit).1
            &&& r.exhausted == all_exhausted(section_states@)
            &&& merge_wf(r.articles@, section_states@, total_limit)
        },
{
    let ghost states = section_states@;
    let mut merged: Vec<ArticleSummary> = Vec::new();
    let mut seen: Vec<Vec<char>> = Vec::new();
    let mut report = DiscoveryReport::new();
    let n: usize = section_states.len();
    let mut i: usize = 0;
    let mut stopped: bool = false;
    assert(states.take(0) =~= Seq::<SectionBrowseState>::empty());
    while i < n && !stopped
        invariant
            i <= n,
            n == states.len(),
            states == section_states@,
            merge_sections(states.take(i as int), total_limit) == (merged@, report@, stopped),
            views(seen@) == summary_urls(merged@),
            merge_wf(merged@, states, total_limit),
        decreases n - i,
    {
        assert(states.take(i + 1).drop_last() =~= states.take(i as int));
        assert(states.take(i + 1).last() == states[i as int]);
        let state = &section_states[i];
        proof {
            lemma_merge_sections_mono(states, total_limit, i + 1);
            lemma_merge_articles_grow((merged@, 0), state.articles@, total_limit);
        }
        if !report.fits_with(&state.report) {
            return None;
        }
        report.merge(&state.report);
        let ghost base = merged@;
        let ghost base_report = report@;
        let m: usize = state.articles.len();
        let mut k: usize = 0;
        let mut deduped: usize = 0;
        assert(state.articles@.take(0) =~= Seq::<ArticleSummary>::empty());
        proof {
            let prev = merge_sections(states.take(i as int), total_limit);
            assert(merge_sections(states.take(i + 1), total_limit).1.deduped_articles == report@.deduped_articles + merge_articles((base, 0), state.articles@, total_limit).1);
        }
        while k < m && merged.len() < total_limit
            invariant
                k <= m,
                m == state.articles@.len(),
                state == section_states[i as int],
                states == section_states@,
                0 <= i < states.len(),
                merge_articles((base, 0), state.articles@.take(k as int), total_limit) == (
                    merged@,
                    deduped as nat,
                ),
                deduped <= k,
                views(seen@) == summary_urls(merged@),
                merge_wf(merged@, states, total_limit),
            decreases m - k,
        {
            assert(state.articles@.take(k + 1).drop_last() =~= state.articles@.take(k as int));
            assert(state.articles@.take(k + 1).last() == state.articles@[k as int]);
            proof {
                let rest = state.articles@.skip(k + 1);
                assert(state.articles@ =~= state.articles@.take(k + 1) + rest);
                lemma_merge_articles_split((base, 0), state.articles@.take(k + 1), rest, total_limit);
                lemma_merge_articles_grow(merge_articles((base, 0), state.articles@.take(k + 1), total_limit), rest, total_limit);
            }
            let article = &state.articles[k];
            let url = chars_of(article.url.as_str());
            let pos = position_of_chars(&seen, &url);
            if pos.is_some() {
                assert(summary_urls(merged@).contains(article.url@)) by {
                    assert(summary_urls(merged@)[pos.unwrap() as int] == article.url@);
                }
                deduped = deduped + 1;
            } else {
                assert(!summary_urls(merged@).contains(article.url@)) by {
                    if summary_urls(merged@).contains(article.url@) {
                        let w = choose|w: int| 0 <= w < summary_urls(merged@).len() && summary_urls(merged@)[w] == article.url@;
                        assert(views(seen@)[w] == article.url@);
                    }
                }
                let ghost before = merged@;
                let ghost before_seen = seen@;
                merged.push(article.duplicate());
                seen.push(url);
                assert(summary_urls(merged@) =~= summary_urls(before).push(article.url@));
                assert(views(seen@) =~= views(before_seen).push(url@));
                assert(merge_wf(merged@, states, total_limit)) by {
                    assert forall|a: int, b: int| 0 <= a < b < merged@.len() implies merged@[a].url@ != merged@[b].url@ by {
                        if b == before.len() {
                            assert(summary_urls(before)[a] == before[a].url@);
                        }
                    }
                    assert forall|a: int| 0 <= a < merged@.len() implies exists|s: int, kk: int|
                        0 <= s < states.len() && 0 <= kk < states[s].articles@.len() && states[s].articles@[kk]
                            == #[trigger] merged@[a] by {
                        if a == before.len() {
                            assert(states[i as int].articles@[k as int] == merged@[a]);
                        } else {
                            assert(merged@[a] == before[a]);
                        }
                    }
                }
            }
            k = k + 1;
        }
        proof {
            if k < m {
                // stopped early at the limit: the rest changes nothing
                lemma_merge_articles_at_limit((merged@, deduped as nat), state.articles@.skip(k as int), total_limit);
                assert(state.articles@ =~= state.articles@.take(k as int) + state.articles@.skip(k as int));
                lemma_merge_articles_split((base, 0), state.articles@.take(k as int), state.articles@.skip(k as int), total_limit);
            } else {
                assert(state.articles@.take(m as int) =~= state.articles@);
            }
        }
        let ghost inner = merge_articles((base, 0), state.articles@, total_limit);
        assert(inner == (merged@, deduped as nat));
        if report.deduped_articles > usize::MAX - deduped {
            return None;
        }
        report.deduped_articles = report.deduped_articles + deduped;
        assert(report@ == base_report.plus(ReportCounts { deduped_articles: deduped as nat, ..ReportCounts::zero() }));
        stopped = merged.len() >= total_limit;
        i = i + 1;
    }
    proof {
        if i < n {
            lemma_merge_sections_done(states, total_limit, i as int);
        } else {
            assert(states.take(n as int) =~= states);
        }
    }
    let mut exhausted: bool = true;
    let mut j: usize = 0;
    while j < n
        invariant
            j <= n,
            n == section_states@.len(),
            exhausted == forall|a: int| 0 <= a < j ==> (#[trigger] section_states@[a]).exhausted,
        decreases n - j,
    {
        exhausted = exhausted && section_states[j].exhausted;
        j = j + 1;
    }
    Some(BrowseSectionResult { articles: merged, report, exhausted })
}

proof fn lemma_merge_articles_split(
    acc: (Seq<ArticleSummary>, nat),
    a: Seq<ArticleSummary>,
    b: Seq<ArticleSummary>,
    limit: usize,
)
    ensures
        merge_articles(acc, a + b, limit) == merge_articles(merge_articles(acc, a, limit), b, limit),
    decreases b.len(),
{
    if b.len() == 0 {
        assert(a + b =~= a);
    } else {
        lemma_merge_articles_split(acc, a, b.drop_last(), limit);
        assert((a + b).drop_last() =~= a + b.drop_last());
        assert((a + b).last() == b.last());
    }
}

proof fn lemma_merge_articles_at_limit(acc: (Seq<ArticleSummary>, nat), arts: Seq<ArticleSummary>, limit: usize)
    requires
        acc.0.len() >= limit,
    ensures
        merge_articles(acc, arts, limit) == acc,
    decreases arts.len(),
{
    if arts.len() > 0 {
        lemma_merge_articles_at_limit(acc, arts.drop_last(), limit);
    }
}

proof fn lemma_merge_sections_done(states: Seq<SectionBrowseState>, limit: usize, i: int)
    requires
        0 <= i <= states.len(),
        merge_sections(states.take(i), limit).2,
    ensures
        merge_sections(states, limit) == merge_sections(states.take(i), limit),
    decreases states.len() - i,
{
    if i < states.len() {
        assert(states.take(i + 1).drop_last() =~= states.take(i));
        lemma_merge_sections_done(states, limit, i + 1);
    } else {
        assert(states.take(i) =~= states);
    }
}

} // verus!
