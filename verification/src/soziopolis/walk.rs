//! Walking a section's listing pages one page at a time. The library
//! decides which page to read next and what a page read adds to the walk;
//! the caller fetches the pages.
use vstd::prelude::*;
use std::collections::VecDeque;
use crate::gui::handlers::contains_text;
use crate::soziopolis::headlines::{
    collect_articles_from_document, collect_from, entries_of, headline_selector,
    lemma_has_text_contains, opt_str_view, opt_view, page_contexts, report_has_room, Collected, ListingEntry,
};
use crate::soziopolis::listing::{
    desired_section_page_count, extract_paginated_section_urls, html_pagination_links,
    is_paginated_result, is_section_page_list, section_page_urls, spec_desired_section_page_count,
    MAX_SECTION_PAGE_DEPTH,
};
use crate::soziopolis::page::{selected_attr, selected_text_nodes};
use crate::soziopolis::types::{
    DiscoveryReport, DiscoverySourceKind, ReportCounts, Section, SectionBrowseState,
};
use crate::text::{chars_of, str_views};

verus! {

/// The next listing page to read, and the walk's queue, visited pages and
/// exhaustion after choosing it, for a walk holding `len` articles and
/// aiming at `target`: none once the target is met or the queue is empty
/// or the page budget is spent; pages already visited are dropped from
/// the queue.
pub open spec fn page_pick(
    pending: Seq<Seq<char>>,
    visited: Seq<Seq<char>>,
    exhausted: bool,
    len: nat,
    target: usize,
) -> (Option<Seq<char>>, Seq<Seq<char>>, Seq<Seq<char>>, bool)
    decreases pending.len(),
{
    if len >= target {
        (None, pending, visited, exhausted || pending.len() == 0)
    } else if pending.len() == 0 {
        (None, pending, visited, true)
    } else if visited.len() >= spec_desired_section_page_count(target) {
        (None, pending.drop_first(), visited, pending.drop_first().len() == 0)
    } else if visited.contains(pending[0]) {
        page_pick(pending.drop_first(), visited, exhausted, len, target)
    } else {
        (Some(pending[0]), pending.drop_first(), visited.push(pending[0]), exhausted)
    }
}

/// The discovered pages and the queue after adding `urls`: each one not
/// discovered yet joins both, in order.
pub open spec fn add_discovered(discovered: Seq<Seq<char>>, pending: Seq<Seq<char>>, urls: Seq<Seq<char>>) -> (
    Seq<Seq<char>>,
    Seq<Seq<char>>,
)
    decreases urls.len(),
{
    if urls.len() == 0 {
        (discovered, pending)
    } else {
        let (d, p) = add_discovered(discovered, pending, urls.drop_last());
        if d.contains(urls.last()) {
            (d, p)
        } else {
            (d.push(urls.last()), p.push(urls.last()))
        }
    }
}

/// The articles, seen addresses and counters of a walk.
pub open spec fn walk_collected(s: SectionBrowseState) -> Collected {
    Collected { entries: entries_of(s.articles@), seen: str_views(s.seen_article_urls@), counts: s.report@ }
}

/// What collecting the headlines of `html`, read from `source_url`, makes
/// of `start` for a section walk aiming at `limit` articles.
pub open spec fn section_page_collect(section: Section, html: Seq<char>, source_url: Seq<char>, limit: nat, start: Collected) -> Collected {
    collect_from(
        selected_attr(html, headline_selector(), "href"@),
        selected_text_nodes(html, headline_selector()),
        page_contexts(html),
        Some(section.label@),
        source_url,
        DiscoverySourceKind::Section,
        limit,
        start,
        0,
    )
}

/// Whether the report can count one more visited section page.
pub open spec fn visit_fits(c: ReportCounts) -> bool {
    c.plus(ReportCounts::visit(DiscoverySourceKind::Section)).fits()
}

/// Adds the URLs in `urls` that were not discovered yet to the discovered
/// pages and to the end of the queue.
fn queue_discovered(discovered: &mut Vec<String>, pending: &mut VecDeque<String>, urls: &Vec<String>)
    ensures
        (str_views(final(discovered)@), str_views(final(pending)@)) == add_discovered(
            str_views(old(discovered)@),
            str_views(old(pending)@),
            str_views(urls@),
        ),
{
    let ghost d0 = str_views(discovered@);
    let ghost p0 = str_views(pending@);
    let mut i: usize = 0;
    while i < urls.len()
        invariant
            i <= urls@.len(),
            (str_views(discovered@), str_views(pending@)) == add_discovered(d0, p0, str_views(urls@).take(i as int)),
        decreases urls@.len() - i,
    {
        let ghost uv = str_views(urls@).take(i + 1);
        assert(uv.drop_last() =~= str_views(urls@).take(i as int));
        assert(uv.last() == urls@[i as int]@);
        let known = contains_text(discovered, &chars_of(urls[i].as_str()));
        proof {
            lemma_has_text_contains(discovered@, urls@[i as int]@);
        }
        if !known {
            let ghost db = discovered@;
            let ghost pb = pending@;
            discovered.push(urls[i].clone());
            pending.push_back(urls[i].clone());
            assert(str_views(discovered@) =~= str_views(db).push(urls@[i as int]@));
            assert(str_views(pending@) =~= str_views(pb).push(urls@[i as int]@));
        }
        i = i + 1;
    }
    assert(str_views(urls@).take(urls@.len() as int) =~= str_views(urls@));
}

/// A walk of `section` after reading its first page `first_page_html`:
/// the page counted as visited, its headlines collected without limit, and
/// the later listing pages it points to queued (each discovered once).
pub fn start_section_browse(section: &Section, first_page_html: &str) -> (s: SectionBrowseState)
    ensures
        s.section == *section,
        walk_collected(s) == section_page_collect(
            *section,
            first_page_html@,
            section.url@,
            usize::MAX as nat,
            Collected {
                entries: Seq::empty(),
                seen: Seq::empty(),
                counts: ReportCounts::zero().plus(ReportCounts::visit(DiscoverySourceKind::Section)),
            },
        ),
        is_section_page_list(str_views(s.pending_page_urls@), *section, first_page_html@, MAX_SECTION_PAGE_DEPTH),
        str_views(s.discovered_page_urls@) == add_discovered(
            Seq::empty(),
            Seq::empty(),
            str_views(s.pending_page_urls@),
        ).0,
        str_views(s.visited_page_urls@) == seq![section.url@],
        s.exhausted == (s.pending_page_urls@.len() == 0),
{
    let mut articles: Vec<crate::soziopolis::types::ArticleSummary> = Vec::new();
    let mut seen: Vec<String> = Vec::new();
    let mut report = DiscoveryReport::new();
    report.record_source_visit(DiscoverySourceKind::Section);
    assert(entries_of(articles@) =~= Seq::<ListingEntry>::empty());
    assert(str_views(seen@) =~= Seq::<Seq<char>>::empty());
    let ok = collect_articles_from_document(
        first_page_html,
        Some(section.label),
        section.url,
        DiscoverySourceKind::Section,
        usize::MAX,
        &mut seen,
        &mut articles,
        &mut report,
    );
    assert(ok);
    let urls = section_page_urls(section, first_page_html, MAX_SECTION_PAGE_DEPTH);
    let mut discovered: Vec<String> = Vec::new();
    let mut throwaway: VecDeque<String> = VecDeque::new();
    assert(str_views(discovered@) =~= Seq::<Seq<char>>::empty());
    assert(str_views(throwaway@) =~= Seq::<Seq<char>>::empty());
    queue_discovered(&mut discovered, &mut throwaway, &urls);
    let mut pending: VecDeque<String> = VecDeque::new();
    let mut i: usize = 0;
    while i < urls.len()
        invariant
            i <= urls@.len(),
            str_views(pending@) =~= str_views(urls@).take(i as int),
        decreases urls@.len() - i,
    {
        let ghost pb = pending@;
        pending.push_back(urls[i].clone());
        assert(str_views(pending@) =~= str_views(pb).push(urls@[i as int]@));
        assert(str_views(urls@).take(i + 1) =~= str_views(urls@).take(i as int).push(urls@[i as int]@));
        i = i + 1;
    }
    assert(str_views(urls@).take(urls@.len() as int) =~= str_views(urls@));
    let mut visited: Vec<String> = Vec::new();
    visited.push(crate::text::string_of(&chars_of(section.url)));
    assert(str_views(visited@) =~= seq![section.url@]);
    assert(str_views(pending@) == str_views(urls@));
    assert(str_views(discovered@) == add_discovered(Seq::empty(), Seq::empty(), str_views(urls@)).0);
    assert(is_section_page_list(str_views(urls@), *section, first_page_html@, MAX_SECTION_PAGE_DEPTH));
    let exhausted = pending.len() == 0;
    SectionBrowseState {
        articles,
        report,
        exhausted,
        section: *section,
        pending_page_urls: pending,
        discovered_page_urls: discovered,
        seen_article_urls: seen,
        visited_page_urls: visited,
    }
}

impl SectionBrowseState {
    /// Chooses the next listing page to read while the walk holds fewer
    /// than `target_limit` articles: pages already visited are dropped from
    /// the queue, and the chosen page counts as visited. `None` ends this
    /// stretch of the walk, marking it exhausted when the queue ran dry.
    pub fn next_page(&mut self, target_limit: usize) -> (res: Option<String>)
        ensures
            ({
                let pick = page_pick(
                    str_views(old(self).pending_page_urls@),
                    str_views(old(self).visited_page_urls@),
                    old(self).exhausted,
                    old(self).articles@.len(),
                    target_limit,
                );
                &&& opt_view(res) == pick.0
                &&& str_views(final(self).pending_page_urls@) == pick.1
                &&& str_views(final(self).visited_page_urls@) == pick.2
                &&& final(self).exhausted == pick.3
            }),
            final(self).articles@ == old(self).articles@,
            final(self).report == old(self).report,
            final(self).section == old(self).section,
            final(self).discovered_page_urls@ == old(self).discovered_page_urls@,
            final(self).seen_article_urls@ == old(self).seen_article_urls@,
    {
        let ghost start = page_pick(
            str_views(self.pending_page_urls@),
            str_views(self.visited_page_urls@),
            self.exhausted,
            self.articles@.len(),
            target_limit,
        );
        let ghost articles0 = self.articles@;
        let ghost report0 = self.report;
        let ghost section0 = self.section;
        let ghost discovered0 = self.discovered_page_urls@;
        let ghost seen0 = self.seen_article_urls@;
        let max_pages = desired_section_page_count(target_limit);
        while self.articles.len() < target_limit
            invariant
                max_pages == spec_desired_section_page_count(target_limit),
                start == page_pick(
                    str_views(old(self).pending_page_urls@),
                    str_views(old(self).visited_page_urls@),
                    old(self).exhausted,
                    old(self).articles@.len(),
                    target_limit,
                ),
                articles0 == old(self).articles@,
                report0 == old(self).report,
                section0 == old(self).section,
                discovered0 == old(self).discovered_page_urls@,
                seen0 == old(self).seen_article_urls@,
                start == page_pick(
                    str_views(self.pending_page_urls@),
                    str_views(self.visited_page_urls@),
                    self.exhausted,
                    self.articles@.len(),
                    target_limit,
                ),
                self.articles@ == articles0,
                self.report == report0,
                self.section == section0,
                self.discovered_page_urls@ == discovered0,
                self.seen_article_urls@ == seen0,
            decreases self.pending_page_urls@.len(),
        {
            let ghost pv = str_views(self.pending_page_urls@);
            match self.pending_page_urls.pop_front() {
                None => {
                    self.exhausted = true;
                    return None;
                },
                Some(page) => {
                    assert(str_views(self.pending_page_urls@) =~= pv.drop_first());
                    assert(page@ == pv[0]);
                    if self.visited_page_urls.len() >= max_pages {
                        self.exhausted = self.pending_page_urls.len() == 0;
                        return None;
                    }
                    let known = contains_text(&self.visited_page_urls, &chars_of(page.as_str()));
                    proof {
                        lemma_has_text_contains(self.visited_page_urls@, page@);
                    }
                    if !known {
                        let ghost vb = self.visited_page_urls@;
                        self.visited_page_urls.push(page.clone());
                        assert(str_views(self.visited_page_urls@) =~= str_views(vb).push(page@));
                        return Some(page);
                    }
                },
            }
        }
        if self.pending_page_urls.len() == 0 {
            self.exhausted = true;
        }
        None
    }

    /// Takes in the listing page `page_url` just read, whose HTML is
    /// `html`: counts the visit, collects its headlines up to the walk's
    /// target (at least the articles it holds), and queues the later
    /// listing pages it points to that were not discovered yet. Succeeds
    /// exactly when the report can count the visit and then one more
    /// article per headline link; otherwise returns `false`, changing
    /// nothing when the visit cannot be counted and counting only the visit
    /// when the articles cannot.
    pub fn absorb_page(&mut self, page_url: &str, html: &str, target_limit: usize) -> (res: bool)
        ensures
            final(self).section == old(self).section,
            final(self).exhausted == old(self).exhausted,
            final(self).visited_page_urls@ == old(self).visited_page_urls@,
            res == (visit_fits(old(self).report@) && report_has_room(
                old(self).report@.plus(ReportCounts::visit(DiscoverySourceKind::Section)),
                selected_attr(html@, headline_selector(), "href"@).len(),
            )),
            !visit_fits(old(self).report@) ==> !res && final(self).report == old(self).report
                && final(self).articles@ == old(self).articles@,
            visit_fits(old(self).report@) && !res ==> final(self).report@ == old(self).report@.plus(
                ReportCounts::visit(DiscoverySourceKind::Section),
            ),
            !res ==> final(self).articles@ == old(self).articles@
                && final(self).seen_article_urls@ == old(self).seen_article_urls@
                && final(self).pending_page_urls@ == old(self).pending_page_urls@
                && final(self).discovered_page_urls@ == old(self).discovered_page_urls@,
            res ==> {
                let limit: nat = if target_limit < old(self).articles@.len() {
                    old(self).articles@.len()
                } else {
                    target_limit as nat
                };
                let visited = Collected {
                    counts: old(self).report@.plus(ReportCounts::visit(DiscoverySourceKind::Section)),
                    ..walk_collected(*old(self))
                };
                &&& walk_collected(*final(self)) == section_page_collect(old(self).section, html@, page_url@, limit, visited)
                &&& exists|urls: Seq<Seq<char>>|
                    is_paginated_result(urls, old(self).section, html_pagination_links(html@), MAX_SECTION_PAGE_DEPTH)
                        && (str_views(final(self).discovered_page_urls@), str_views(final(self).pending_page_urls@))
                        == add_discovered(
                        str_views(old(self).discovered_page_urls@),
                        str_views(old(self).pending_page_urls@),
                        urls,
                    )
            },
    {
        if self.report.source_pages_visited == usize::MAX || self.report.section_pages_visited == usize::MAX {
            return false;
        }
        let limit: usize = if target_limit < self.articles.len() { self.articles.len() } else { target_limit };
        self.report.record_source_visit(DiscoverySourceKind::Section);
        let ok = collect_articles_from_document(
            html,
            Some(self.section.label),
            page_url,
            DiscoverySourceKind::Section,
            limit,
            &mut self.seen_article_urls,
            &mut self.articles,
            &mut self.report,
        );
        if !ok {
            return false;
        }
        let urls = extract_paginated_section_urls(&self.section, html, MAX_SECTION_PAGE_DEPTH);
        queue_discovered(&mut self.discovered_page_urls, &mut self.pending_page_urls, &urls);
        assert(is_paginated_result(str_views(urls@), self.section, html_pagination_links(html@), MAX_SECTION_PAGE_DEPTH));
        true
    }
}

/// How many articles each section contributes when all sections are
/// browsed for `total_limit` articles: an even share, rounded up, kept
/// between 8 and 20.
pub open spec fn spec_per_section_limit(total_limit: usize, section_count: usize) -> usize {
    let n: int = if section_count == 0 { 1 } else { section_count as int };
    let share: int = (total_limit as int + n - 1) / n;
    if share < 8 {
        8
    } else if share > 20 {
        20
    } else {
        share as usize
    }
}

/// Each section's share of `total_limit` articles when all sections are
/// browsed.
pub fn per_section_limit(total_limit: usize, section_count: usize) -> (res: usize)
    ensures
        res == spec_per_section_limit(total_limit, section_count),
        8 <= res <= 20,
{
    let n: usize = if section_count == 0 { 1 } else { section_count };
    let q: usize = total_limit / n;
    let r: usize = total_limit % n;
    assert(r != 0 ==> n >= 2 && q < usize::MAX) by (nonlinear_arith)
        requires
            n >= 1,
            q == total_limit / n,
            r == total_limit % n,
            total_limit <= usize::MAX,
    {
        if r != 0 {
            assert(n != 1);
            assert(q * 2 <= q * n);
            assert(q * n <= total_limit);
        }
    }
    let share: usize = if r == 0 { q } else { q + 1 };
    assert(share as int == (total_limit as int + n - 1) / (n as int)) by (nonlinear_arith)
        requires
            n >= 1,
            q == total_limit / n,
            r == total_limit % n,
            share == if r == 0 { q as int } else { q + 1 },
    {
        assert(total_limit == n * q + r);
    }
    if share < 8 {
        8
    } else if share > 20 {
        20
    } else {
        share
    }
}

/// Whether no address occurs twice in `s`.
pub open spec fn distinct_pages(s: Seq<Seq<char>>) -> bool {
    forall|a: int, b: int| 0 <= a < b < s.len() ==> #[trigger] s[a] != #[trigger] s[b]
}

/// A walk reads each listing page at most once: the page chosen next was
/// not visited before, the visited pages only grow and stay distinct, and
/// the queue only shrinks.
pub proof fn law_walk_reads_each_page_once(
    pending: Seq<Seq<char>>,
    visited: Seq<Seq<char>>,
    exhausted: bool,
    len: nat,
    target: usize,
)
    requires
        distinct_pages(visited),
    ensures
        distinct_pages(page_pick(pending, visited, exhausted, len, target).2),
        visited.is_prefix_of(page_pick(pending, visited, exhausted, len, target).2),
        page_pick(pending, visited, exhausted, len, target).1.len() <= pending.len(),
        match page_pick(pending, visited, exhausted, len, target).0 {
            Some(page) => !visited.contains(page) && page_pick(pending, visited, exhausted, len, target).2
                == visited.push(page),
            None => page_pick(pending, visited, exhausted, len, target).2 == visited,
        },
    decreases pending.len(),
{
    if len >= target || pending.len() == 0 || visited.len() >= spec_desired_section_page_count(target) {
    } else if visited.contains(pending[0]) {
        law_walk_reads_each_page_once(pending.drop_first(), visited, exhausted, len, target);
    } else {
        let next = visited.push(pending[0]);
        assert forall|a: int, b: int| 0 <= a < b < next.len() implies #[trigger] next[a] != #[trigger] next[b] by {
            if b == next.len() - 1 {
                assert(next[a] == visited[a]);
            } else {
                assert(next[a] == visited[a] && next[b] == visited[b]);
            }
        }
    }
}

/// Queueing the pages a listing page points to never queues an address
/// twice through it: the discovered pages stay distinct, and what was
/// discovered or queued before stays, first and in order.
pub proof fn law_discovered_pages_stay_distinct(
    discovered: Seq<Seq<char>>,
    pending: Seq<Seq<char>>,
    urls: Seq<Seq<char>>,
)
    requires
        distinct_pages(discovered),
    ensures
        distinct_pages(add_discovered(discovered, pending, urls).0),
        discovered.is_prefix_of(add_discovered(discovered, pending, urls).0),
        pending.is_prefix_of(add_discovered(discovered, pending, urls).1),
        add_discovered(discovered, pending, urls).1.len() - pending.len() == add_discovered(discovered, pending, urls).0.len()
            - discovered.len(),
    decreases urls.len(),
{
    if urls.len() > 0 {
        law_discovered_pages_stay_distinct(discovered, pending, urls.drop_last());
        let (d, p) = add_discovered(discovered, pending, urls.drop_last());
        if !d.contains(urls.last()) {
            let nd = d.push(urls.last());
            assert forall|a: int, b: int| 0 <= a < b < nd.len() implies #[trigger] nd[a] != #[trigger] nd[b] by {
                if b == nd.len() - 1 {
                    assert(nd[a] == d[a]);
                } else {
                    assert(nd[a] == d[a] && nd[b] == d[b]);
                }
            }
            assert(discovered.is_prefix_of(nd)) by {
                assert forall|k: int| 0 <= k < discovered.len() implies discovered[k] == nd[k] by {
                    assert(nd[k] == d[k]);
                }
            }
            assert(pending.is_prefix_of(p.push(urls.last()))) by {
                assert forall|k: int| 0 <= k < pending.len() implies pending[k] == p.push(urls.last())[k] by {
                    assert(p.push(urls.last())[k] == p[k]);
                }
            }
        }
    }
}

/// Whether a page request answered with HTTP status `status` is worth
/// trying again: server errors, too many requests and request timeouts.
pub fn is_retryable_status(status: u16) -> (res: bool)
    ensures
        res == ((500 <= status && status <= 599) || status == 429 || status == 408),
{
    (500 <= status && status <= 599) || status == 429 || status == 408
}

/// How long to wait, in milliseconds, before trying a page request again
/// after failed attempt `attempt` (from 1): 450 ms per attempt made, and no
/// further try after the third attempt or when the failure is not worth
/// retrying.
pub fn retry_delay_ms(attempt: u32, retryable: bool) -> (res: Option<u64>)
    ensures
        res == (if retryable && 1 <= attempt && attempt < 3 {
            Some((450 * attempt) as u64)
        } else {
            None::<u64>
        }),
{
    if retryable && 1 <= attempt && attempt < 3 {
        Some(450 * (attempt as u64))
    } else {
        None
    }
}

} // verus!
