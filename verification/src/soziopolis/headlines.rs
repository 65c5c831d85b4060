//! Finding articles on a Soziopolis listing page: the headline links, the
//! teaser and metadata printed around each, and which of them count.
use vstd::prelude::*;
use crate::gui::handlers::{contains_text, has_text};
use crate::soziopolis::article::{is_good_teaser_candidate, spec_is_good_teaser_candidate};
use crate::soziopolis::listing::{
    absolute_url, is_excluded_article_url, looks_like_article_title, source_label,
    spec_absolute_url, spec_is_excluded_article_url, spec_looks_like_article_title,
    spec_source_label,
};
use crate::soziopolis::page::{
    ancestor_selections, around_view, arounds_view, distinct_texts, element_text, element_text_of, element_texts,
    nested_views, regex_is_match, regex_matches, select_around, select_attr, select_text_nodes,
    selected_attr, selected_text_nodes, selector_views,
};
use crate::soziopolis::types::{
    ArticleSummary, DiscoveryReport, DiscoverySourceKind, ReportCounts,
};
use crate::text::{
    contains, contains_char, join, join_vec, lemma_join_contains, lit, str_views, string_of, take_chars, views,
};

verus! {

/// The texts found around one headline link: for each element ancestor (the
/// parent first), for each context selector, the text nodes of each match.
pub type Context = Seq<Seq<Seq<Seq<Seq<char>>>>>;

/// The selector of the headline links on a listing page.
pub open spec fn headline_selector() -> Seq<char> {
    "h2 a[href], h3 a[href]"@
}

/// The pattern an article address matches.
pub open spec fn article_url_pattern() -> Seq<char> {
    "^https://www\\.soziopolis\\.de/.+\\.html(?:\\?.*)?$"@
}

/// The selectors run inside each ancestor of a headline link: five teaser
/// selectors by preference, the paragraph fallback, the listing-entry
/// markers, authors, dates, sections, and the wider section context.
pub open spec fn context_selectors() -> Seq<Seq<char>> {
    seq![
        "p.article-abstract"@,
        ".article-abstract"@,
        "p.article-subtitle"@,
        ".article-subtitle"@,
        ".list-text"@,
        "p"@,
        ".article-overline, .article-abstract, .article-type, .article-date, .list-text"@,
        ".author-name"@,
        ".article-date, time"@,
        ".article-type, .article-categories a"@,
        ".article-type, .article-overline, .article-categories a"@,
    ]
}

/// The matches of the `k`-th context selector in the `d`-th ancestor (from
/// 0); nothing where there is no such ancestor.
pub open spec fn pick(ctx: Context, d: int, k: int) -> Seq<Seq<Seq<char>>> {
    if 0 <= d < ctx.len() && 0 <= k < ctx[d].len() {
        ctx[d][k]
    } else {
        Seq::<Seq<Seq<char>>>::empty()
    }
}

// ───────────────────────────── teaser ─────────────────────────────

/// The text of the first element, from the `j`-th on, that makes a good
/// teaser for a link reading `link_text`.
pub open spec fn first_good(cands: Seq<Seq<Seq<char>>>, link_text: Seq<char>, j: int) -> Option<Seq<char>>
    decreases cands.len() - j,
{
    if j < 0 || j >= cands.len() {
        None
    } else if spec_is_good_teaser_candidate(element_text(cands[j]), link_text) {
        Some(element_text(cands[j]))
    } else {
        first_good(cands, link_text, j + 1)
    }
}

/// The first good teaser in the `d`-th ancestor, trying the teaser
/// selectors from the `k`-th on (the paragraph fallback last).
pub open spec fn teaser_in(ctx: Context, d: int, k: int, link_text: Seq<char>) -> Option<Seq<char>>
    decreases 6 - k,
{
    if k < 0 || k >= 6 {
        None
    } else {
        match first_good(pick(ctx, d, k), link_text, 0) {
            Some(t) => Some(t),
            None => teaser_in(ctx, d, k + 1, link_text),
        }
    }
}

/// At most the first 240 characters of `t`.
pub open spec fn first_240(t: Seq<char>) -> Seq<char> {
    if t.len() <= 240 {
        t
    } else {
        t.take(240)
    }
}

/// The teaser of a link reading `link_text`, searched from the `d`-th of
/// its first five ancestors outwards; empty when none has one.
pub open spec fn teaser_from(ctx: Context, d: int, link_text: Seq<char>) -> Seq<char>
    decreases 5 - d,
{
    if d < 0 || d >= 5 || d >= ctx.len() {
        Seq::<char>::empty()
    } else {
        match teaser_in(ctx, d, 0, link_text) {
            Some(t) => first_240(t),
            None => teaser_from(ctx, d + 1, link_text),
        }
    }
}

fn first_good_exec(ctx: &Vec<Vec<Vec<Vec<String>>>>, d: usize, k: usize, link_text: &String) -> (res: Option<Vec<char>>)
    ensures
        match res {
            Some(t) => first_good(pick(around_view(ctx@), d as int, k as int), link_text@, 0) == Some(t@),
            None => first_good(pick(around_view(ctx@), d as int, k as int), link_text@, 0) is None,
        },
{
    if d >= ctx.len() || k >= ctx[d].len() {
        return None;
    }
    let cands = &ctx[d][k];
    let ghost cv = pick(around_view(ctx@), d as int, k as int);
    assert(cv == nested_views(cands@));
    let mut j: usize = 0;
    while j < cands.len()
        invariant
            j <= cands@.len(),
            cv == nested_views(cands@),
            cv == pick(around_view(ctx@), d as int, k as int),
            first_good(cv, link_text@, 0) == first_good(cv, link_text@, j as int),
        decreases cands@.len() - j,
    {
        let t = element_text_of(&cands[j]);
        let s = string_of(&t);
        assert(cv[j as int] == str_views(cands@[j as int]@));
        if is_good_teaser_candidate(s.as_str(), link_text.as_str()) {
            return Some(t);
        }
        j = j + 1;
    }
    None
}

/// The teaser printed near a headline link reading `link_text`: the first
/// good candidate of the nearest of its first five ancestors that has one,
/// cut to 240 characters; empty when there is none.
pub fn extract_teaser(ctx: &Vec<Vec<Vec<Vec<String>>>>, link_text: &String) -> (res: Vec<char>)
    ensures
        res@ == teaser_from(around_view(ctx@), 0, link_text@),
{
    let ghost cv = around_view(ctx@);
    let mut d: usize = 0;
    while d < 5 && d < ctx.len()
        invariant
            d <= 5,
            cv == around_view(ctx@),
            teaser_from(cv, 0, link_text@) == teaser_from(cv, d as int, link_text@),
        decreases 5 - d,
    {
        let mut k: usize = 0;
        while k < 6
            invariant
                k <= 6,
                d < 5,
                d < ctx@.len(),
                cv == around_view(ctx@),
                teaser_from(cv, 0, link_text@) == teaser_from(cv, d as int, link_text@),
                teaser_in(cv, d as int, 0, link_text@) == teaser_in(cv, d as int, k as int, link_text@),
            decreases 6 - k,
        {
            if let Some(t) = first_good_exec(ctx, d, k, link_text) {
                assert(teaser_in(cv, d as int, k as int, link_text@) == Some(t@));
                let r = take_chars(&t, 240);
                assert(r@ =~= first_240(t@));
                return r;
            }
            k = k + 1;
        }
        d = d + 1;
    }
    Vec::new()
}

// ───────────────────────────── listing metadata ─────────────────────────────

/// The nearest of the first six ancestors, from the `d`-th on, holding a
/// listing-entry marker.
pub open spec fn container_from(ctx: Context, d: int) -> Option<int>
    decreases 6 - d,
{
    if d < 0 || d >= 6 || d >= ctx.len() {
        None
    } else if pick(ctx, d, 6).len() > 0 {
        Some(d)
    } else {
        container_from(ctx, d + 1)
    }
}

/// The first text, from the `j`-th match on, that is not empty (and, with
/// `no_bar`, holds no `|`).
pub open spec fn first_plain(texts: Seq<Seq<Seq<char>>>, j: int, no_bar: bool) -> Option<Seq<char>>
    decreases texts.len() - j,
{
    if j < 0 || j >= texts.len() {
        None
    } else if element_text(texts[j]).len() > 0 && !(no_bar && element_text(texts[j]).contains('|')) {
        Some(element_text(texts[j]))
    } else {
        first_plain(texts, j + 1, no_bar)
    }
}

/// The section named in the first four ancestors, from the `d`-th on.
pub open spec fn context_section_from(ctx: Context, d: int) -> Option<Seq<char>>
    decreases 4 - d,
{
    if d < 0 || d >= 4 || d >= ctx.len() {
        None
    } else {
        match first_plain(pick(ctx, d, 10), 0, true) {
            Some(s) => Some(s),
            None => context_section_from(ctx, d + 1),
        }
    }
}

/// The author, date and section of a listing entry: read from the nearest
/// ancestor holding a listing marker (distinct authors joined by ", ", the
/// first date, the first section without `|`); a missing section falls back
/// to the given one, then to the wider context, then to the source page.
pub open spec fn spec_listing_metadata(ctx: Context, fallback: Option<Seq<char>>, source_url: Seq<char>) -> (Seq<char>, Seq<char>, Seq<char>) {
    let (author, date, section) = match container_from(ctx, 0) {
        Some(c) => (
            join(distinct_texts(pick(ctx, c, 7)), ", "@),
            match first_plain(pick(ctx, c, 8), 0, false) {
                Some(d) => d,
                None => Seq::<char>::empty(),
            },
            match first_plain(pick(ctx, c, 9), 0, true) {
                Some(s) => s,
                None => Seq::<char>::empty(),
            },
        ),
        None => (Seq::<char>::empty(), Seq::<char>::empty(), Seq::<char>::empty()),
    };
    if section.len() > 0 {
        (author, date, section)
    } else {
        match fallback {
            Some(f) => (author, date, f),
            None => match context_section_from(ctx, 0) {
                Some(s) => (author, date, s),
                None => (author, date, spec_source_label(source_url)),
            },
        }
    }
}

fn first_plain_exec(ctx: &Vec<Vec<Vec<Vec<String>>>>, d: usize, k: usize, no_bar: bool) -> (res: Option<Vec<char>>)
    ensures
        match res {
            Some(t) => first_plain(pick(around_view(ctx@), d as int, k as int), 0, no_bar) == Some(t@),
            None => first_plain(pick(around_view(ctx@), d as int, k as int), 0, no_bar) is None,
        },
{
    if d >= ctx.len() || k >= ctx[d].len() {
        return None;
    }
    let texts = &ctx[d][k];
    let ghost tv = pick(around_view(ctx@), d as int, k as int);
    assert(tv == nested_views(texts@));
    let mut j: usize = 0;
    while j < texts.len()
        invariant
            j <= texts@.len(),
            tv == nested_views(texts@),
            tv == pick(around_view(ctx@), d as int, k as int),
            first_plain(tv, 0, no_bar) == first_plain(tv, j as int, no_bar),
        decreases texts@.len() - j,
    {
        let t = element_text_of(&texts[j]);
        assert(tv[j as int] == str_views(texts@[j as int]@));
        if t.len() > 0 && !(no_bar && contains_char(&t, '|')) {
            return Some(t);
        }
        j = j + 1;
    }
    None
}

fn container_depth(ctx: &Vec<Vec<Vec<Vec<String>>>>) -> (res: Option<usize>)
    ensures
        match res {
            Some(c) => container_from(around_view(ctx@), 0) == Some(c as int) && c < ctx@.len(),
            None => container_from(around_view(ctx@), 0) is None,
        },
{
    let ghost cv = around_view(ctx@);
    let mut d: usize = 0;
    while d < 6 && d < ctx.len()
        invariant
            d <= 6,
            cv == around_view(ctx@),
            container_from(cv, 0) == container_from(cv, d as int),
        decreases 6 - d,
    {
        if 6 < ctx[d].len() && ctx[d][6].len() > 0 {
            return Some(d);
        }
        d = d + 1;
    }
    None
}

fn context_section(ctx: &Vec<Vec<Vec<Vec<String>>>>) -> (res: Option<Vec<char>>)
    ensures
        match res {
            Some(s) => context_section_from(around_view(ctx@), 0) == Some(s@),
            None => context_section_from(around_view(ctx@), 0) is None,
        },
{
    let ghost cv = around_view(ctx@);
    let mut d: usize = 0;
    while d < 4 && d < ctx.len()
        invariant
            d <= 4,
            cv == around_view(ctx@),
            context_section_from(cv, 0) == context_section_from(cv, d as int),
        decreases 4 - d,
    {
        if let Some(s) = first_plain_exec(ctx, d, 10, true) {
            return Some(s);
        }
        d = d + 1;
    }
    None
}

/// The author, date and section shown with a headline link, from the texts
/// around it, the section of the page being browsed if any, and the
/// page's address.
pub fn listing_metadata(ctx: &Vec<Vec<Vec<Vec<String>>>>, fallback_section: Option<&str>, source_url: &str) -> (res: (String, String, String))
    ensures
        (res.0@, res.1@, res.2@) == spec_listing_metadata(
            around_view(ctx@),
            match fallback_section {
                Some(f) => Some(f@),
                None => None,
            },
            source_url@,
        ),
{
    let ghost cv = around_view(ctx@);
    let mut author: Vec<char> = Vec::new();
    let mut date: Vec<char> = Vec::new();
    let mut section: Vec<char> = Vec::new();
    match container_depth(ctx) {
        Some(c) => {
            if 7 < ctx[c].len() {
                author = join_vec(&element_texts(&ctx[c][7], true), &lit(", "));
            } else {
                let none: Vec<Vec<String>> = Vec::new();
                author = join_vec(&element_texts(&none, true), &lit(", "));
                assert(nested_views(none@) =~= pick(cv, c as int, 7));
            }
            if let Some(d) = first_plain_exec(ctx, c, 8, false) {
                date = d;
            }
            if let Some(s) = first_plain_exec(ctx, c, 9, true) {
                section = s;
            }
        },
        None => {},
    }
    if section.len() == 0 {
        match fallback_section {
            Some(f) => {
                section = crate::text::chars_of(f);
            },
            None => match context_section(ctx) {
                Some(s) => {
                    section = s;
                },
                None => {
                    section = crate::text::chars_of(source_label(source_url).as_str());
                },
            },
        }
    }
    (string_of(&author), string_of(&date), string_of(&section))
}

// ───────────────────────────── collecting headlines ─────────────────────────────

/// What a listing entry shows.
pub struct ListingEntry {
    pub url: Seq<char>,
    pub title: Seq<char>,
    pub teaser: Seq<char>,
    pub author: Seq<char>,
    pub date: Seq<char>,
    pub section: Seq<char>,
    pub source_kind: DiscoverySourceKind,
    pub source_label: Seq<char>,
}

impl View for ArticleSummary {
    type V = ListingEntry;

    open spec fn view(&self) -> ListingEntry {
        ListingEntry {
            url: self.url@,
            title: self.title@,
            teaser: self.teaser@,
            author: self.author@,
            date: self.date@,
            section: self.section@,
            source_kind: self.source_kind,
            source_label: self.source_label@,
        }
    }
}

/// The articles collected so far, the addresses already seen, and the
/// report's counters.
pub struct Collected {
    pub entries: Seq<ListingEntry>,
    pub seen: Seq<Seq<char>>,
    pub counts: ReportCounts,
}

/// Whether a link's address is that of an article worth listing.
pub open spec fn accepted_url(url: Seq<char>) -> bool {
    regex_matches(article_url_pattern(), url) && !spec_is_excluded_article_url(url)
}

/// The text nodes of the `i`-th headline link.
pub open spec fn link_nodes(texts: Seq<Seq<Seq<char>>>, i: int) -> Seq<Seq<char>> {
    if 0 <= i < texts.len() {
        texts[i]
    } else {
        Seq::<Seq<char>>::empty()
    }
}

/// The texts around the `i`-th headline link.
pub open spec fn link_context(ctxs: Seq<Context>, i: int) -> Context {
    if 0 <= i < ctxs.len() {
        ctxs[i]
    } else {
        Seq::<Seq<Seq<Seq<Seq<char>>>>>::empty()
    }
}

/// One headline link looked at: a link without an article address is
/// passed over; an address seen before counts as a duplicate; a new one is
/// remembered, and listed when the link's text reads like a title.
pub open spec fn collect_step(
    st: Collected,
    href: Option<Seq<char>>,
    nodes: Seq<Seq<char>>,
    ctx: Context,
    fallback: Option<Seq<char>>,
    source_url: Seq<char>,
    kind: DiscoverySourceKind,
) -> Collected {
    match href {
        None => st,
        Some(h) => {
            let url = spec_absolute_url(h);
            if !accepted_url(url) {
                st
            } else if st.seen.contains(url) {
                Collected { counts: st.counts.plus(ReportCounts::deduped()), ..st }
            } else {
                let title = element_text(nodes);
                if !spec_looks_like_article_title(title) {
                    Collected { seen: st.seen.push(url), ..st }
                } else {
                    let md = spec_listing_metadata(ctx, fallback, source_url);
                    Collected {
                        entries: st.entries.push(
                            ListingEntry {
                                url,
                                title,
                                teaser: teaser_from(ctx, 0, join(nodes, " "@)),
                                author: md.0,
                                date: md.1,
                                section: md.2,
                                source_kind: kind,
                                source_label: spec_source_label(source_url),
                            },
                        ),
                        seen: st.seen.push(url),
                        counts: st.counts.plus(ReportCounts::found(kind)),
                    }
                }
            }
        },
    }
}

/// The headline links from the `i`-th on, looked at in order until `limit`
/// articles are listed.
pub open spec fn collect_from(
    hrefs: Seq<Option<Seq<char>>>,
    texts: Seq<Seq<Seq<char>>>,
    ctxs: Seq<Context>,
    fallback: Option<Seq<char>>,
    source_url: Seq<char>,
    kind: DiscoverySourceKind,
    limit: nat,
    st: Collected,
    i: int,
) -> Collected
    decreases hrefs.len() - i,
{
    if i < 0 || i >= hrefs.len() || st.entries.len() >= limit {
        st
    } else {
        collect_from(
            hrefs,
            texts,
            ctxs,
            fallback,
            source_url,
            kind,
            limit,
            collect_step(st, hrefs[i], link_nodes(texts, i), link_context(ctxs, i), fallback, source_url, kind),
            i + 1,
        )
    }
}

/// The view of an optional string.
pub open spec fn opt_view(o: Option<String>) -> Option<Seq<char>> {
    match o {
        Some(s) => Some(s@),
        None => None,
    }
}

/// The view of an optional string slice.
pub open spec fn opt_str_view(o: Option<&str>) -> Option<Seq<char>> {
    match o {
        Some(s) => Some(s@),
        None => None,
    }
}

/// The views of listed articles.
pub open spec fn entries_of(v: Seq<ArticleSummary>) -> Seq<ListingEntry> {
    v.map_values(|a: ArticleSummary| a@)
}

/// What a collection pass starts from.
pub open spec fn collected_of(articles: Seq<ArticleSummary>, seen: Seq<String>, report: DiscoveryReport) -> Collected {
    Collected { entries: entries_of(articles), seen: str_views(seen), counts: report@ }
}

/// Whether the report's counters have room for one more count per link.
pub open spec fn report_has_room(c: ReportCounts, links: nat) -> bool {
    &&& c.deduped_articles + links <= usize::MAX
    &&& c.section_articles + links <= usize::MAX
    &&& c.subsection_articles + links <= usize::MAX
    &&& c.topic_articles + links <= usize::MAX
}

/// Whether the counters of `b` grew from those of `a` by at most `i`
/// articles and duplicates, the page counters unchanged.
pub open spec fn counts_within(a: ReportCounts, b: ReportCounts, i: nat) -> bool {
    &&& b.deduped_articles <= a.deduped_articles + i
    &&& b.section_articles <= a.section_articles + i
    &&& b.subsection_articles <= a.subsection_articles + i
    &&& b.topic_articles <= a.topic_articles + i
    &&& b.source_pages_visited == a.source_pages_visited
    &&& b.section_pages_visited == a.section_pages_visited
    &&& b.subsection_pages_visited == a.subsection_pages_visited
    &&& b.topic_pages_visited == a.topic_pages_visited
}

/// The text of a link as scraper gives it: its text nodes joined by spaces.
fn joined_text(nodes: &Vec<String>) -> (res: Vec<char>)
    ensures
        res@ == join(str_views(nodes@), " "@),
{
    let mut parts: Vec<Vec<char>> = Vec::new();
    let mut i: usize = 0;
    while i < nodes.len()
        invariant
            i <= nodes@.len(),
            views(parts@) =~= str_views(nodes@).take(i as int),
        decreases nodes@.len() - i,
    {
        let ghost before = parts@;
        parts.push(crate::text::chars_of(nodes[i].as_str()));
        assert(views(parts@) =~= views(before).push(nodes@[i as int]@));
        assert(str_views(nodes@).take(i + 1) =~= str_views(nodes@).take(i as int).push(nodes@[i as int]@));
        i = i + 1;
    }
    assert(str_views(nodes@).take(nodes@.len() as int) =~= str_views(nodes@));
    join_vec(&parts, &lit(" "))
}

/// Whether `v` holds a string reading `x`, as a sequence fact.
pub proof fn lemma_has_text_contains(v: Seq<String>, x: Seq<char>)
    ensures
        has_text(v, x) == str_views(v).contains(x),
{
    if has_text(v, x) {
        let i = choose|i: int| 0 <= i < v.len() && (#[trigger] v[i])@ == x;
        assert(str_views(v)[i] == x);
    }
    if str_views(v).contains(x) {
        let i = choose|i: int| 0 <= i < str_views(v).len() && str_views(v)[i] == x;
        assert(v[i]@ == x);
    }
}

/// The articles listed by the headline links of a page, given what scraper
/// found for them: each link's `href`, its text nodes, and the texts around
/// it. Links are looked at in order until `articles` holds `limit`
/// entries; `seen` keeps the article addresses met so far and `report`
/// counts listed articles and duplicates.
pub fn collect_articles_from_links(
    hrefs: &Vec<Option<String>>,
    texts: &Vec<Vec<String>>,
    ctxs: &Vec<Vec<Vec<Vec<Vec<String>>>>>,
    fallback_section: Option<&str>,
    source_url: &str,
    source_kind: DiscoverySourceKind,
    limit: usize,
    seen: &mut Vec<String>,
    articles: &mut Vec<ArticleSummary>,
    report: &mut DiscoveryReport,
)
    requires
        report_has_room(old(report)@, hrefs@.len()),
    ensures
        collected_of(final(articles)@, final(seen)@, *final(report)) == collect_from(
            hrefs@.map_values(|o: Option<String>| opt_view(o)),
            nested_views(texts@),
            arounds_view(ctxs@),
            opt_str_view(fallback_section),
            source_url@,
            source_kind,
            limit as nat,
            collected_of(old(articles)@, old(seen)@, *old(report)),
            0,
        ),
{
    let ghost hv = hrefs@.map_values(|o: Option<String>| opt_view(o));
    let ghost tv = nested_views(texts@);
    let ghost cv = arounds_view(ctxs@);
    let ghost fb = opt_str_view(fallback_section);
    let ghost start = collected_of(articles@, seen@, *report);
    let ghost c0 = report@;
    let no_nodes: Vec<String> = Vec::new();
    let no_context: Vec<Vec<Vec<Vec<String>>>> = Vec::new();
    let mut i: usize = 0;
    while i < hrefs.len() && articles.len() < limit
        invariant
            i <= hrefs@.len(),
            hv == hrefs@.map_values(|o: Option<String>| opt_view(o)),
            tv == nested_views(texts@),
            cv == arounds_view(ctxs@),
            fb == opt_str_view(fallback_section),
            no_nodes@.len() == 0,
            no_context@.len() == 0,
            report_has_room(c0, hrefs@.len()),
            counts_within(c0, report@, i as nat),
            collect_from(hv, tv, cv, fb, source_url@, source_kind, limit as nat, start, 0) == collect_from(
                hv,
                tv,
                cv,
                fb,
                source_url@,
                source_kind,
                limit as nat,
                collected_of(articles@, seen@, *report),
                i as int,
            ),
        decreases hrefs@.len() - i,
    {
        let ghost before = collected_of(articles@, seen@, *report);
        let ghost before_articles = articles@;
        let ghost before_seen = seen@;
        let nodes: &Vec<String> = if i < texts.len() { &texts[i] } else { &no_nodes };
        let ctx: &Vec<Vec<Vec<Vec<String>>>> = if i < ctxs.len() { &ctxs[i] } else { &no_context };
        assert(str_views(nodes@) =~= link_nodes(tv, i as int));
        assert(around_view(ctx@) =~= link_context(cv, i as int));
        assert(hv[i as int] == opt_view(hrefs@[i as int]));
        if let Some(raw) = &hrefs[i] {
            let url = absolute_url(raw.as_str());
            if regex_is_match("^https://www\\.soziopolis\\.de/.+\\.html(?:\\?.*)?$", url.as_str())
                && !is_excluded_article_url(url.as_str()) {
                let dup = contains_text(seen, &crate::text::chars_of(url.as_str()));
                proof {
                    lemma_has_text_contains(seen@, url@);
                }
                if dup {
                    report.deduped_articles = report.deduped_articles + 1;
                    assert(report@ == before.counts.plus(ReportCounts::deduped()));
                } else {
                    seen.push(url.clone());
                    assert(str_views(seen@) =~= before.seen.push(url@));
                    let title = element_text_of(nodes);
                    let title_text = string_of(&title);
                    if looks_like_article_title(title_text.as_str()) {
                        let link_text = string_of(&joined_text(nodes));
                        let teaser = extract_teaser(ctx, &link_text);
                        let (author, date, section) = listing_metadata(ctx, fallback_section, source_url);
                        articles.push(
                            ArticleSummary {
                                url,
                                title: title_text,
                                teaser: string_of(&teaser),
                                author,
                                date,
                                section,
                                source_kind,
                                source_label: source_label(source_url),
                            },
                        );
                        assert(entries_of(articles@) =~= entries_of(before_articles).push(articles@.last()@));
                        report.record_article(source_kind);
                    }
                }
            }
        }
        assert(collected_of(articles@, seen@, *report) == collect_step(
            before,
            hv[i as int],
            link_nodes(tv, i as int),
            link_context(cv, i as int),
            fb,
            source_url@,
            source_kind,
        ));
        i = i + 1;
    }
}

/// Whether every listed address has been seen and no address is listed
/// twice.
pub open spec fn listing_unique(st: Collected) -> bool {
    &&& forall|k: int| 0 <= k < st.entries.len() ==> st.seen.contains(#[trigger] st.entries[k].url)
    &&& forall|a: int, b: int|
        0 <= a < b < st.entries.len() ==> (#[trigger] st.entries[a]).url != (#[trigger] st.entries[b]).url
}

proof fn lemma_step_unique(
    st: Collected,
    href: Option<Seq<char>>,
    nodes: Seq<Seq<char>>,
    ctx: Context,
    fallback: Option<Seq<char>>,
    source_url: Seq<char>,
    kind: DiscoverySourceKind,
)
    requires
        listing_unique(st),
    ensures
        listing_unique(collect_step(st, href, nodes, ctx, fallback, source_url, kind)),
        st.entries.is_prefix_of(collect_step(st, href, nodes, ctx, fallback, source_url, kind).entries),
        st.seen.is_prefix_of(collect_step(st, href, nodes, ctx, fallback, source_url, kind).seen),
{
    let next = collect_step(st, href, nodes, ctx, fallback, source_url, kind);
    assert forall|k: int| 0 <= k < next.entries.len() implies next.seen.contains(#[trigger] next.entries[k].url) by {
        if k < st.entries.len() {
            assert(next.entries[k] == st.entries[k]);
            let j = choose|j: int| 0 <= j < st.seen.len() && st.seen[j] == st.entries[k].url;
            assert(next.seen[j] == st.seen[j]);
        } else {
            assert(next.seen.last() == next.entries[k].url);
        }
    }
    assert forall|a: int, b: int| 0 <= a < b < next.entries.len() implies (#[trigger] next.entries[a]).url != (
    #[trigger] next.entries[b]).url by {
        if b >= st.entries.len() {
            assert(next.entries[a] == st.entries[a]);
            assert(st.seen.contains(st.entries[a].url));
        } else {
            assert(next.entries[a] == st.entries[a]);
            assert(next.entries[b] == st.entries[b]);
        }
    }
}

/// A listing pass never lists an address twice nor one it had already
/// seen, and only adds to what it found before: the articles and seen
/// addresses it starts from stay, first and in order.
pub proof fn law_listing_urls_unique(
    hrefs: Seq<Option<Seq<char>>>,
    texts: Seq<Seq<Seq<char>>>,
    ctxs: Seq<Context>,
    fallback: Option<Seq<char>>,
    source_url: Seq<char>,
    kind: DiscoverySourceKind,
    limit: nat,
    st: Collected,
    i: int,
)
    requires
        listing_unique(st),
    ensures
        listing_unique(collect_from(hrefs, texts, ctxs, fallback, source_url, kind, limit, st, i)),
        st.entries.is_prefix_of(collect_from(hrefs, texts, ctxs, fallback, source_url, kind, limit, st, i).entries),
        st.seen.is_prefix_of(collect_from(hrefs, texts, ctxs, fallback, source_url, kind, limit, st, i).seen),
    decreases hrefs.len() - i,
{
    if !(i < 0 || i >= hrefs.len() || st.entries.len() >= limit) {
        let next = collect_step(st, hrefs[i], link_nodes(texts, i), link_context(ctxs, i), fallback, source_url, kind);
        lemma_step_unique(st, hrefs[i], link_nodes(texts, i), link_context(ctxs, i), fallback, source_url, kind);
        law_listing_urls_unique(hrefs, texts, ctxs, fallback, source_url, kind, limit, next, i + 1);
        let fin = collect_from(hrefs, texts, ctxs, fallback, source_url, kind, limit, next, i + 1);
        assert(st.entries.is_prefix_of(fin.entries)) by {
            assert forall|k: int| 0 <= k < st.entries.len() implies st.entries[k] == fin.entries[k] by {
                assert(next.entries[k] == st.entries[k]);
            }
        }
        assert(st.seen.is_prefix_of(fin.seen)) by {
            assert forall|k: int| 0 <= k < st.seen.len() implies st.seen[k] == fin.seen[k] by {
                assert(next.seen[k] == st.seen[k]);
            }
        }
    }
}

/// The texts around each headline link of `html`, as scraper finds them.
pub open spec fn page_contexts(html: Seq<char>) -> Seq<Context> {
    ancestor_selections(html, headline_selector(), context_selectors())
}

/// Lists the articles whose headline links stand on the page `html`, read
/// from `source_url` (see `collect_articles_from_links`). Returns `false`,
/// changing nothing, when the report's counters have no room for one more
/// count per headline link.
pub fn collect_articles_from_document(
    html: &str,
    fallback_section: Option<&str>,
    source_url: &str,
    source_kind: DiscoverySourceKind,
    limit: usize,
    seen: &mut Vec<String>,
    articles: &mut Vec<ArticleSummary>,
    report: &mut DiscoveryReport,
) -> (res: bool)
    ensures
        selected_attr(html@, headline_selector(), "href"@).len() <= usize::MAX,
        res == report_has_room(old(report)@, selected_attr(html@, headline_selector(), "href"@).len()),
        res ==> collected_of(final(articles)@, final(seen)@, *final(report)) == collect_from(
            selected_attr(html@, headline_selector(), "href"@),
            selected_text_nodes(html@, headline_selector()),
            page_contexts(html@),
            opt_str_view(fallback_section),
            source_url@,
            source_kind,
            limit as nat,
            collected_of(old(articles)@, old(seen)@, *old(report)),
            0,
        ),
        !res ==> final(articles)@ == old(articles)@ && final(seen)@ == old(seen)@ && *final(report) == *old(report),
{
    let selector = "h2 a[href], h3 a[href]";
    let hrefs = select_attr(html, selector, "href");
    assert(hrefs@.map_values(|o: Option<String>| opt_view(o)) =~= selected_attr(html@, headline_selector(), "href"@));
    let texts = select_text_nodes(html, selector);
    let mut inners: Vec<&str> = Vec::new();
    inners.push("p.article-abstract");
    inners.push(".article-abstract");
    inners.push("p.article-subtitle");
    inners.push(".article-subtitle");
    inners.push(".list-text");
    inners.push("p");
    inners.push(".article-overline, .article-abstract, .article-type, .article-date, .list-text");
    inners.push(".author-name");
    inners.push(".article-date, time");
    inners.push(".article-type, .article-categories a");
    inners.push(".article-type, .article-overline, .article-categories a");
    assert(selector_views(inners@) =~= context_selectors());
    let ctxs = select_around(html, selector, &inners);
    let n = hrefs.len();
    if report.deduped_articles > usize::MAX - n || report.section_articles > usize::MAX - n
        || report.subsection_articles > usize::MAX - n || report.topic_articles > usize::MAX - n {
        return false;
    }
    collect_articles_from_links(&hrefs, &texts, &ctxs, fallback_section, source_url, source_kind, limit, seen, articles, report);
    true
}

/// Every non-empty element text is among the distinct texts.
proof fn lemma_distinct_texts_keep_each(texts: Seq<Seq<Seq<char>>>, k: int)
    requires
        0 <= k < texts.len(),
        element_text(texts[k]).len() > 0,
    ensures
        distinct_texts(texts).contains(element_text(texts[k])),
    decreases texts.len(),
{
    let rest = distinct_texts(texts.drop_last());
    let all = distinct_texts(texts);
    if k < texts.len() - 1 {
        lemma_distinct_texts_keep_each(texts.drop_last(), k);
        assert(texts.drop_last()[k] == texts[k]);
        let w = choose|w: int| 0 <= w < rest.len() && rest[w] == element_text(texts[k]);
        assert(all[w] == rest[w]);
    } else if !rest.contains(element_text(texts.last())) {
        assert(all[all.len() - 1] == element_text(texts.last()));
    }
}

/// The author of a listing entry names every author of its entry: each
/// non-empty `.author-name` text of the nearest ancestor holding the entry
/// occurs in it.
pub proof fn law_listing_author_names_every_author(
    ctx: Context,
    fallback: Option<Seq<char>>,
    source_url: Seq<char>,
    c: int,
    k: int,
)
    requires
        container_from(ctx, 0) == Some(c),
        0 <= k < pick(ctx, c, 7).len(),
        element_text(pick(ctx, c, 7)[k]).len() > 0,
    ensures
        contains(spec_listing_metadata(ctx, fallback, source_url).0, element_text(pick(ctx, c, 7)[k])),
{
    let names = distinct_texts(pick(ctx, c, 7));
    lemma_distinct_texts_keep_each(pick(ctx, c, 7), k);
    let w = choose|w: int| 0 <= w < names.len() && names[w] == element_text(pick(ctx, c, 7)[k]);
    lemma_join_contains(names, ", "@, w);
}

/// `first_plain` finds the first text, from `j` on, that is not empty (and,
/// with `no_bar`, holds no `|`) whenever there is one at `k`.
proof fn lemma_first_plain_finds(texts: Seq<Seq<Seq<char>>>, j: int, no_bar: bool, k: int)
    requires
        0 <= j <= k < texts.len(),
        element_text(texts[k]).len() > 0,
        !(no_bar && element_text(texts[k]).contains('|')),
    ensures
        exists|m: int|
            #![trigger texts[m]]
            j <= m <= k && first_plain(texts, j, no_bar) == Some(element_text(texts[m])) && element_text(texts[m]).len()
                > 0 && !(no_bar && element_text(texts[m]).contains('|')) && forall|i: int|
                j <= i < m ==> !(element_text(#[trigger] texts[i]).len() > 0 && !(no_bar && element_text(texts[i]).contains('|'))),
    decreases k - j,
{
    if !(element_text(texts[j]).len() > 0 && !(no_bar && element_text(texts[j]).contains('|'))) {
        lemma_first_plain_finds(texts, j + 1, no_bar, k);
        let m = choose|m: int|
            #![trigger texts[m]]
            j + 1 <= m <= k && first_plain(texts, j + 1, no_bar) == Some(element_text(texts[m])) && element_text(texts[m]).len()
                > 0 && !(no_bar && element_text(texts[m]).contains('|')) && forall|i: int|
                j + 1 <= i < m ==> !(element_text(#[trigger] texts[i]).len() > 0 && !(no_bar && element_text(texts[i]).contains('|')));
        assert(texts[m] == texts[m]);
    } else {
        assert(texts[j] == texts[j]);
    }
}

/// The date of a listing entry is the first non-empty `.article-date` or
/// `time` text of the nearest ancestor holding the entry, when it has one;
/// its section is the first non-empty section label there without `|`.
pub proof fn law_listing_date_and_section(
    ctx: Context,
    fallback: Option<Seq<char>>,
    source_url: Seq<char>,
    c: int,
    k: int,
)
    requires
        container_from(ctx, 0) == Some(c),
    ensures
        0 <= k < pick(ctx, c, 8).len() && element_text(pick(ctx, c, 8)[k]).len() > 0 ==> exists|m: int|
            #![trigger pick(ctx, c, 8)[m]]
            0 <= m <= k && spec_listing_metadata(ctx, fallback, source_url).1 == element_text(pick(ctx, c, 8)[m])
                && forall|i: int| 0 <= i < m ==> element_text(#[trigger] pick(ctx, c, 8)[i]).len() == 0,
        0 <= k < pick(ctx, c, 9).len() && element_text(pick(ctx, c, 9)[k]).len() > 0 && !element_text(
            pick(ctx, c, 9)[k],
        ).contains('|') ==> exists|m: int|
            #![trigger pick(ctx, c, 9)[m]]
            0 <= m <= k && spec_listing_metadata(ctx, fallback, source_url).2 == element_text(pick(ctx, c, 9)[m]),
{
    if 0 <= k < pick(ctx, c, 8).len() && element_text(pick(ctx, c, 8)[k]).len() > 0 {
        lemma_first_plain_finds(pick(ctx, c, 8), 0, false, k);
    }
    if 0 <= k < pick(ctx, c, 9).len() && element_text(pick(ctx, c, 9)[k]).len() > 0 && !element_text(
        pick(ctx, c, 9)[k],
    ).contains('|') {
        lemma_first_plain_finds(pick(ctx, c, 9), 0, true, k);
    }
}

} // verus!
