//! What the views derive from the library and from job results: search
//! matching, shortened labels, preview lines, topics and summaries.
use vstd::prelude::*;
use crate::credential_store;
use crate::database::{LibraryStats, SectionCount, StoredArticle};
use crate::domain::ArticleListItem;
use crate::soziopolis::types::{Article, ArticleSummary};
use crate::text::{
    append_chars, chars_of, clean_ws, clean_ws_vec, contains, contains_vec, decimal, decimal_vec,
    ellipsize, ellipsize_vec, join, join_vec, lit, lowercase, lowercase_vec, parse_usize,
    chars_eq, digit_char, occurs_at, occurs_at_vec, take_chars,
    parse_usize_str, split, split_vec, starts_with, starts_with_vec, string_of, trim,
    trim_start_matches, trim_start_matches_vec, trim_vec, views, seq_lt, lemma_seq_lt_order,
};
use crate::topics::{generated_topic_from_fields, spec_generated_topic};
use crate::gui::library_order::tally_view;

verus! {

// ───────────────────────────── search ─────────────────────────────

/// Whether the lower-cased `field` contains `search`.
pub open spec fn field_matches(field: Seq<char>, search: Seq<char>) -> bool {
    contains(lowercase(field), search)
}

/// Whether a listed article matches a lower-cased search: one of its title,
/// teaser, author, date, section or URL contains it once lower-cased.
pub open spec fn spec_article_matches_search(article: ArticleSummary, search: Seq<char>) -> bool {
    ||| field_matches(article.title@, search)
    ||| field_matches(article.teaser@, search)
    ||| field_matches(article.author@, search)
    ||| field_matches(article.date@, search)
    ||| field_matches(article.section@, search)
    ||| field_matches(article.url@, search)
}

fn field_matches_exec(field: &str, search: &Vec<char>) -> (res: bool)
    ensures
        res == field_matches(field@, search@),
{
    contains_vec(&lowercase_vec(&chars_of(field)), search)
}

/// Whether `article` matches the lower-cased `search`.
pub fn article_matches_search(article: &ArticleSummary, search: &str) -> (res: bool)
    ensures
        res == spec_article_matches_search(*article, search@),
{
    let s = chars_of(search);
    field_matches_exec(article.title.as_str(), &s) || field_matches_exec(article.teaser.as_str(), &s)
        || field_matches_exec(article.author.as_str(), &s) || field_matches_exec(
        article.date.as_str(),
        &s,
    ) || field_matches_exec(article.section.as_str(), &s) || field_matches_exec(
        article.url.as_str(),
        &s,
    )
}

// ───────────────────────────── labels ─────────────────────────────

/// `value` cut to at most `max_chars` characters, ending in `...` when cut.
pub fn truncate_for_ui(value: &str, max_chars: usize) -> (res: String)
    ensures
        res@ == ellipsize(value@, max_chars as nat),
{
    string_of(&ellipsize_vec(&chars_of(value), max_chars))
}

/// A URL without its scheme and `www.`, cut to 72 characters.
pub open spec fn spec_compact_url(url: Seq<char>) -> Seq<char> {
    ellipsize(
        trim_start_matches(
            trim_start_matches(trim_start_matches(url, "https://"@), "http://"@),
            "www."@,
        ),
        72,
    )
}

/// The short form of a URL shown on cards.
pub fn compact_url(url: &str) -> (res: String)
    ensures
        res@ == spec_compact_url(url@),
{
    let a = trim_start_matches_vec(&chars_of(url), &lit("https://"));
    let b = trim_start_matches_vec(&a, &lit("http://"));
    let c = trim_start_matches_vec(&b, &lit("www."));
    string_of(&ellipsize_vec(&c, 72))
}

// ───────────────────────────── topics ─────────────────────────────

/// The topic an article is filed under: its trimmed custom topic when it
/// has one, else the topic generated from its title, subtitle, section and URL.
pub open spec fn spec_effective_topic(
    custom_topic: Seq<char>,
    title: Seq<char>,
    subtitle: Seq<char>,
    section: Seq<char>,
    url: Seq<char>,
) -> Seq<char> {
    if trim(custom_topic).len() > 0 {
        trim(custom_topic)
    } else {
        spec_generated_topic(title, subtitle, section, url)
    }
}

/// The topic an article is filed under, from its fields.
pub fn effective_topic_from_fields(
    custom_topic: &str,
    title: &str,
    subtitle: &str,
    section: &str,
    url: &str,
) -> (res: String)
    ensures
        res@ == spec_effective_topic(custom_topic@, title@, subtitle@, section@, url@),
{
    let custom = trim_vec(&chars_of(custom_topic));
    if custom.len() > 0 {
        string_of(&custom)
    } else {
        generated_topic_from_fields(title, subtitle, section, url)
    }
}

/// The topic generated for a library card.
pub fn auto_topic_for_article(article: &crate::domain::ArticleListItem) -> (res: String)
    ensures
        res@ == spec_generated_topic(article.title@, article.subtitle@, article.section@, article.url@),
{
    generated_topic_from_fields(
        article.title.as_str(),
        article.subtitle.as_str(),
        article.section.as_str(),
        article.url.as_str(),
    )
}

/// The topic a library card is filed under.
pub fn effective_topic_for_article(article: &crate::domain::ArticleListItem) -> (res: String)
    ensures
        res@ == spec_effective_topic(
            article.custom_topic@,
            article.title@,
            article.subtitle@,
            article.section@,
            article.url@,
        ),
{
    effective_topic_from_fields(
        article.custom_topic.as_str(),
        article.title.as_str(),
        article.subtitle.as_str(),
        article.section.as_str(),
        article.url.as_str(),
    )
}

/// The topic a stored article is filed under.
pub fn effective_topic_for_stored_article(article: &StoredArticle) -> (res: String)
    ensures
        res@ == spec_effective_topic(
            article.custom_topic@,
            article.title@,
            article.subtitle@,
            article.section@,
            article.url@,
        ),
{
    effective_topic_from_fields(
        article.custom_topic.as_str(),
        article.title.as_str(),
        article.subtitle.as_str(),
        article.section.as_str(),
        article.url.as_str(),
    )
}

// ───────────────────────────── previews ─────────────────────────────

/// A paragraph as a preview shows it: trimmed, without a leading `## `
/// heading marker, its words joined by single spaces; empty when blank.
pub open spec fn spec_clean_preview_block(block: Seq<char>) -> Seq<char> {
    let t = trim(block);
    if t.len() == 0 {
        Seq::<char>::empty()
    } else if starts_with(t, "## "@) {
        clean_ws(t.skip(3))
    } else {
        clean_ws(t)
    }
}

/// One paragraph of body text prepared for a preview.
pub fn clean_preview_block(block: &Vec<char>) -> (res: Vec<char>)
    ensures
        res@ == spec_clean_preview_block(block@),
{
    let t = trim_vec(block);
    if t.len() == 0 {
        return Vec::new();
    }
    let marker = lit("## ");
    proof {
        reveal_strlit("## ");
    }
    if starts_with_vec(&t, &marker) {
        let n: usize = t.len();
        let mut rest: Vec<char> = Vec::new();
        let mut i: usize = 3;
        while i < n
            invariant
                3 <= i <= n,
                n == t@.len(),
                rest@ =~= t@.subrange(3, i as int),
            decreases n - i,
        {
            rest.push(t[i]);
            i = i + 1;
        }
        assert(rest@ =~= t@.skip(3));
        clean_ws_vec(&rest)
    } else {
        clean_ws_vec(&t)
    }
}

/// The non-blank paragraphs among `blocks`, each prepared for a preview.
pub open spec fn preview_blocks(blocks: Seq<Seq<char>>) -> Seq<Seq<char>>
    decreases blocks.len(),
{
    if blocks.len() == 0 {
        Seq::<Seq<char>>::empty()
    } else {
        let rest = preview_blocks(blocks.drop_last());
        let cleaned = spec_clean_preview_block(blocks.last());
        if cleaned.len() > 0 {
            rest.push(cleaned)
        } else {
            rest
        }
    }
}

/// The prepared paragraphs of a prefix are a prefix of those of the whole.
pub proof fn lemma_preview_blocks_prefix(blocks: Seq<Seq<char>>, i: int)
    requires
        0 <= i <= blocks.len(),
    ensures
        preview_blocks(blocks.take(i)).len() <= preview_blocks(blocks).len(),
        preview_blocks(blocks.take(i)) == preview_blocks(blocks).take(
            preview_blocks(blocks.take(i)).len() as int,
        ),
    decreases blocks.len(),
{
    if i == blocks.len() {
        assert(blocks.take(i) =~= blocks);
        assert(preview_blocks(blocks).take(preview_blocks(blocks).len() as int) =~= preview_blocks(
            blocks,
        ));
    } else {
        assert(blocks.drop_last().take(i) =~= blocks.take(i));
        lemma_preview_blocks_prefix(blocks.drop_last(), i);
        let r = preview_blocks(blocks.drop_last());
        let p = preview_blocks(blocks.take(i));
        assert(r.push(spec_clean_preview_block(blocks.last())).take(p.len() as int) =~= r.take(
            p.len() as int,
        ));
    }
}

/// The number of paragraphs a preview keeps: `max_blocks`, and at least one.
pub open spec fn kept_blocks(max_blocks: usize) -> int {
    if max_blocks == 0 {
        1
    } else {
        max_blocks as int
    }
}

/// The opening of a body text: its first non-blank paragraphs (at most
/// `max_blocks`, at least one), prepared and joined by blank lines, cut to
/// `max_chars` characters.
pub open spec fn spec_preview_excerpt(body: Seq<char>, max_blocks: usize, max_chars: usize) -> Seq<
    char,
> {
    let blocks = preview_blocks(split(body, "\n\n"@));
    let k = if blocks.len() <= kept_blocks(max_blocks) {
        blocks.len() as int
    } else {
        kept_blocks(max_blocks)
    };
    ellipsize(join(blocks.take(k), "\n\n"@), max_chars as nat)
}

/// The opening paragraphs of a body text for a preview.
pub fn preview_excerpt(body_text: &str, max_blocks: usize, max_chars: usize) -> (res: String)
    ensures
        res@ == spec_preview_excerpt(body_text@, max_blocks, max_chars),
{
    let sep = lit("\n\n");
    let parts = split_vec(&chars_of(body_text), &sep);
    let ghost all = views(parts@);
    let n: usize = parts.len();
    let mut blocks: Vec<Vec<char>> = Vec::new();
    let mut i: usize = 0;
    while i < n && (blocks.len() == 0 || blocks.len() < max_blocks)
        invariant
            i <= n,
            n == parts@.len(),
            all == views(parts@),
            views(blocks@) == preview_blocks(all.take(i as int)),
            blocks@.len() <= kept_blocks(max_blocks),
        decreases n - i,
    {
        let cleaned = clean_preview_block(&parts[i]);
        assert(all.take(i + 1).drop_last() =~= all.take(i as int));
        assert(all.take(i + 1).last() == parts@[i as int]@);
        if cleaned.len() > 0 {
            let ghost before = blocks@;
            blocks.push(cleaned);
            assert(views(blocks@) =~= views(before).push(cleaned@));
        }
        i = i + 1;
    }
    proof {
        lemma_preview_blocks_prefix(all, i as int);
        let whole = preview_blocks(all);
        let k = if whole.len() <= kept_blocks(max_blocks) {
            whole.len() as int
        } else {
            kept_blocks(max_blocks)
        };
        if i == n {
            assert(all.take(i as int) =~= all);
            assert(whole.take(whole.len() as int) =~= whole);
        }
        assert(views(blocks@) =~= whole.take(k));
    }
    let joined = join_vec(&blocks, &sep);
    string_of(&ellipsize_vec(&joined, max_chars))
}

/// The one-line preview of a card: its preview summary, teaser or subtitle
/// (the first that is not blank, trimmed and cut to 160 characters), else the
/// opening paragraph of its body text when it carries one, else nothing.
pub open spec fn spec_card_preview_line(
    preview_summary: Seq<char>,
    teaser: Seq<char>,
    subtitle: Seq<char>,
    body: Option<Seq<char>>,
) -> Seq<char> {
    if trim(preview_summary).len() > 0 {
        ellipsize(trim(preview_summary), 160)
    } else if trim(teaser).len() > 0 {
        ellipsize(trim(teaser), 160)
    } else if trim(subtitle).len() > 0 {
        ellipsize(trim(subtitle), 160)
    } else {
        match body {
            Some(b) => spec_preview_excerpt(b, 1, 160),
            None => Seq::<char>::empty(),
        }
    }
}

fn preview_line_from_fields(
    preview_summary: &str,
    teaser: &str,
    subtitle: &str,
    body: Option<&str>,
) -> (res: String)
    ensures
        res@ == spec_card_preview_line(
            preview_summary@,
            teaser@,
            subtitle@,
            match body {
                Some(b) => Some(b@),
                None => None,
            },
        ),
{
    let p = trim_vec(&chars_of(preview_summary));
    if p.len() > 0 {
        return string_of(&ellipsize_vec(&p, 160));
    }
    let t = trim_vec(&chars_of(teaser));
    if t.len() > 0 {
        return string_of(&ellipsize_vec(&t, 160));
    }
    let s = trim_vec(&chars_of(subtitle));
    if s.len() > 0 {
        return string_of(&ellipsize_vec(&s, 160));
    }
    match body {
        Some(b) => preview_excerpt(b, 1, 160),
        None => String::new(),
    }
}

/// The one-line preview of a library card (which carries no body text).
pub fn library_card_preview_line(article: &crate::domain::ArticleListItem) -> (res: String)
    ensures
        res@ == spec_card_preview_line(
            article.preview_summary@,
            article.teaser@,
            article.subtitle@,
            None,
        ),
{
    preview_line_from_fields(
        article.preview_summary.as_str(),
        article.teaser.as_str(),
        article.subtitle.as_str(),
        None,
    )
}

/// The one-line preview of a stored article.
pub fn stored_article_preview_line(article: &StoredArticle) -> (res: String)
    ensures
        res@ == spec_card_preview_line(
            article.preview_summary@,
            article.teaser@,
            article.subtitle@,
            Some(article.body_text@),
        ),
{
    preview_line_from_fields(
        article.preview_summary.as_str(),
        article.teaser.as_str(),
        article.subtitle.as_str(),
        Some(article.body_text.as_str()),
    )
}

/// A stored article in the form the preview drawer shows.
pub fn stored_article_to_preview_article(article: &StoredArticle) -> (res: Article)
    ensures
        res.url@ == article.url@,
        res.title@ == article.title@,
        res.subtitle@ == article.subtitle@,
        res.teaser@ == article.teaser@,
        res.author@ == article.author@,
        res.date@ == article.date@,
        res.published_at@ == article.published_at@,
        res.section@ == article.section@,
        res.source_kind@ == article.source_kind@,
        res.source_label@ == article.source_label@,
        res.body_text@ == article.body_text@,
        res.clean_text@ == article.clean_text@,
        res.word_count == article.word_count as usize,
        res.fetched_at@ == article.fetched_at@,
{
    Article {
        url: string_of(&chars_of(article.url.as_str())),
        title: string_of(&chars_of(article.title.as_str())),
        subtitle: string_of(&chars_of(article.subtitle.as_str())),
        teaser: string_of(&chars_of(article.teaser.as_str())),
        author: string_of(&chars_of(article.author.as_str())),
        date: string_of(&chars_of(article.date.as_str())),
        published_at: string_of(&chars_of(article.published_at.as_str())),
        section: string_of(&chars_of(article.section.as_str())),
        source_kind: string_of(&chars_of(article.source_kind.as_str())),
        source_label: string_of(&chars_of(article.source_label.as_str())),
        body_text: string_of(&chars_of(article.body_text.as_str())),
        clean_text: string_of(&chars_of(article.clean_text.as_str())),
        word_count: article.word_count as usize,
        fetched_at: string_of(&chars_of(article.fetched_at.as_str())),
    }
}


// ───────────────────────────── parsing ─────────────────────────────

/// A number field of the word-count filters: blank means no bound; otherwise
/// it must parse as a `usize` (an optional `+` and digits) and be positive.
pub open spec fn spec_parse_optional_positive_usize(value: Seq<char>, label: Seq<char>) -> Result<
    Option<usize>,
    Seq<char>,
> {
    let t = trim(value);
    if t.len() == 0 {
        Ok(None)
    } else {
        match parse_usize(t) {
            None => Err(label + " must be a positive number."@),
            Some(n) => if n == 0 {
                Err(label + " must be greater than zero."@)
            } else {
                Ok(Some(n))
            },
        }
    }
}

/// Reads an optional positive bound typed into a filter field.
pub fn parse_optional_positive_usize(value: &str, label: &str) -> (res: Result<Option<usize>, String>)
    ensures
        match res {
            Ok(o) => spec_parse_optional_positive_usize(value@, label@) == Ok::<
                Option<usize>,
                Seq<char>,
            >(o),
            Err(e) => spec_parse_optional_positive_usize(value@, label@) == Err::<
                Option<usize>,
                Seq<char>,
            >(e@),
        },
{
    let t = trim_vec(&chars_of(value));
    if t.len() == 0 {
        return Ok(None);
    }
    match crate::text::parse_usize_vec(&t) {
        None => {
            let mut out = chars_of(label);
            append_chars(&mut out, &lit(" must be a positive number."));
            Err(string_of(&out))
        },
        Some(n) => {
            if n == 0 {
                let mut out = chars_of(label);
                append_chars(&mut out, &lit(" must be greater than zero."));
                Err(string_of(&out))
            } else {
                Ok(Some(n))
            }
        },
    }
}

/// What `s.parse::<i64>()` yields: an optional sign followed by at least one
/// ASCII digit, whose value fits in `i64`; `None` for anything else.
pub open spec fn parse_i64(s: Seq<char>) -> Option<i64> {
    let neg = s.len() > 0 && s[0] == '-';
    let body = if s.len() > 0 && (s[0] == '-' || s[0] == '+') {
        s.skip(1)
    } else {
        s
    };
    let v = crate::text::digits_value(body);
    if body.len() > 0 && crate::text::all_ascii_digits(body) && (if neg {
        -v >= i64::MIN
    } else {
        v <= i64::MAX
    }) {
        Some((if neg {
            -v
        } else {
            v
        }) as i64)
    } else {
        None
    }
}

proof fn lemma_digits_nonneg(s: Seq<char>)
    requires
        crate::text::all_ascii_digits(s),
    ensures
        crate::text::digits_value(s) >= 0,
    decreases s.len(),
{
    if s.len() > 0 {
        assert(crate::text::all_ascii_digits(s.drop_last()));
        lemma_digits_nonneg(s.drop_last());
    }
}

proof fn lemma_digits_mono(s: Seq<char>, i: int)
    requires
        crate::text::all_ascii_digits(s),
        0 <= i <= s.len(),
    ensures
        crate::text::digits_value(s.take(i)) <= crate::text::digits_value(s),
    decreases s.len() - i,
{
    if i < s.len() {
        lemma_digits_mono(s, i + 1);
        assert(s.take(i + 1).drop_last() =~= s.take(i));
        assert(crate::text::all_ascii_digits(s.take(i)));
        lemma_digits_nonneg(s.take(i));
    } else {
        assert(s.take(i) =~= s);
    }
}

/// `s.parse::<i64>().ok()` on characters.
pub fn parse_i64_vec(s: &Vec<char>) -> (res: Option<i64>)
    ensures
        res == parse_i64(s@),
{
    let n: usize = s.len();
    let neg: bool = n > 0 && s[0] == '-';
    let start: usize = if n > 0 && (s[0] == '-' || s[0] == '+') { 1 } else { 0 };
    let ghost body = if s@.len() > 0 && (s@[0] == '-' || s@[0] == '+') { s@.skip(1) } else { s@ };
    assert(body =~= s@.subrange(start as int, n as int));
    if start >= n {
        return None;
    }
    let limit: u64 = if neg { 9223372036854775808u64 } else { 9223372036854775807u64 };
    let mut value: u64 = 0;
    let mut i: usize = start;
    while i < n
        invariant
            start <= i <= n,
            n == s@.len(),
            body == s@.subrange(start as int, n as int),
            body == (if s@.len() > 0 && (s@[0] == '-' || s@[0] == '+') { s@.skip(1) } else { s@ }),
            crate::text::all_ascii_digits(body.take(i - start)),
            value as int == crate::text::digits_value(body.take(i - start)),
            value <= limit,
            limit == (if neg { 9223372036854775808u64 } else { 9223372036854775807u64 }),
            neg == (s@.len() > 0 && s@[0] == '-'),
        decreases n - i,
    {
        let c: char = s[i];
        assert(body[i - start] == c);
        if !('0' <= c && c <= '9') {
            assert(!crate::text::all_ascii_digits(body));
            return None;
        }
        assert(body.take(i + 1 - start).drop_last() =~= body.take(i - start));
        assert(crate::text::all_ascii_digits(body.take(i + 1 - start)));
        assert(body.take(i + 1 - start).last() == c);
        let d: u64 = ((c as u32) - 48) as u64;
        assert(crate::text::digits_value(body.take(i + 1 - start)) == value * 10 + d);
        if value > (limit - d) / 10 {
            proof {
                assert(value * 10 + d > limit) by (nonlinear_arith)
                    requires
                        value > (limit - d) / 10,
                        d <= 9,
                        limit >= 9,
                ;
                if crate::text::all_ascii_digits(body) {
                    lemma_digits_mono(body, i + 1 - start);
                    assert(crate::text::digits_value(body) > limit);
                }
                assert(parse_i64(s@) is None);
            }
            return None;
        }
        assert(value * 10 + d <= limit) by (nonlinear_arith)
            requires
                value <= (limit - d) / 10,
                d <= 9,
                limit >= 9,
        ;
        value = value * 10 + d;
        i = i + 1;
    }
    assert(body.take(n - start) =~= body);
    if neg {
        if value == 9223372036854775808u64 {
            Some(-9223372036854775807i64 - 1)
        } else {
            let v: i64 = value as i64;
            Some(-v)
        }
    } else {
        Some(value as i64)
    }
}

// ───────────────────────────── jobs ─────────────────────────────

/// What `chrono::DateTime::from_timestamp(epoch, 0)` formatted as
/// `%Y-%m-%d %H:%M:%S UTC` gives (`None` for an epoch out of chrono's range).
pub uninterp spec fn utc_timestamp_text(epoch: i64) -> Option<Seq<char>>;

/// Formats Unix seconds as a UTC date and time with chrono.
#[verifier::external_body]
fn format_utc_timestamp(epoch: i64) -> (res: Option<String>)
    ensures
        match res {
            Some(t) => utc_timestamp_text(epoch) == Some(t@),
            None => utc_timestamp_text(epoch) is None,
        },
{
    match chrono::DateTime::from_timestamp(epoch, 0) {
        Some(ts) => Some(ts.format("%Y-%m-%d %H:%M:%S UTC").to_string()),
        None => None,
    }
}

/// How a job's recorded time is shown: `Unknown time` when blank, the UTC
/// date and time when it is a Unix second count chrono can place, else the
/// trimmed text as it stands.
pub open spec fn spec_format_job_timestamp(value: Seq<char>) -> Seq<char> {
    let t = trim(value);
    if t.len() == 0 {
        "Unknown time"@
    } else {
        match parse_i64(t) {
            Some(epoch) => match utc_timestamp_text(epoch) {
                Some(text) => text,
                None => t,
            },
            None => t,
        }
    }
}

/// The time of a finished job as the job history shows it.
pub fn format_job_timestamp(value: &str) -> (res: String)
    ensures
        res@ == spec_format_job_timestamp(value@),
{
    let t = trim_vec(&chars_of(value));
    if t.len() == 0 {
        return String::from_str("Unknown time");
    }
    if let Some(epoch) = parse_i64_vec(&t) {
        if let Some(text) = format_utc_timestamp(epoch) {
            return text;
        }
    }
    string_of(&t)
}

/// The details of an import summary: skipped and failed counts, when non-zero.
pub open spec fn import_summary_details(
    skipped_existing: usize,
    skipped_out_of_range: usize,
    failed_count: usize,
) -> Seq<Seq<char>> {
    let a = if skipped_existing > 0 {
        seq!["skipped "@ + decimal(skipped_existing as nat) + " already imported"@]
    } else {
        Seq::<Seq<char>>::empty()
    };
    let b = if skipped_out_of_range > 0 {
        a.push("skipped "@ + decimal(skipped_out_of_range as nat) + " outside date window"@)
    } else {
        a
    };
    if failed_count > 0 {
        b.push(decimal(failed_count as nat) + " failed"@)
    } else {
        b
    }
}

/// The summary of an import: `Import canceled.` when canceled, the saved
/// count, the non-zero skipped and failed counts after `Also`, and the first
/// error when one is given, joined by spaces.
pub open spec fn spec_import_result_summary(
    saved_count: usize,
    skipped_existing: usize,
    skipped_out_of_range: usize,
    failed_count: usize,
    canceled: bool,
    first_error: Option<Seq<char>>,
) -> Seq<char> {
    let a = if canceled {
        seq!["Import canceled."@]
    } else {
        Seq::<Seq<char>>::empty()
    };
    let b = a.push("Saved "@ + decimal(saved_count as nat) + " article(s)."@);
    let details = import_summary_details(skipped_existing, skipped_out_of_range, failed_count);
    let c = if details.len() > 0 {
        b.push("Also "@ + join(details, ", "@) + "."@)
    } else {
        b
    };
    let d = match first_error {
        Some(e) => c.push("First error: "@ + e),
        None => c,
    };
    join(d, " "@)
}

fn phrase(prefix: &str, n: usize, suffix: &str) -> (res: Vec<char>)
    ensures
        res@ == prefix@ + decimal(n as nat) + suffix@,
{
    let mut out = chars_of(prefix);
    append_chars(&mut out, &decimal_vec(n));
    append_chars(&mut out, &chars_of(suffix));
    out
}

/// The notice and history line for a finished import.
pub fn format_import_result_summary(
    saved_count: usize,
    skipped_existing: usize,
    skipped_out_of_range: usize,
    failed_count: usize,
    canceled: bool,
    first_error: Option<&str>,
) -> (res: String)
    ensures
        res@ == spec_import_result_summary(
            saved_count,
            skipped_existing,
            skipped_out_of_range,
            failed_count,
            canceled,
            match first_error {
                Some(e) => Some(e@),
                None => None,
            },
        ),
{
    let mut segments: Vec<Vec<char>> = Vec::new();
    if canceled {
        segments.push(lit("Import canceled."));
    }
    segments.push(phrase("Saved ", saved_count, " article(s)."));
    let mut details: Vec<Vec<char>> = Vec::new();
    if skipped_existing > 0 {
        details.push(phrase("skipped ", skipped_existing, " already imported"));
    }
    if skipped_out_of_range > 0 {
        details.push(phrase("skipped ", skipped_out_of_range, " outside date window"));
    }
    if failed_count > 0 {
        details.push(phrase("", failed_count, " failed"));
    }
    proof {
        reveal_strlit("");
        assert(views(details@) =~= import_summary_details(
            skipped_existing,
            skipped_out_of_range,
            failed_count,
        ));
    }
    if details.len() > 0 {
        let mut also = lit("Also ");
        append_chars(&mut also, &join_vec(&details, &lit(", ")));
        append_chars(&mut also, &lit("."));
        segments.push(also);
    }
    match first_error {
        Some(e) => {
            let mut line = lit("First error: ");
            append_chars(&mut line, &chars_of(e));
            segments.push(line);
        },
        None => {},
    }
    let ghost a = if canceled {
        seq!["Import canceled."@]
    } else {
        Seq::<Seq<char>>::empty()
    };
    assert(views(segments@) =~= {
        let b = a.push("Saved "@ + decimal(saved_count as nat) + " article(s)."@);
        let details = import_summary_details(skipped_existing, skipped_out_of_range, failed_count);
        let c = if details.len() > 0 {
            b.push("Also "@ + join(details, ", "@) + "."@)
        } else {
            b
        };
        match first_error {
            Some(e) => c.push("First error: "@ + e@),
            None => c,
        }
    });
    string_of(&join_vec(&segments, &lit(" ")))
}

/// The LingQ token to start with, given what reading the token store gave:
/// the token when one was stored, else an empty one, with a notice when the
/// store could not be read.
pub fn api_key_from_load_result(loaded: Result<Option<String>, String>) -> (res: (String, Option<String>))
    ensures
        match loaded {
            Ok(Some(k)) => res.0@ == k@ && res.1 is None,
            Ok(None) => res.0@.len() == 0 && res.1 is None,
            Err(e) => res.0@.len() == 0 && res.1 is Some && res.1->0@ == "Could not access Credential Manager: "@ + e@,
        },
{
    match loaded {
        Ok(Some(api_key)) => (api_key, None),
        Ok(None) => (String::new(), None),
        Err(err) => {
            let mut out = lit("Could not access Credential Manager: ");
            append_chars(&mut out, &chars_of(err.as_str()));
            (String::new(), Some(string_of(&out)))
        },
    }
}

/// The LingQ token kept by this platform's token store (which keeps none).
pub fn load_lingq_api_key_from_storage() -> (res: (String, Option<String>))
    ensures
        res.0@.len() == 0,
        res.1 is None,
{
    api_key_from_load_result(credential_store::load_lingq_api_key())
}


// ───────────────────────────── library totals ─────────────────────────────

/// The section an article is counted under: `Unsorted` when it has none.
pub open spec fn section_key(section: Seq<char>) -> Seq<char> {
    if trim(section).len() == 0 {
        "Unsorted"@
    } else {
        section
    }
}

/// How many of `articles` are counted under `key`.
pub open spec fn count_section(articles: Seq<ArticleListItem>, key: Seq<char>) -> nat
    decreases articles.len(),
{
    if articles.len() == 0 {
        0
    } else {
        count_section(articles.drop_last(), key) + (if section_key(articles.last().section@) == key {
            1nat
        } else {
            0nat
        })
    }
}

/// How many of `articles` have been uploaded to LingQ.
pub open spec fn count_uploaded(articles: Seq<ArticleListItem>) -> nat
    decreases articles.len(),
{
    if articles.len() == 0 {
        0
    } else {
        count_uploaded(articles.drop_last()) + (if articles.last().uploaded_to_lingq {
            1nat
        } else {
            0nat
        })
    }
}

/// The total word count of `articles`.
pub open spec fn sum_words(articles: Seq<ArticleListItem>) -> int
    decreases articles.len(),
{
    if articles.len() == 0 {
        0
    } else {
        sum_words(articles.drop_last()) + articles.last().word_count
    }
}

/// `total / n` rounded to the nearest integer, halves away from zero
/// (`f64::round` of the quotient).
pub open spec fn round_half_away(total: int, n: int) -> int {
    let m = if total >= 0 {
        total
    } else {
        -total
    };
    let k = if 2 * (m % n) >= n {
        m / n + 1
    } else {
        m / n
    };
    if total >= 0 {
        k
    } else {
        -k
    }
}

/// The order of the per-section counts: larger counts first, then sections
/// in alphabetical order.
pub open spec fn section_before(a: SectionCount, b: SectionCount) -> bool {
    a.count > b.count || (a.count == b.count && seq_lt(a.section@, b.section@))
}

proof fn lemma_section_before(a: SectionCount, b: SectionCount, c: SectionCount)
    ensures
        section_before(a, b) ==> !section_before(b, a),
        section_before(a, b) && section_before(b, c) ==> section_before(a, c),
        a.section@ != b.section@ ==> section_before(a, b) || section_before(b, a),
{
    lemma_seq_lt_order(a.section@, b.section@, c.section@);
    lemma_seq_lt_order(b.section@, a.section@, c.section@);
}

/// Some entry of `counts` is for `key`.
pub open spec fn covers(counts: Seq<SectionCount>, key: Seq<char>) -> bool {
    exists|a: int| 0 <= a < counts.len() && (#[trigger] counts[a]).section@ == key
}

/// A section count is right for `articles`: it counts its section exactly.
pub open spec fn counts_right(articles: Seq<ArticleListItem>, e: SectionCount) -> bool {
    e.count == count_section(articles, e.section@) && e.count > 0
}

proof fn lemma_count_section_step(articles: Seq<ArticleListItem>, i: int, key: Seq<char>)
    requires
        0 <= i < articles.len(),
    ensures
        count_section(articles.take(i + 1), key) == count_section(articles.take(i), key) + (if section_key(
            articles[i].section@,
        ) == key {
            1nat
        } else {
            0nat
        }),
{
    assert(articles.take(i + 1).drop_last() =~= articles.take(i));
}

proof fn lemma_count_section_bound(articles: Seq<ArticleListItem>, key: Seq<char>)
    ensures
        count_section(articles, key) <= articles.len(),
    decreases articles.len(),
{
    if articles.len() > 0 {
        lemma_count_section_bound(articles.drop_last(), key);
    }
}

/// The distinct sections of `articles` with their counts, in order of first
/// appearance.
fn tally_sections(articles: &Vec<ArticleListItem>) -> (res: Vec<SectionCount>)
    requires
        articles@.len() <= i64::MAX,
    ensures
        forall|a: int| 0 <= a < res@.len() ==> counts_right(articles@, #[trigger] res@[a]),
        forall|a: int, b: int|
            0 <= a < b < res@.len() ==> (#[trigger] res@[a]).section@ != (#[trigger] res@[b]).section@,
        forall|k: int|
            0 <= k < articles@.len() ==> covers(res@, section_key((#[trigger] articles@[k]).section@)),
{
    let mut out: Vec<SectionCount> = Vec::new();
    let n: usize = articles.len();
    let mut i: usize = 0;
    while i < n
        invariant
            i <= n,
            n == articles@.len(),
            n <= i64::MAX,
            out@.len() <= i,
            forall|a: int| 0 <= a < out@.len() ==> counts_right(articles@.take(i as int), #[trigger] out@[a]),
            forall|a: int, b: int|
                0 <= a < b < out@.len() ==> (#[trigger] out@[a]).section@ != (#[trigger] out@[b]).section@,
            forall|k: int|
                0 <= k < i ==> covers(out@, section_key((#[trigger] articles@[k]).section@)),
        decreases n - i,
    {
        let sec = chars_of(articles[i].section.as_str());
        let key: Vec<char> = if trim_vec(&sec).len() == 0 {
            lit("Unsorted")
        } else {
            sec
        };
        let ghost arts = articles@;
        assert(key@ == section_key(arts[i as int].section@));
        let m: usize = out.len();
        let mut j: usize = 0;
        while j < m && !crate::text::chars_eq(&chars_of(out[j].section.as_str()), &key)
            invariant
                j <= m,
                m == out@.len(),
                forall|a: int| 0 <= a < j ==> (#[trigger] out@[a]).section@ != key@,
            decreases m - j,
        {
            j = j + 1;
        }
        proof {
            assert forall|a: int| 0 <= a < out@.len() implies counts_right(
                arts.take(i + 1),
                #[trigger] out@[a],
            ) || out@[a].section@ == key@ by {
                lemma_count_section_step(arts, i as int, out@[a].section@);
            }
            lemma_count_section_step(arts, i as int, key@);
            lemma_count_section_bound(arts.take(i as int), key@);
        }
        if j < m {
            let old_count: i64 = out[j].count;
            let ghost before = out@;
            let entry = SectionCount { section: string_of(&key), count: old_count + 1 };
            out.set(j, entry);
            proof {
                assert forall|k: int| 0 <= k < i + 1 implies covers(out@, section_key((#[trigger] arts[k]).section@)) by {
                    if k < i {
                        assert(covers(before, section_key(arts[k].section@)));
                        let a = choose|a: int|
                            0 <= a < before.len() && (#[trigger] before[a]).section@ == section_key(
                                arts[k].section@,
                            );
                        assert(out@[a].section@ == before[a].section@);
                    } else {
                        assert(out@[j as int].section@ == section_key(arts[k].section@));
                    }
                }
            }
        } else {
            let ghost before = out@;
            out.push(SectionCount { section: string_of(&key), count: 1 });
            proof {
                assert(count_section(arts.take(i as int), key@) == 0) by {
                    if count_section(arts.take(i as int), key@) > 0 {
                        lemma_count_zero_absent(arts.take(i as int), key@);
                        let k = choose|k: int|
                            0 <= k < i && section_key(arts.take(i as int)[k].section@) == key@;
                        assert(arts.take(i as int)[k] == arts[k]);
                        assert(arts[k] == articles@[k]);
                        assert(covers(before, section_key(arts[k].section@)));
                        let a = choose|a: int|
                            0 <= a < before.len() && (#[trigger] before[a]).section@ == section_key(
                                arts[k].section@,
                            );
                        assert(before[a].section@ != key@);
                    }
                }
                assert forall|k: int| 0 <= k < i + 1 implies covers(out@, section_key((#[trigger] arts[k]).section@)) by {
                    if k < i {
                        assert(covers(before, section_key(arts[k].section@)));
                        let a = choose|a: int|
                            0 <= a < before.len() && (#[trigger] before[a]).section@ == section_key(
                                arts[k].section@,
                            );
                        assert(out@[a].section@ == before[a].section@);
                    } else {
                        assert(out@[m as int].section@ == section_key(arts[k].section@));
                    }
                }
            }
        }
        i = i + 1;
    }
    assert(articles@.take(n as int) =~= articles@);
    out
}

proof fn lemma_count_zero_absent(articles: Seq<ArticleListItem>, key: Seq<char>)
    requires
        count_section(articles, key) > 0,
    ensures
        exists|k: int| 0 <= k < articles.len() && section_key(articles[k].section@) == key,
    decreases articles.len(),
{
    let last = articles.len() - 1;
    if section_key(articles[last].section@) != key {
        lemma_count_zero_absent(articles.drop_last(), key);
        let k = choose|k: int|
            0 <= k < articles.drop_last().len() && section_key(articles.drop_last()[k].section@)
                == key;
        assert(articles.drop_last()[k] == articles[k]);
    }
}

proof fn lemma_insert_sorted(old: Seq<SectionCount>, e: SectionCount, p: int)
    requires
        0 <= p <= old.len(),
        forall|a: int| 0 <= a < p ==> !section_before(e, #[trigger] old[a]),
        p < old.len() ==> section_before(e, old[p]),
        forall|a: int| 0 <= a < old.len() ==> (#[trigger] old[a]).section@ != e.section@,
        forall|a: int, b: int| 0 <= a < b < old.len() ==> section_before(#[trigger] old[a], #[trigger] old[b]),
    ensures
        forall|a: int, b: int|
            0 <= a < b < old.insert(p, e).len() ==> section_before(
                #[trigger] old.insert(p, e)[a],
                #[trigger] old.insert(p, e)[b],
            ),
{
    let new = old.insert(p, e);
    assert forall|a: int, b: int| 0 <= a < b < new.len() implies section_before(
        #[trigger] new[a],
        #[trigger] new[b],
    ) by {
        if b == p {
            lemma_section_before(old[a], e, e);
            assert(new[a] == old[a]);
        } else if a == p {
            assert(new[b] == old[b - 1]);
            if b - 1 > p {
                assert(section_before(old[p], old[b - 1]));
                lemma_section_before(e, old[p], old[b - 1]);
            }
        } else if b < p {
            assert(new[a] == old[a]);
            assert(new[b] == old[b]);
        } else if a < p {
            assert(new[a] == old[a]);
            assert(new[b] == old[b - 1]);
            lemma_section_before(old[a], e, e);
            lemma_section_before(e, old[p], old[b - 1]);
            if b - 1 > p {
                assert(section_before(old[p], old[b - 1]));
            }
            lemma_section_before(old[a], e, old[b - 1]);
        } else {
            assert(new[a] == old[a - 1]);
            assert(new[b] == old[b - 1]);
        }
    }
}

/// The section counts in `section_before` order (insertion sort).
#[verifier::rlimit(30)]
fn sort_sections(entries: Vec<SectionCount>, Ghost(articles): Ghost<Seq<ArticleListItem>>) -> (res: Vec<SectionCount>)
    requires
        forall|a: int| 0 <= a < entries@.len() ==> counts_right(articles, #[trigger] entries@[a]),
        forall|a: int, b: int|
            0 <= a < b < entries@.len() ==> (#[trigger] entries@[a]).section@ != (
            #[trigger] entries@[b]).section@,
    ensures
        forall|a: int| 0 <= a < res@.len() ==> counts_right(articles, #[trigger] res@[a]),
        forall|a: int, b: int|
            0 <= a < b < res@.len() ==> section_before(#[trigger] res@[a], #[trigger] res@[b]),
        forall|b: int| 0 <= b < entries@.len() ==> covers(res@, (#[trigger] entries@[b]).section@),
{
    let mut sorted: Vec<SectionCount> = Vec::new();
    let n: usize = entries.len();
    let mut j: usize = 0;
    while j < n
        invariant
            j <= n,
            n == entries@.len(),
            forall|a: int| 0 <= a < entries@.len() ==> counts_right(articles, #[trigger] entries@[a]),
            forall|a: int, b: int|
                0 <= a < b < entries@.len() ==> (#[trigger] entries@[a]).section@ != (
                #[trigger] entries@[b]).section@,
            forall|a: int| 0 <= a < sorted@.len() ==> counts_right(articles, #[trigger] sorted@[a]),
            forall|a: int, b: int|
                0 <= a < b < sorted@.len() ==> section_before(#[trigger] sorted@[a], #[trigger] sorted@[b]),
            forall|a: int|
                0 <= a < sorted@.len() ==> exists|b: int|
                    0 <= b < j && (#[trigger] sorted@[a]).section@ == (#[trigger] entries@[b]).section@,
            forall|b: int| 0 <= b < j ==> covers(sorted@, (#[trigger] entries@[b]).section@),
        decreases n - j,
    {
        let e = entries[j].clone_count();
        let m: usize = sorted.len();
        let mut p: usize = 0;
        while p < m && !count_before(&e, &sorted[p])
            invariant
                p <= m,
                m == sorted@.len(),
                forall|a: int| 0 <= a < p ==> !section_before(e, #[trigger] sorted@[a]),
            decreases m - p,
        {
            p = p + 1;
        }
        let ghost old_sorted = sorted@;
        proof {
            assert forall|a: int| 0 <= a < m implies (#[trigger] old_sorted[a]).section@ != e.section@ by {
                let b = choose|b: int|
                    0 <= b < j && (#[trigger] old_sorted[a]).section@ == (#[trigger] entries@[b]).section@;
                assert(entries@[b].section@ != entries@[j as int].section@);
            }
            lemma_insert_sorted(old_sorted, e, p as int);
        }
        sorted.insert(p, e);
        proof {
            assert(sorted@ == old_sorted.insert(p as int, e));
            assert forall|a: int|
                0 <= a < sorted@.len() implies exists|b: int|
                    0 <= b < j + 1 && (#[trigger] sorted@[a]).section@ == (
                    #[trigger] entries@[b]).section@ by {
                if a == p {
                    assert(sorted@[a].section@ == entries@[j as int].section@);
                } else if a < p {
                    let b = choose|b: int|
                        0 <= b < j && (#[trigger] old_sorted[a]).section@ == (
                        #[trigger] entries@[b]).section@;
                    assert(sorted@[a] == old_sorted[a]);
                } else {
                    let b = choose|b: int|
                        0 <= b < j && (#[trigger] old_sorted[a - 1]).section@ == (
                        #[trigger] entries@[b]).section@;
                    assert(sorted@[a] == old_sorted[a - 1]);
                }
            }
            assert forall|b: int| 0 <= b < j + 1 implies covers(sorted@, (#[trigger] entries@[b]).section@) by {
                if b == j {
                    assert(sorted@[p as int].section@ == entries@[b].section@);
                } else {
                    assert(covers(old_sorted, entries@[b].section@));
                    let a = choose|a: int|
                        0 <= a < old_sorted.len() && (#[trigger] old_sorted[a]).section@ == entries@[b].section@;
                    if a < p {
                        assert(sorted@[a] == old_sorted[a]);
                    } else {
                        assert(sorted@[a + 1] == old_sorted[a]);
                    }
                }
            }
        }
        j = j + 1;
    }
    sorted
}

fn count_before(a: &SectionCount, b: &SectionCount) -> (res: bool)
    ensures
        res == section_before(*a, *b),
{
    if a.count > b.count {
        true
    } else if a.count == b.count {
        crate::text::compare_chars(&chars_of(a.section.as_str()), &chars_of(b.section.as_str()))
            == -1
    } else {
        false
    }
}

impl SectionCount {
    /// A copy of this count.
    pub fn clone_count(&self) -> (res: SectionCount)
        ensures
            res.section@ == self.section@,
            res.count == self.count,
    {
        SectionCount { section: string_of(&chars_of(self.section.as_str())), count: self.count }
    }
}

proof fn lemma_sum_step(articles: Seq<ArticleListItem>, i: int)
    requires
        0 <= i < articles.len(),
    ensures
        sum_words(articles.take(i + 1)) == sum_words(articles.take(i)) + articles[i].word_count,
        count_uploaded(articles.take(i + 1)) == count_uploaded(articles.take(i)) + (if articles[i].uploaded_to_lingq {
            1nat
        } else {
            0nat
        }),
{
    assert(articles.take(i + 1).drop_last() =~= articles.take(i));
}

/// Totals over the library cards held in memory: how many there are, how
/// many were uploaded, their mean word count (rounded halves away from
/// zero) and the count of each section (`Unsorted` for none), largest first
/// and alphabetically among equal counts.
pub fn compute_local_library_stats(articles: &Vec<ArticleListItem>) -> (res: LibraryStats)
    requires
        articles@.len() <= i64::MAX,
    ensures
        res.total_articles == articles@.len(),
        res.uploaded_articles == count_uploaded(articles@),
        res.average_word_count == (if articles@.len() == 0 {
            0
        } else {
            round_half_away(sum_words(articles@), articles@.len() as int)
        }),
        forall|a: int| 0 <= a < res.sections@.len() ==> counts_right(articles@, #[trigger] res.sections@[a]),
        forall|a: int, b: int|
            0 <= a < b < res.sections@.len() ==> section_before(
                #[trigger] res.sections@[a],
                #[trigger] res.sections@[b],
            ),
        forall|k: int|
            0 <= k < articles@.len() ==> covers(res.sections@, section_key((#[trigger] articles@[k]).section@)),
{
    let n: usize = articles.len();
    let mut uploaded: i64 = 0;
    let mut total: i128 = 0;
    let mut i: usize = 0;
    while i < n
        invariant
            i <= n,
            n == articles@.len(),
            n <= i64::MAX,
            uploaded as int == count_uploaded(articles@.take(i as int)),
            uploaded <= i,
            total as int == sum_words(articles@.take(i as int)),
            -(i * 9223372036854775808) <= total <= i * 9223372036854775807,
        decreases n - i,
    {
        proof {
            lemma_sum_step(articles@, i as int);
        }
        total = total + articles[i].word_count as i128;
        if articles[i].uploaded_to_lingq {
            uploaded = uploaded + 1;
        }
        i = i + 1;
    }
    assert(articles@.take(n as int) =~= articles@);
    let average: i64 = if n == 0 {
        0
    } else {
        mean_rounded(total, n)
    };
    let entries = tally_sections(articles);
    let sections = sort_sections(entries, Ghost(articles@));
    proof {
        assert forall|k: int|
            0 <= k < articles@.len() implies covers(sections@, section_key((#[trigger] articles@[k]).section@)) by {
            assert(covers(entries@, section_key(articles@[k].section@)));
            let b = choose|b: int|
                0 <= b < entries@.len() && (#[trigger] entries@[b]).section@ == section_key(
                    articles@[k].section@,
                );
            assert(covers(sections@, entries@[b].section@));
        }
    }
    LibraryStats {
        total_articles: n as i64,
        uploaded_articles: uploaded,
        average_word_count: average,
        sections,
    }
}

fn mean_rounded(total: i128, n: usize) -> (res: i64)
    requires
        n > 0,
        -(n * 9223372036854775808) <= total <= n * 9223372036854775807,
    ensures
        res == round_half_away(total as int, n as int),
{
    let neg: bool = total < 0;
    let m: u128 = if neg { (-total) as u128 } else { total as u128 };
    let nn: u128 = n as u128;
    let q: u128 = m / nn;
    let r: u128 = m % nn;
    let bound: u128 = if neg { 9223372036854775808u128 } else { 9223372036854775807u128 };
    assert(m <= nn * bound);
    assert(q <= bound) by (nonlinear_arith)
        requires
            m <= nn * bound,
            q == m / nn,
            nn > 0,
    ;
    let k: u128 = if 2 * r >= nn {
        assert(q < bound) by (nonlinear_arith)
            requires
                m <= nn * bound,
                q == m / nn,
                r == m % nn,
                2 * r >= nn,
                nn > 0,
        {
            if q >= bound {
                assert(m == nn * q + r);
                assert(nn * q >= nn * bound);
            }
        }
        q + 1
    } else {
        q
    };
    if neg {
        if k == 9223372036854775808u128 {
            -9223372036854775807i64 - 1
        } else {
            let v: i64 = k as i64;
            -v
        }
    } else {
        k as i64
    }
}

// ───────────────────────────── library filters ─────────────────────────────

/// The topic a library card is filed under.
pub open spec fn spec_card_topic(a: ArticleListItem) -> Seq<char> {
    spec_effective_topic(a.custom_topic@, a.title@, a.subtitle@, a.section@, a.url@)
}

/// Whether a card passes the library filters: the topic (when one is
/// chosen), "only not uploaded", and the word-count bounds.
pub open spec fn card_passes(
    a: ArticleListItem,
    topic: Seq<char>,
    only_not_uploaded: bool,
    min_words: Option<usize>,
    max_words: Option<usize>,
) -> bool {
    &&& (trim(topic).len() == 0 || spec_card_topic(a) == topic)
    &&& (!only_not_uploaded || !a.uploaded_to_lingq)
    &&& (match min_words {
        Some(m) => a.word_count as usize >= m,
        None => true,
    })
    &&& (match max_words {
        Some(m) => a.word_count as usize <= m,
        None => true,
    })
}

/// The ids of the cards that pass the filters, in order; with
/// `not_uploaded_only`, only those not uploaded yet.
pub open spec fn passing_ids(
    cards: Seq<ArticleListItem>,
    topic: Seq<char>,
    only_not_uploaded: bool,
    min_words: Option<usize>,
    max_words: Option<usize>,
    not_uploaded_only: bool,
) -> Seq<i64>
    decreases cards.len(),
{
    if cards.len() == 0 {
        Seq::<i64>::empty()
    } else {
        let rest = passing_ids(
            cards.drop_last(),
            topic,
            only_not_uploaded,
            min_words,
            max_words,
            not_uploaded_only,
        );
        let a = cards.last();
        if card_passes(a, topic, only_not_uploaded, min_words, max_words) && (!not_uploaded_only
            || !a.uploaded_to_lingq) {
            rest.push(a.id)
        } else {
            rest
        }
    }
}

/// Whether one card passes the library filters.
pub fn card_passes_filters(
    a: &ArticleListItem,
    topic: &str,
    only_not_uploaded: bool,
    min_words: Option<usize>,
    max_words: Option<usize>,
) -> (res: bool)
    ensures
        res == card_passes(*a, topic@, only_not_uploaded, min_words, max_words),
{
    if trim_vec(&chars_of(topic)).len() > 0 {
        let t = effective_topic_for_article(a);
        if !crate::text::str_eq(t.as_str(), topic) {
            return false;
        }
    }
    if only_not_uploaded && a.uploaded_to_lingq {
        return false;
    }
    let words: usize = a.word_count as usize;
    match min_words {
        Some(m) => {
            if words < m {
                return false;
            }
        },
        None => {},
    }
    match max_words {
        Some(m) => {
            if words > m {
                return false;
            }
        },
        None => {},
    }
    true
}

/// The ids of the cards that pass the filters (and, with
/// `not_uploaded_only`, are not uploaded yet).
pub fn matching_card_ids(
    cards: &Vec<ArticleListItem>,
    topic: &str,
    only_not_uploaded: bool,
    min_words: Option<usize>,
    max_words: Option<usize>,
    not_uploaded_only: bool,
) -> (res: Vec<i64>)
    ensures
        res@ == passing_ids(cards@, topic@, only_not_uploaded, min_words, max_words, not_uploaded_only),
{
    let mut out: Vec<i64> = Vec::new();
    let mut i: usize = 0;
    while i < cards.len()
        invariant
            i <= cards@.len(),
            out@ == passing_ids(
                cards@.take(i as int),
                topic@,
                only_not_uploaded,
                min_words,
                max_words,
                not_uploaded_only,
            ),
        decreases cards@.len() - i,
    {
        assert(cards@.take(i + 1).drop_last() =~= cards@.take(i as int));
        if card_passes_filters(&cards[i], topic, only_not_uploaded, min_words, max_words) && (
        !not_uploaded_only || !cards[i].uploaded_to_lingq) {
            out.push(cards[i].id);
        }
        i = i + 1;
    }
    assert(cards@.take(cards@.len() as int) =~= cards@);
    out
}

// ───────────────────────────── topic pick list ─────────────────────────────

/// The pick-list entry that stands for every topic.
pub open spec fn all_topics_label() -> Seq<char> {
    "All topics"@
}

/// The pick-list entry of a topic that `count` library cards have:
/// `"<topic> (<count>)"`.
pub open spec fn spec_topic_option_label(topic: Seq<char>, count: nat) -> Seq<char> {
    topic + " ("@ + decimal(count) + ")"@
}

/// The pick-list entry of `topic` with `count` cards.
pub fn topic_option_label(topic: &str, count: usize) -> (res: String)
    ensures
        res@ == spec_topic_option_label(topic@, count as nat),
{
    let mut out = chars_of(topic);
    append_chars(&mut out, &lit(" ("));
    append_chars(&mut out, &decimal_vec(count));
    append_chars(&mut out, &lit(")"));
    string_of(&out)
}

/// The entries of the library's topic pick list: "All topics", then each
/// counted topic with its count, in the order of `counts`.
pub fn topic_options(counts: &Vec<(String, usize)>) -> (res: Vec<String>)
    ensures
        res@.len() == counts@.len() + 1,
        res@[0]@ == all_topics_label(),
        forall|i: int|
            0 <= i < counts@.len() ==> (#[trigger] res@[i + 1])@ == spec_topic_option_label(
                counts@[i].0@,
                counts@[i].1 as nat,
            ),
{
    let mut out: Vec<String> = Vec::new();
    out.push(String::from_str("All topics"));
    let mut i: usize = 0;
    while i < counts.len()
        invariant
            i <= counts@.len(),
            out@.len() == i + 1,
            out@[0]@ == all_topics_label(),
            forall|k: int|
                0 <= k < i ==> (#[trigger] out@[k + 1])@ == spec_topic_option_label(
                    counts@[k].0@,
                    counts@[k].1 as nat,
                ),
        decreases counts@.len() - i,
    {
        out.push(topic_option_label(counts[i].0.as_str(), counts[i].1));
        i = i + 1;
    }
    out
}

/// The count of the first entry of `counts` for `topic`, if any.
pub open spec fn count_of_topic(counts: Seq<(Seq<char>, nat)>, topic: Seq<char>) -> Option<nat>
    decreases counts.len(),
{
    if counts.len() == 0 {
        None
    } else if counts[0].0 == topic {
        Some(counts[0].1)
    } else {
        count_of_topic(counts.drop_first(), topic)
    }
}

/// The pick-list entry shown for the chosen topic: "All topics" when none
/// is chosen, the topic with its count when it is counted, else the topic.
pub open spec fn spec_current_topic_label(topic: Seq<char>, counts: Seq<(Seq<char>, nat)>) -> Seq<char> {
    if topic.len() == 0 {
        all_topics_label()
    } else {
        match count_of_topic(counts, topic) {
            Some(c) => spec_topic_option_label(topic, c),
            None => topic,
        }
    }
}

/// The pick-list entry shown for the chosen `topic`.
pub fn current_topic_label(topic: &str, counts: &Vec<(String, usize)>) -> (res: String)
    ensures
        res@ == spec_current_topic_label(topic@, tally_view(counts@)),
{
    let key = chars_of(topic);
    if key.len() == 0 {
        return String::from_str("All topics");
    }
    let ghost all = tally_view(counts@);
    assert(all.skip(0) =~= all);
    let mut i: usize = 0;
    while i < counts.len()
        invariant
            i <= counts@.len(),
            all == tally_view(counts@),
            key@ == topic@,
            key@.len() > 0,
            count_of_topic(all, topic@) == count_of_topic(all.skip(i as int), topic@),
        decreases counts@.len() - i,
    {
        assert(all.skip(i as int).drop_first() =~= all.skip(i + 1));
        assert(all.skip(i as int)[0] == all[i as int]);
        if chars_eq(&chars_of(counts[i].0.as_str()), &key) {
            return topic_option_label(topic, counts[i].1);
        }
        i = i + 1;
    }
    assert(all.skip(i as int).len() == 0);
    string_of(&key)
}

/// The last position at or before `i` where `" ("` starts in `s`.
pub open spec fn last_paren_at_or_before(s: Seq<char>, i: int) -> Option<int>
    decreases i + 1,
{
    if i < 0 {
        None
    } else if occurs_at(s, " ("@, i) {
        Some(i)
    } else {
        last_paren_at_or_before(s, i - 1)
    }
}

/// The topic a picked entry stands for: none for "All topics", the text
/// before the last `" ("` of a counted entry, else the entry itself.
pub open spec fn spec_topic_from_option(selected: Seq<char>) -> Seq<char> {
    if starts_with(selected, all_topics_label()) {
        Seq::empty()
    } else {
        match last_paren_at_or_before(selected, selected.len() as int) {
            Some(i) => selected.take(i),
            None => selected,
        }
    }
}

/// The topic the picked entry `selected` stands for (empty: all topics).
pub fn topic_from_option(selected: &str) -> (res: String)
    ensures
        res@ == spec_topic_from_option(selected@),
{
    let s = chars_of(selected);
    if starts_with_vec(&s, &lit("All topics")) {
        return String::new();
    }
    let pat = lit(" (");
    let mut i: usize = s.len();
    while i > 0 && !occurs_at_vec(&s, &pat, i)
        invariant
            i <= s@.len(),
            pat@ == " ("@,
            last_paren_at_or_before(s@, s@.len() as int) == last_paren_at_or_before(s@, i as int),
        decreases i,
    {
        i = i - 1;
    }
    if occurs_at_vec(&s, &pat, i) {
        string_of(&take_chars(&s, i))
    } else {
        assert(i == 0);
        assert(last_paren_at_or_before(s@, -1) is None);
        string_of(&s)
    }
}

/// No `" ("` starts in `s` after position `i` up to `j`: the last one at or
/// before `j` is the last one at or before `i`.
proof fn lemma_last_paren_skip(s: Seq<char>, i: int, j: int)
    requires
        i <= j,
        forall|k: int| i < k <= j ==> !occurs_at(s, " ("@, k),
    ensures
        last_paren_at_or_before(s, j) == last_paren_at_or_before(s, i),
    decreases j - i,
{
    if i < j {
        lemma_last_paren_skip(s, i, j - 1);
    }
}

/// A picked topic entry reads back as its topic: the entry of a topic with
/// any count stands for that topic, and "All topics" stands for none.
pub proof fn law_topic_option_round_trip(topic: Seq<char>, count: nat)
    requires
        !starts_with(topic, all_topics_label()),
    ensures
        spec_topic_from_option(spec_topic_option_label(topic, count)) == topic,
        spec_topic_from_option(all_topics_label()).len() == 0,
{
    reveal_strlit("All topics");
    reveal_strlit(" (");
    reveal_strlit(")");
    assert(all_topics_label().take(all_topics_label().len() as int) =~= all_topics_label());
    let s = spec_topic_option_label(topic, count);
    let d = decimal(count);
    let n = topic.len() as int;
    lemma_decimal_digits(count);
    assert(s =~= topic + seq![' ', '('] + d + seq![')']);
    assert(s[n] == ' ' && s[n + 1] == '(');
    assert forall|k: int| n < k <= s.len() implies !occurs_at(s, " ("@, k) by {
        if occurs_at(s, " ("@, k) {
            assert(s.subrange(k, k + 2)[0] == s[k]);
            if k == n + 1 {
                assert(s[k] == '(');
            } else {
                assert(n + 2 <= k < s.len() - 1);
                assert(s[k] == d[k - n - 2]);
            }
        }
    }
    lemma_last_paren_skip(s, n, s.len() as int);
    assert(s.subrange(n, n + 2) =~= " ("@);
    assert(occurs_at(s, " ("@, n));
    assert(s.take(n) =~= topic);
    assert(!starts_with(s, all_topics_label())) by {
        let l = all_topics_label();
        if starts_with(s, l) {
            if n >= l.len() {
                assert(topic.take(l.len() as int) =~= s.take(l.len() as int));
            } else {
                assert forall|k: int| 0 <= k < n implies topic[k] == l[k] by {
                    assert(s.take(l.len() as int)[k] == s[k]);
                }
                assert(topic =~= l.take(n));
                assert(s.take(l.len() as int)[n] == s[n]);
                assert(s.take(l.len() as int)[n + 1] == s[n + 1]);
                assert(l[n] == ' ');
                assert(n == 3);
                assert(l[4] == 't');
            }
        }
    }
}

/// A decimal numeral holds neither a space nor an opening parenthesis.
proof fn lemma_decimal_digits(n: nat)
    ensures
        forall|i: int| 0 <= i < decimal(n).len() ==> #[trigger] decimal(n)[i] != ' ' && decimal(n)[i] != '(',
    decreases n,
{
    let c = digit_char(n % 10);
    assert(48 <= 48 + n % 10 <= 57);
    assert(c != ' ' && c != '(');
    if n >= 10 {
        lemma_decimal_digits(n / 10);
        assert forall|i: int| 0 <= i < decimal(n).len() implies #[trigger] decimal(n)[i] != ' ' && decimal(n)[i]
            != '(' by {
            if i < decimal(n / 10).len() {
                assert(decimal(n)[i] == decimal(n / 10)[i]);
            }
        }
    }
}

} // verus!
