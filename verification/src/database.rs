//! Stored articles and the text that the library derives from them: preview
//! summaries, content fingerprints and full-text search queries.
use vstd::prelude::*;
use std::hash::{Hash, Hasher};
use crate::soziopolis::article::{is_alnum, is_alphanumeric_char};
use crate::soziopolis::types::Article;
use crate::text::{
    append_chars, chars_of, clean_ws, clean_ws_vec, ellipsize, ellipsize_vec, join, join_vec, lit,
    lowercase, lowercase_vec, starts_with, starts_with_vec, string_of, trim, trim_vec, views,
    ellipsis, is_ws, trim_end, trim_start,
};

verus! {

/// An article row of the local library.
#[derive(Debug, Clone)]
pub struct StoredArticle {
    pub id: i64,
    pub url: String,
    pub title: String,
    pub subtitle: String,
    pub teaser: String,
    pub preview_summary: String,
    pub author: String,
    pub date: String,
    pub published_at: String,
    pub section: String,
    pub source_kind: String,
    pub source_label: String,
    pub content_fingerprint: String,
    pub body_text: String,
    pub clean_text: String,
    pub word_count: i64,
    pub fetched_at: String,
    pub custom_topic: String,
    pub uploaded_to_lingq: bool,
    pub lingq_lesson_id: Option<i64>,
    pub lingq_lesson_url: String,
}

impl StoredArticle {
    /// A field-by-field copy.
    pub fn duplicate(&self) -> (res: StoredArticle)
        ensures
            res == *self,
    {
        StoredArticle {
            id: self.id,
            url: self.url.clone(),
            title: self.title.clone(),
            subtitle: self.subtitle.clone(),
            teaser: self.teaser.clone(),
            preview_summary: self.preview_summary.clone(),
            author: self.author.clone(),
            date: self.date.clone(),
            published_at: self.published_at.clone(),
            section: self.section.clone(),
            source_kind: self.source_kind.clone(),
            source_label: self.source_label.clone(),
            content_fingerprint: self.content_fingerprint.clone(),
            body_text: self.body_text.clone(),
            clean_text: self.clean_text.clone(),
            word_count: self.word_count,
            fetched_at: self.fetched_at.clone(),
            custom_topic: self.custom_topic.clone(),
            uploaded_to_lingq: self.uploaded_to_lingq,
            lingq_lesson_id: self.lingq_lesson_id,
            lingq_lesson_url: self.lingq_lesson_url.clone(),
        }
    }
}

/// How many articles a section holds.
#[derive(Debug, Clone)]
pub struct SectionCount {
    pub section: String,
    pub count: i64,
}

/// Totals over the library.
#[derive(Debug, Clone)]
pub struct LibraryStats {
    pub total_articles: i64,
    pub uploaded_articles: i64,
    pub average_word_count: i64,
    pub sections: Vec<SectionCount>,
}

// ───────────────────────────── previews ─────────────────────────────

/// A one-paragraph preview of `value`: trimmed, a leading `## ` heading
/// marker dropped, whitespace collapsed, and cut to `max_chars` characters
/// with `...` when longer.
pub open spec fn spec_normalize_preview_text(value: Seq<char>, max_chars: usize) -> Seq<char> {
    let t = trim(value);
    let base = if starts_with(t, "## "@) {
        t.skip(3)
    } else {
        t
    };
    let collapsed = trim(clean_ws(base));
    if collapsed.len() == 0 {
        Seq::empty()
    } else {
        ellipsize(collapsed, max_chars as nat)
    }
}

/// A one-paragraph preview of `value` of at most `max_chars` characters.
pub fn normalize_preview_text(value: &str, max_chars: usize) -> (res: String)
    ensures
        res@ == spec_normalize_preview_text(value@, max_chars),
{
    let t = trim_vec(&chars_of(value));
    let heading = lit("## ");
    let base = if starts_with_vec(&t, &heading) {
        proof {
            reveal_strlit("## ");
        }
        let mut rest: Vec<char> = Vec::new();
        let mut k: usize = 3;
        while k < t.len()
            invariant
                3 <= k <= t@.len(),
                rest@ =~= t@.subrange(3, k as int),
            decreases t@.len() - k,
        {
            rest.push(t[k]);
            k = k + 1;
        }
        assert(rest@ =~= t@.skip(3));
        rest
    } else {
        t
    };
    let collapsed = trim_vec(&clean_ws_vec(&base));
    if collapsed.len() == 0 {
        return string_of(&Vec::new());
    }
    string_of(&ellipsize_vec(&collapsed, max_chars))
}

/// The preview of the first of teaser, subtitle and body that has one.
pub open spec fn spec_preview_summary(teaser: Seq<char>, subtitle: Seq<char>, body: Seq<char>) -> Seq<
    char,
> {
    if spec_normalize_preview_text(teaser, 220).len() > 0 {
        spec_normalize_preview_text(teaser, 220)
    } else if spec_normalize_preview_text(subtitle, 220).len() > 0 {
        spec_normalize_preview_text(subtitle, 220)
    } else {
        spec_normalize_preview_text(body, 220)
    }
}

/// The library card preview of an article from its teaser, subtitle or body.
pub fn build_preview_summary_from_fields(teaser: &str, subtitle: &str, body_text: &str) -> (res:
    String)
    ensures
        res@ == spec_preview_summary(teaser@, subtitle@, body_text@),
{
    let a = normalize_preview_text(teaser, 220);
    if !a.as_str().is_empty() {
        return a;
    }
    let b = normalize_preview_text(subtitle, 220);
    if !b.as_str().is_empty() {
        return b;
    }
    normalize_preview_text(body_text, 220)
}

/// The library card preview of an article.
pub fn build_article_preview_summary(article: &Article) -> (res: String)
    ensures
        res@ == spec_preview_summary(article.teaser@, article.subtitle@, article.body_text@),
{
    build_preview_summary_from_fields(
        article.teaser.as_str(),
        article.subtitle.as_str(),
        article.body_text.as_str(),
    )
}

// ───────────────────────────── fingerprints ─────────────────────────────

/// What hashing `seed` with std's `DefaultHasher::new()` and printing the
/// 64-bit result as 16 lower-case hex digits gives.
pub uninterp spec fn default_hash_hex(seed: Seq<char>) -> Seq<char>;

/// Sixteen lower-case hex digits, as `{:016x}` prints a `u64`.
pub open spec fn is_hex16(s: Seq<char>) -> bool {
    s.len() == 16 && forall|i: int|
        0 <= i < s.len() ==> ('0' <= #[trigger] s[i] <= '9' || 'a' <= s[i] <= 'f')
}

/// `DefaultHasher::new()` over the string `seed`, printed as `{:016x}`:
/// sixteen lower-case hex digits, the same for the same seed.
#[verifier::external_body]
pub(crate) fn hash_hex(seed: &str) -> (res: String)
    ensures
        res@ == default_hash_hex(seed@),
        is_hex16(res@),
{
    let mut hasher = std::collections::hash_map::DefaultHasher::new();
    seed.hash(&mut hasher);
    format!("{:016x}", hasher.finish())
}

/// The text that identifies an article's content: lower-cased trimmed
/// title, subtitle and author, the trimmed date, and the lower-cased
/// 320-character body preview, separated by `|`.
pub open spec fn fingerprint_seed(
    title: Seq<char>,
    subtitle: Seq<char>,
    author: Seq<char>,
    date: Seq<char>,
    body: Seq<char>,
) -> Seq<char> {
    lowercase(trim(title)) + "|"@ + lowercase(trim(subtitle)) + "|"@ + lowercase(trim(author)) + "|"@
        + trim(date) + "|"@ + lowercase(trim(spec_normalize_preview_text(body, 320)))
}

/// The duplicate-content fingerprint of an article's fields.
pub fn build_text_fingerprint(title: &str, subtitle: &str, author: &str, date: &str, body_text: &str) -> (res: String)
    ensures
        res@ == default_hash_hex(fingerprint_seed(title@, subtitle@, author@, date@, body_text@)),
        is_hex16(res@),
{
    let body_prefix = normalize_preview_text(body_text, 320);
    let bar = lit("|");
    let mut seed = lowercase_vec(&trim_vec(&chars_of(title)));
    append_chars(&mut seed, &bar);
    append_chars(&mut seed, &lowercase_vec(&trim_vec(&chars_of(subtitle))));
    append_chars(&mut seed, &bar);
    append_chars(&mut seed, &lowercase_vec(&trim_vec(&chars_of(author))));
    append_chars(&mut seed, &bar);
    append_chars(&mut seed, &trim_vec(&chars_of(date)));
    append_chars(&mut seed, &bar);
    append_chars(&mut seed, &lowercase_vec(&trim_vec(&chars_of(body_prefix.as_str()))));
    let s = string_of(&seed);
    hash_hex(s.as_str())
}

/// The duplicate-content fingerprint of an article.
pub fn build_article_fingerprint(article: &Article) -> (res: String)
    ensures
        res@ == default_hash_hex(
            fingerprint_seed(article.title@, article.subtitle@, article.author@, article.date@, article.body_text@),
        ),
        is_hex16(res@),
{
    build_text_fingerprint(
        article.title.as_str(),
        article.subtitle.as_str(),
        article.author.as_str(),
        article.date.as_str(),
        article.body_text.as_str(),
    )
}

/// The duplicate-content fingerprint of an article, as the import uses it.
pub fn debug_article_fingerprint(article: &Article) -> (res: String)
    ensures
        res@ == default_hash_hex(
            fingerprint_seed(article.title@, article.subtitle@, article.author@, article.date@, article.body_text@),
        ),
        is_hex16(res@),
{
    build_article_fingerprint(article)
}

/// What `trim_start` leaves is empty or starts with a non-whitespace
/// character.
proof fn lemma_trim_start_first(s: Seq<char>)
    ensures
        trim_start(s).len() == 0 || !is_ws(trim_start(s)[0]),
    decreases s.len(),
{
    if s.len() > 0 && is_ws(s[0]) {
        lemma_trim_start_first(s.subrange(1, s.len() as int));
    }
}

/// What `trim_end` leaves is a prefix of its input that is empty or ends
/// with a non-whitespace character.
proof fn lemma_trim_end_last(s: Seq<char>)
    ensures
        trim_end(s).len() <= s.len(),
        trim_end(s) == s.take(trim_end(s).len() as int),
        trim_end(s).len() == 0 || !is_ws(trim_end(s).last()),
    decreases s.len(),
{
    if s.len() > 0 && is_ws(s.last()) {
        lemma_trim_end_last(s.drop_last());
        assert(s.drop_last().take(trim_end(s).len() as int) =~= s.take(trim_end(s).len() as int));
    } else {
        assert(s.take(s.len() as int) =~= s);
    }
}

/// A trimmed text is empty or starts and ends with non-whitespace.
proof fn lemma_trim_ends(s: Seq<char>)
    ensures
        trim(s).len() == 0 || (!is_ws(trim(s)[0]) && !is_ws(trim(s).last())),
{
    lemma_trim_start_first(s);
    lemma_trim_end_last(trim_start(s));
    if trim(s).len() > 0 {
        assert(trim(s)[0] == trim_start(s).take(trim(s).len() as int)[0]);
    }
}

/// Trimming a text that is empty or starts and ends with non-whitespace
/// leaves it as it is.
proof fn lemma_trim_fixed(s: Seq<char>)
    requires
        s.len() == 0 || (!is_ws(s[0]) && !is_ws(s.last())),
    ensures
        trim(s) == s,
{
}

/// The preview text is already trimmed.
proof fn lemma_preview_trimmed(value: Seq<char>, max_chars: usize)
    ensures
        trim(spec_normalize_preview_text(value, max_chars)) == spec_normalize_preview_text(value, max_chars),
{
    let t = trim(value);
    let base = if starts_with(t, "## "@) { t.skip(3) } else { t };
    let collapsed = trim(clean_ws(base));
    lemma_trim_ends(clean_ws(base));
    let p = spec_normalize_preview_text(value, max_chars);
    if collapsed.len() > 0 && collapsed.len() > max_chars {
        let k: int = if max_chars >= 3 { max_chars - 3 } else { 0 };
        assert(p == collapsed.take(k) + ellipsis());
        assert(p.last() == '.');
        if k > 0 {
            assert(p[0] == collapsed[0]);
        } else {
            assert(p[0] == '.');
        }
    }
    lemma_trim_fixed(p);
}

/// Two articles whose trimmed, lower-cased title, subtitle and author, whose
/// trimmed date and whose lower-cased 320-character body previews agree
/// have the same content fingerprint, whatever their other fields.
pub proof fn law_fingerprint_agreement(a: Article, b: Article)
    requires
        lowercase(trim(a.title@)) == lowercase(trim(b.title@)),
        lowercase(trim(a.subtitle@)) == lowercase(trim(b.subtitle@)),
        lowercase(trim(a.author@)) == lowercase(trim(b.author@)),
        trim(a.date@) == trim(b.date@),
        lowercase(spec_normalize_preview_text(a.body_text@, 320)) == lowercase(
            spec_normalize_preview_text(b.body_text@, 320),
        ),
    ensures
        default_hash_hex(fingerprint_seed(a.title@, a.subtitle@, a.author@, a.date@, a.body_text@))
            == default_hash_hex(fingerprint_seed(b.title@, b.subtitle@, b.author@, b.date@, b.body_text@)),
{
    lemma_preview_trimmed(a.body_text@, 320);
    lemma_preview_trimmed(b.body_text@, 320);
}

// ───────────────────────────── full-text search ─────────────────────────────

/// One step of cutting text at every non-alphanumeric character.
pub open spec fn word_split_step(st: (Seq<Seq<char>>, Seq<char>), c: char) -> (Seq<Seq<char>>, Seq<char>) {
    if !is_alnum(c) {
        (st.0.push(st.1), Seq::empty())
    } else {
        (st.0, st.1.push(c))
    }
}

/// Cutting a prefix at non-alphanumeric characters, character by character.
pub open spec fn word_split_fold(s: Seq<char>) -> (Seq<Seq<char>>, Seq<char>)
    decreases s.len(),
{
    if s.len() == 0 {
        (Seq::empty(), Seq::empty())
    } else {
        word_split_step(word_split_fold(s.drop_last()), s.last())
    }
}

/// The pieces of `s` between non-alphanumeric characters
/// (`s.split(|c: char| !c.is_alphanumeric())`).
pub open spec fn word_pieces(s: Seq<char>) -> Seq<Seq<char>> {
    word_split_fold(s).0.push(word_split_fold(s).1)
}

/// The search terms: each trimmed non-empty piece with a `*` prefix wildcard.
pub open spec fn fts_terms(pieces: Seq<Seq<char>>) -> Seq<Seq<char>>
    decreases pieces.len(),
{
    if pieces.len() == 0 {
        Seq::empty()
    } else {
        let prev = fts_terms(pieces.drop_last());
        let t = trim(pieces.last());
        if t.len() > 0 {
            prev.push(t.push('*'))
        } else {
            prev
        }
    }
}

/// The full-text query for a search text: its words as prefix terms joined
/// by `AND`; none for an absent, blank or word-less search.
pub open spec fn spec_fts_query(search: Option<Seq<char>>) -> Option<Seq<char>> {
    match search {
        None => None,
        Some(s) => {
            let t = trim(s);
            if t.len() == 0 {
                None
            } else {
                let terms = fts_terms(word_pieces(t));
                if terms.len() == 0 {
                    None
                } else {
                    Some(join(terms, " AND "@))
                }
            }
        },
    }
}

fn word_pieces_vec(s: &Vec<char>) -> (res: Vec<Vec<char>>)
    ensures
        views(res@) == word_pieces(s@),
{
    let n: usize = s.len();
    let mut pieces: Vec<Vec<char>> = Vec::new();
    let mut cur: Vec<char> = Vec::new();
    let mut i: usize = 0;
    assert(s@.take(0) =~= Seq::<char>::empty());
    assert(views(pieces@) =~= Seq::<Seq<char>>::empty());
    while i < n
        invariant
            i <= n,
            n == s@.len(),
            (views(pieces@), cur@) == word_split_fold(s@.take(i as int)),
        decreases n - i,
    {
        assert(s@.take(i + 1).drop_last() =~= s@.take(i as int));
        let c: char = s[i];
        if !is_alphanumeric_char(c) {
            let ghost before = pieces@;
            pieces.push(cur);
            assert(views(pieces@) =~= views(before).push(cur@));
            cur = Vec::new();
        } else {
            cur.push(c);
        }
        i = i + 1;
    }
    assert(s@.take(n as int) =~= s@);
    let ghost before = pieces@;
    pieces.push(cur);
    assert(views(pieces@) =~= views(before).push(cur@));
    pieces
}

/// The full-text query for an optional search text.
pub fn build_fts_query(search: Option<&str>) -> (res: Option<String>)
    ensures
        match res {
            Some(q) => spec_fts_query(
                match search {
                    Some(s) => Some(s@),
                    None => None,
                },
            ) == Some(q@),
            None => spec_fts_query(
                match search {
                    Some(s) => Some(s@),
                    None => None,
                },
            ) is None,
        },
{
    let s = match search {
        Some(s) => s,
        None => return None,
    };
    let t = trim_vec(&chars_of(s));
    if t.len() == 0 {
        return None;
    }
    let pieces = word_pieces_vec(&t);
    let n: usize = pieces.len();
    let mut terms: Vec<Vec<char>> = Vec::new();
    let mut i: usize = 0;
    assert(views(pieces@).take(0) =~= Seq::<Seq<char>>::empty());
    assert(views(terms@) =~= Seq::<Seq<char>>::empty());
    while i < n
        invariant
            i <= n,
            n == pieces@.len(),
            views(terms@) == fts_terms(views(pieces@).take(i as int)),
        decreases n - i,
    {
        assert(views(pieces@).take(i + 1).drop_last() =~= views(pieces@).take(i as int));
        assert(views(pieces@).take(i + 1).last() == pieces@[i as int]@);
        let mut term = trim_vec(&pieces[i]);
        if term.len() > 0 {
            term.push('*');
            let ghost before = terms@;
            terms.push(term);
            assert(views(terms@) =~= views(before).push(term@));
        }
        i = i + 1;
    }
    assert(views(pieces@).take(n as int) =~= views(pieces@));
    if terms.len() == 0 {
        return None;
    }
    Some(string_of(&join_vec(&terms, &lit(" AND "))))
}

} // verus!
