//! Article text rules: how body blocks are cleaned, compared, deduplicated
//! and assembled into the plain text that is uploaded to LingQ.
use vstd::prelude::*;
use crate::text::{
    append_chars, byte_len, chars_eq, chars_of, clean_ws, clean_ws_vec, contains, contains_any,
    contains_char, ends_with, is_whitespace_char, is_ws, join, join_vec, lit, lowercase, lowercase_vec,
    split, split_vec, starts_with, starts_with_vec, str_byte_len, string_of, take_chars, trim, lemma_join_contains,
    trim_vec, views,
};

verus! {

// ───────────────────────────── comparing text ─────────────────────────────

/// What `char::is_alphanumeric` says of `c` (Unicode Alphabetic or Numeric).
pub uninterp spec fn is_alnum(c: char) -> bool;

/// `char::is_alphanumeric`.
#[verifier::external_body]
pub(crate) fn is_alphanumeric_char(c: char) -> (res: bool)
    ensures
        res == is_alnum(c),
{
    c.is_alphanumeric()
}

/// The letters, digits and whitespace of `s`, in order.
pub open spec fn alnum_or_ws(s: Seq<char>) -> Seq<char>
    decreases s.len(),
{
    if s.len() == 0 {
        s
    } else if is_alnum(s.last()) || is_ws(s.last()) {
        alnum_or_ws(s.drop_last()).push(s.last())
    } else {
        alnum_or_ws(s.drop_last())
    }
}

/// The comparison key of a text: punctuation dropped, whitespace collapsed,
/// lower-cased.
pub open spec fn spec_canonical_text(s: Seq<char>) -> Seq<char> {
    lowercase(clean_ws(alnum_or_ws(s)))
}

fn alnum_or_ws_vec(v: &Vec<char>) -> (res: Vec<char>)
    ensures
        res@ == alnum_or_ws(v@),
{
    let n: usize = v.len();
    let mut out: Vec<char> = Vec::new();
    let mut i: usize = 0;
    assert(v@.take(0) =~= Seq::<char>::empty());
    while i < n
        invariant
            i <= n,
            n == v@.len(),
            out@ == alnum_or_ws(v@.take(i as int)),
        decreases n - i,
    {
        assert(v@.take(i + 1).drop_last() =~= v@.take(i as int));
        let c: char = v[i];
        if is_alphanumeric_char(c) || is_whitespace_char(c) {
            out.push(c);
        }
        i = i + 1;
    }
    assert(v@.take(n as int) =~= v@);
    out
}

/// The comparison key of a text, as characters.
pub fn canonical_vec(v: &Vec<char>) -> (res: Vec<char>)
    ensures
        res@ == spec_canonical_text(v@),
{
    lowercase_vec(&clean_ws_vec(&alnum_or_ws_vec(v)))
}

/// The comparison key of a text: punctuation dropped, whitespace collapsed,
/// lower-cased.
pub fn canonical_text(value: &str) -> (res: String)
    ensures
        res@ == spec_canonical_text(value@),
{
    string_of(&canonical_vec(&chars_of(value)))
}

/// Two texts say the same thing: equal, non-empty comparison keys.
pub open spec fn spec_same_enough(left: Seq<char>, right: Seq<char>) -> bool {
    spec_canonical_text(left).len() > 0 && spec_canonical_text(left) == spec_canonical_text(right)
}

/// Whether two texts have the same non-empty comparison key.
pub fn same_enough_vec(left: &Vec<char>, right: &Vec<char>) -> (res: bool)
    ensures
        res == spec_same_enough(left@, right@),
{
    let l = canonical_vec(left);
    let r = canonical_vec(right);
    l.len() > 0 && chars_eq(&l, &r)
}

/// Whether two texts have the same non-empty comparison key.
pub fn same_enough(left: &str, right: &str) -> (res: bool)
    ensures
        res == spec_same_enough(left@, right@),
{
    same_enough_vec(&chars_of(left), &chars_of(right))
}

// ───────────────────────────── deduplication ─────────────────────────────

/// Whether some earlier block has the comparison key `key`.
pub open spec fn key_taken(kept: Seq<Seq<char>>, key: Seq<char>) -> bool {
    exists|i: int| 0 <= i < kept.len() && spec_canonical_text(#[trigger] kept[i]) == key
}

/// The blocks in order, each dropped when an earlier kept block has the same
/// comparison key.
pub open spec fn dedupe_by_key(blocks: Seq<Seq<char>>) -> Seq<Seq<char>>
    decreases blocks.len(),
{
    if blocks.len() == 0 {
        blocks
    } else {
        let prev = dedupe_by_key(blocks.drop_last());
        if key_taken(prev, spec_canonical_text(blocks.last())) {
            prev
        } else {
            prev.push(blocks.last())
        }
    }
}

/// Keeps the first block of each comparison key, in order.
pub fn dedupe_blocks(blocks: &Vec<Vec<char>>) -> (res: Vec<Vec<char>>)
    ensures
        views(res@) == dedupe_by_key(views(blocks@)),
{
    let n: usize = blocks.len();
    let mut kept: Vec<Vec<char>> = Vec::new();
    let mut keys: Vec<Vec<char>> = Vec::new();
    let mut i: usize = 0;
    assert(views(blocks@).take(0) =~= Seq::<Seq<char>>::empty());
    assert(views(kept@) =~= Seq::<Seq<char>>::empty());
    while i < n
        invariant
            i <= n,
            n == blocks@.len(),
            views(kept@) == dedupe_by_key(views(blocks@).take(i as int)),
            keys@.len() == kept@.len(),
            forall|k: int| 0 <= k < keys@.len() ==> (#[trigger] keys@[k])@ == spec_canonical_text(kept@[k]@),
        decreases n - i,
    {
        assert(views(blocks@).take(i + 1).drop_last() =~= views(blocks@).take(i as int));
        assert(views(blocks@).take(i + 1).last() == blocks@[i as int]@);
        let key = canonical_vec(&blocks[i]);
        let pos = crate::text::position_of_chars(&keys, &key);
        let seen: bool = pos.is_some();
        proof {
            let kv = views(kept@);
            if seen {
                assert(spec_canonical_text(kv[pos.unwrap() as int]) == key@);
                assert(key_taken(kv, key@));
            } else {
                assert(!key_taken(kv, key@)) by {
                    if key_taken(kv, key@) {
                        let w = choose|w: int| 0 <= w < kv.len() && spec_canonical_text(#[trigger] kv[w]) == key@;
                        assert(keys@[w]@ == key@);
                    }
                }
            }
        }
        if !seen {
            let ghost old_kept = kept@;
            kept.push(blocks[i].clone());
            keys.push(key);
            assert(views(kept@) =~= views(old_kept).push(blocks@[i as int]@));
        }
        i = i + 1;
    }
    assert(views(blocks@).take(n as int) =~= views(blocks@));
    kept
}

/// `lines` with every line dropped whose comparison key an earlier line has.
pub fn dedupe_lines(lines: &mut Vec<String>)
    ensures
        crate::text::str_views(final(lines)@) == dedupe_by_key(crate::text::str_views(old(lines)@)),
{
    let n: usize = lines.len();
    let mut blocks: Vec<Vec<char>> = Vec::new();
    let mut i: usize = 0;
    while i < n
        invariant
            i <= n,
            n == old(lines)@.len(),
            lines@ == old(lines)@,
            views(blocks@) =~= crate::text::str_views(old(lines)@).take(i as int),
        decreases n - i,
    {
        let ghost before = blocks@;
        blocks.push(chars_of(lines[i].as_str()));
        assert(crate::text::str_views(old(lines)@).take(i + 1) =~= crate::text::str_views(old(lines)@).take(i as int).push(old(lines)@[i as int]@));
        assert(views(blocks@) =~= views(before).push(old(lines)@[i as int]@));
        i = i + 1;
    }
    assert(crate::text::str_views(old(lines)@).take(n as int) =~= crate::text::str_views(old(lines)@));
    let kept = dedupe_blocks(&blocks);
    let mut out: Vec<String> = Vec::new();
    let m: usize = kept.len();
    let mut j: usize = 0;
    while j < m
        invariant
            j <= m,
            m == kept@.len(),
            crate::text::str_views(out@) =~= views(kept@).take(j as int),
        decreases m - j,
    {
        let ghost before = out@;
        out.push(string_of(&kept[j]));
        assert(views(kept@).take(j + 1) =~= views(kept@).take(j as int).push(kept@[j as int]@));
        assert(crate::text::str_views(out@) =~= crate::text::str_views(before).push(kept@[j as int]@));
        j = j + 1;
    }
    assert(views(kept@).take(m as int) =~= views(kept@));
    *lines = out;
}

// ───────────────────────────── body blocks ─────────────────────────────

/// Page furniture that marks a block as not part of the article.
pub open spec fn skip_markers() -> Seq<Seq<char>> {
    seq![
        "Empfehlungen"@,
        "Artikel lesen"@,
        "Zur PDF-Datei dieses Artikels"@,
        "Social Science Open Access Repository"@,
        "ISSN 2509-5196"@,
        "Zum Seitenanfang"@,
    ]
}

/// A body block is empty or page furniture.
pub open spec fn spec_should_skip_block(text: Seq<char>) -> bool {
    text.len() == 0 || exists|k: int|
        0 <= k < skip_markers().len() && contains(text, #[trigger] skip_markers()[k])
}

/// Whether a body block is empty or page furniture.
pub fn should_skip_block(text: &str) -> (res: bool)
    ensures
        res == spec_should_skip_block(text@),
{
    let t = chars_of(text);
    if t.len() == 0 {
        return true;
    }
    let markers: Vec<Vec<char>> = vec![
        lit("Empfehlungen"),
        lit("Artikel lesen"),
        lit("Zur PDF-Datei dieses Artikels"),
        lit("Social Science Open Access Repository"),
        lit("ISSN 2509-5196"),
        lit("Zum Seitenanfang"),
    ];
    assert(views(markers@) =~= skip_markers());
    let r = contains_any(&t, &markers);
    assert(r == exists|k: int| 0 <= k < skip_markers().len() && contains(text@, #[trigger] skip_markers()[k])) by {
        if r {
            let k = choose|k: int| 0 <= k < markers@.len() && contains(t@, #[trigger] markers@[k]@);
            assert(skip_markers()[k] == markers@[k]@);
        } else {
            assert forall|k: int| 0 <= k < skip_markers().len() implies !contains(text@, #[trigger] skip_markers()[k]) by {
                assert(skip_markers()[k] == markers@[k]@);
            }
        }
    }
    r
}

/// Phrases that mark a listing text as a byline or a type caption.
pub open spec fn teaser_rejects() -> Seq<Seq<char>> {
    seq!["rezension |"@, "interview |"@, "essay |"@]
}

/// A text under a listing headline can serve as the article's teaser: at
/// least 18 bytes, not the headline again, no "Artikel lesen" link, no `|`,
/// not a byline ("von ...") and no type caption.
pub open spec fn spec_is_good_teaser_candidate(text: Seq<char>, link_text: Seq<char>) -> bool {
    if byte_len(text) < 18 || spec_same_enough(text, link_text) || contains(text, "Artikel lesen"@)
        || text.contains('|') {
        false
    } else {
        let lower = lowercase(text);
        !starts_with(lower, "von "@) && forall|k: int|
            0 <= k < teaser_rejects().len() ==> !contains(lower, #[trigger] teaser_rejects()[k])
    }
}

/// Whether a text under a listing headline can serve as the article's teaser.
pub fn is_good_teaser_candidate(text: &str, link_text: &str) -> (res: bool)
    ensures
        res == spec_is_good_teaser_candidate(text@, link_text@),
{
    let t = chars_of(text);
    if str_byte_len(text) < 18 || same_enough(text, link_text) || crate::text::contains_vec(
        &t,
        &lit("Artikel lesen"),
    ) || contains_char(&t, '|') {
        return false;
    }
    let lower = lowercase_vec(&t);
    if starts_with_vec(&lower, &lit("von ")) {
        return false;
    }
    let rejects: Vec<Vec<char>> = vec![lit("rezension |"), lit("interview |"), lit("essay |")];
    assert(views(rejects@) =~= teaser_rejects());
    let r = contains_any(&lower, &rejects);
    assert(r == exists|k: int| 0 <= k < teaser_rejects().len() && contains(lower@, #[trigger] teaser_rejects()[k])) by {
        if r {
            let k = choose|k: int| 0 <= k < rejects@.len() && contains(lower@, #[trigger] rejects@[k]@);
            assert(teaser_rejects()[k] == rejects@[k]@);
        } else {
            assert forall|k: int| 0 <= k < teaser_rejects().len() implies !contains(lower@, #[trigger] teaser_rejects()[k]) by {
                assert(teaser_rejects()[k] == rejects@[k]@);
            }
        }
    }
    !r
}

/// The first `max` characters of `input`.
pub fn trim_chars(input: &str, max: usize) -> (res: String)
    ensures
        res@ == (if max <= input@.len() { input@.take(max as int) } else { input@ }),
{
    string_of(&take_chars(&chars_of(input), max))
}

// ───────────────────────────── text for LingQ ─────────────────────────────

/// A body block as uploaded: whitespace collapsed and a `## ` heading marker
/// removed.
pub open spec fn lingq_block(raw: Seq<char>) -> Seq<char> {
    let block = clean_ws(raw);
    if starts_with(block, "## "@) {
        trim(block.skip(3))
    } else {
        block
    }
}

/// A body block is kept for LingQ: not empty and not a repeat of the title
/// or the (non-empty) subtitle.
pub open spec fn lingq_keeps(raw: Seq<char>, title: Seq<char>, subtitle: Seq<char>) -> bool {
    &&& clean_ws(raw).len() > 0
    &&& !spec_same_enough(lingq_block(raw), title)
    &&& !(subtitle.len() > 0 && spec_same_enough(lingq_block(raw), subtitle))
}

/// The kept body blocks in order.
pub open spec fn lingq_blocks(raws: Seq<Seq<char>>, title: Seq<char>, subtitle: Seq<char>) -> Seq<
    Seq<char>,
>
    decreases raws.len(),
{
    if raws.len() == 0 {
        Seq::empty()
    } else {
        let prev = lingq_blocks(raws.drop_last(), title, subtitle);
        if lingq_keeps(raws.last(), title, subtitle) {
            prev.push(lingq_block(raws.last()))
        } else {
            prev
        }
    }
}

/// The body as uploaded: its blank-line separated blocks cleaned, repeats of
/// the title and subtitle dropped, later repeats of a block dropped, joined
/// by blank lines.
pub open spec fn spec_normalize_body_for_lingq(
    body: Seq<char>,
    title: Seq<char>,
    subtitle: Seq<char>,
) -> Seq<char> {
    join(dedupe_by_key(lingq_blocks(split(body, "\n\n"@), title, subtitle)), "\n\n"@)
}

/// The article body as plain text for LingQ.
pub fn normalize_body_for_lingq(body: &str, title: &str, subtitle: &str) -> (res: String)
    ensures
        res@ == spec_normalize_body_for_lingq(body@, title@, subtitle@),
{
    let sep = lit("\n\n");
    proof {
        reveal_strlit("\n\n");
    }
    let raws = split_vec(&chars_of(body), &sep);
    let t = chars_of(title);
    let st = chars_of(subtitle);
    let heading = lit("## ");
    let n: usize = raws.len();
    let mut blocks: Vec<Vec<char>> = Vec::new();
    let mut i: usize = 0;
    assert(views(raws@).take(0) =~= Seq::<Seq<char>>::empty());
    assert(views(blocks@) =~= Seq::<Seq<char>>::empty());
    while i < n
        invariant
            i <= n,
            n == raws@.len(),
            t@ == title@,
            st@ == subtitle@,
            heading@ == "## "@,
            views(blocks@) == lingq_blocks(views(raws@).take(i as int), title@, subtitle@),
        decreases n - i,
    {
        assert(views(raws@).take(i + 1).drop_last() =~= views(raws@).take(i as int));
        assert(views(raws@).take(i + 1).last() == raws@[i as int]@);
        let block = clean_ws_vec(&raws[i]);
        if block.len() > 0 {
            let normalized = if starts_with_vec(&block, &heading) {
                let mut rest: Vec<char> = Vec::new();
                let mut k: usize = 3;
                proof {
                    reveal_strlit("## ");
                }
                while k < block.len()
                    invariant
                        3 <= k <= block@.len(),
                        rest@ =~= block@.subrange(3, k as int),
                    decreases block@.len() - k,
                {
                    rest.push(block[k]);
                    k = k + 1;
                }
                assert(rest@ =~= block@.skip(3));
                trim_vec(&rest)
            } else {
                block
            };
            assert(normalized@ == lingq_block(raws@[i as int]@)) by {
                reveal_strlit("## ");
            }
            if !same_enough_vec(&normalized, &t) && !(st.len() > 0 && same_enough_vec(
                &normalized,
                &st,
            )) {
                let ghost old_blocks = blocks@;
                blocks.push(normalized);
                assert(views(blocks@) =~= views(old_blocks).push(normalized@));
            }
        }
        i = i + 1;
    }
    assert(views(raws@).take(n as int) =~= views(raws@));
    let deduped = dedupe_blocks(&blocks);
    string_of(&join_vec(&deduped, &sep))
}

/// The lines of the LingQ lesson text: title; the subtitle after a blank
/// line unless it is empty or repeats the title; the byline; the date; then
/// a blank line and the body.
pub open spec fn clean_text_lines(
    title: Seq<char>,
    subtitle: Seq<char>,
    author: Seq<char>,
    date: Seq<char>,
    body: Seq<char>,
) -> Seq<Seq<char>> {
    let sub = clean_ws(subtitle);
    let head = seq![title];
    let with_sub = if sub.len() > 0 && !spec_same_enough(sub, title) {
        head + seq![Seq::<char>::empty(), sub]
    } else {
        head
    };
    let with_author = if author.len() > 0 {
        with_sub.push("Von "@ + author)
    } else {
        with_sub
    };
    let with_date = if date.len() > 0 {
        with_author.push(date)
    } else {
        with_author
    };
    with_date + seq![Seq::<char>::empty(), spec_normalize_body_for_lingq(body, title, sub)]
}

/// The full lesson text of an article, one piece per line.
pub open spec fn spec_build_clean_text(
    title: Seq<char>,
    subtitle: Seq<char>,
    author: Seq<char>,
    date: Seq<char>,
    body: Seq<char>,
) -> Seq<char> {
    join(clean_text_lines(title, subtitle, author, date, body), "\n"@)
}

/// The full lesson text of an article.
pub fn build_clean_text(title: &str, subtitle: &str, author: &str, date: &str, body: &str) -> (res:
    String)
    ensures
        res@ == spec_build_clean_text(title@, subtitle@, author@, date@, body@),
{
    let sub = crate::text::clean_whitespace(subtitle);
    let normalized_body = normalize_body_for_lingq(body, title, sub.as_str());
    let mut pieces: Vec<Vec<char>> = Vec::new();
    pieces.push(chars_of(title));
    let sub_chars = chars_of(sub.as_str());
    if sub_chars.len() > 0 && !same_enough(sub.as_str(), title) {
        pieces.push(Vec::new());
        pieces.push(sub_chars);
    }
    let a = chars_of(author);
    if a.len() > 0 {
        let mut line = lit("Von ");
        append_chars(&mut line, &a);
        pieces.push(line);
    }
    let d = chars_of(date);
    if d.len() > 0 {
        pieces.push(d);
    }
    pieces.push(Vec::new());
    pieces.push(chars_of(normalized_body.as_str()));
    assert(views(pieces@) =~= clean_text_lines(title@, subtitle@, author@, date@, body@));
    string_of(&join_vec(&pieces, &lit("\n")))
}

/// A joined text begins with its first piece.
proof fn lemma_join_starts_with_first(parts: Seq<Seq<char>>, sep: Seq<char>)
    requires
        parts.len() > 0,
    ensures
        starts_with(join(parts, sep), parts[0]),
    decreases parts.len(),
{
    if parts.len() == 1 {
        assert(parts[0].take(parts[0].len() as int) =~= parts[0]);
    } else {
        lemma_join_starts_with_first(parts.drop_last(), sep);
        let j = join(parts.drop_last(), sep);
        assert((j + sep + parts.last()).take(parts[0].len() as int) =~= j.take(parts[0].len() as int));
    }
}

/// The lesson text of an article begins with its title and ends with a
/// blank line followed by the body as cleaned for LingQ, whatever the
/// subtitle, byline and date in between.
pub proof fn law_lesson_text_ends_with_body(
    title: Seq<char>,
    subtitle: Seq<char>,
    author: Seq<char>,
    date: Seq<char>,
    body: Seq<char>,
)
    ensures
        starts_with(spec_build_clean_text(title, subtitle, author, date, body), title),
        ends_with(
            spec_build_clean_text(title, subtitle, author, date, body),
            "\n\n"@ + spec_normalize_body_for_lingq(body, title, clean_ws(subtitle)),
        ),
{
    reveal_strlit("\n");
    reveal_strlit("\n\n");
    let lines = clean_text_lines(title, subtitle, author, date, body);
    let b = spec_normalize_body_for_lingq(body, title, clean_ws(subtitle));
    let n = lines.len() as int;
    assert(n >= 3);
    assert(lines[0] == title);
    lemma_join_starts_with_first(lines, "\n"@);
    assert(lines[n - 1] == b);
    assert(lines[n - 2] == Seq::<char>::empty());
    let p = lines.subrange(0, n - 2);
    assert(lines.drop_last() =~= p.push(Seq::<char>::empty()));
    assert(lines.drop_last().drop_last() =~= p);
    assert(lines.drop_last().last() == Seq::<char>::empty());
    let r = join(lines, "\n"@);
    assert(r == join(lines.drop_last(), "\n"@) + "\n"@ + b);
    assert(join(lines.drop_last(), "\n"@) == join(p, "\n"@) + "\n"@ + Seq::<char>::empty());
    let tail = "\n\n"@ + b;
    assert(r =~= join(p, "\n"@) + tail);
    assert(r.skip(r.len() - tail.len()) =~= tail);
}

/// Deduplication keeps only given blocks, and drops a block only when a
/// kept block has the same comparison key: every key of the input is the
/// key of some kept block.
pub proof fn law_dedupe_drops_only_repeats(blocks: Seq<Seq<char>>)
    ensures
        forall|k: int| 0 <= k < dedupe_by_key(blocks).len() ==> blocks.contains(#[trigger] dedupe_by_key(blocks)[k]),
        forall|i: int| 0 <= i < blocks.len() ==> key_taken(dedupe_by_key(blocks), spec_canonical_text(#[trigger] blocks[i])),
    decreases blocks.len(),
{
    if blocks.len() > 0 {
        let init = blocks.drop_last();
        law_dedupe_drops_only_repeats(init);
        let prev = dedupe_by_key(init);
        let all = dedupe_by_key(blocks);
        assert(forall|k: int| 0 <= k < prev.len() ==> all[k] == prev[k]);
        assert forall|k: int| 0 <= k < all.len() implies blocks.contains(#[trigger] all[k]) by {
            if k < prev.len() {
                let j = choose|j: int| 0 <= j < init.len() && init[j] == prev[k];
                assert(blocks[j] == init[j]);
            } else {
                assert(blocks[blocks.len() - 1] == blocks.last());
            }
        }
        assert forall|i: int| 0 <= i < blocks.len() implies key_taken(all, spec_canonical_text(#[trigger] blocks[i])) by {
            if i < init.len() {
                assert(init[i] == blocks[i]);
                assert(key_taken(prev, spec_canonical_text(init[i])));
                let j = choose|j: int| 0 <= j < prev.len() && spec_canonical_text(#[trigger] prev[j]) == spec_canonical_text(init[i]);
                assert(all[j] == prev[j]);
            } else if !key_taken(prev, spec_canonical_text(blocks.last())) {
                assert(all[all.len() - 1] == blocks.last());
            }
        }
    }
}

/// The lesson text names the article's byline (`Von <author>`) when there
/// is an author, its date when there is one, and its cleaned subtitle when
/// that is not empty and does not repeat the title.
pub proof fn law_lesson_text_has_header(
    title: Seq<char>,
    subtitle: Seq<char>,
    author: Seq<char>,
    date: Seq<char>,
    body: Seq<char>,
)
    ensures
        author.len() > 0 ==> contains(spec_build_clean_text(title, subtitle, author, date, body), "Von "@ + author),
        date.len() > 0 ==> contains(spec_build_clean_text(title, subtitle, author, date, body), date),
        clean_ws(subtitle).len() > 0 && !spec_same_enough(clean_ws(subtitle), title) ==> contains(
            spec_build_clean_text(title, subtitle, author, date, body),
            clean_ws(subtitle),
        ),
{
    let lines = clean_text_lines(title, subtitle, author, date, body);
    let sub = clean_ws(subtitle);
    let with_sub = if sub.len() > 0 && !spec_same_enough(sub, title) {
        seq![title] + seq![Seq::<char>::empty(), sub]
    } else {
        seq![title]
    };
    let with_author = if author.len() > 0 { with_sub.push("Von "@ + author) } else { with_sub };
    let with_date = if date.len() > 0 { with_author.push(date) } else { with_author };
    assert(lines == with_date + seq![Seq::<char>::empty(), spec_normalize_body_for_lingq(body, title, sub)]);
    if author.len() > 0 {
        let w = with_sub.len() as int;
        assert(lines[w] == "Von "@ + author);
        lemma_join_contains(lines, "\n"@, w);
    }
    if date.len() > 0 {
        let w = with_author.len() as int;
        assert(lines[w] == date);
        lemma_join_contains(lines, "\n"@, w);
    }
    if sub.len() > 0 && !spec_same_enough(sub, title) {
        assert(lines[2] == sub);
        lemma_join_contains(lines, "\n"@, 2);
    }
}

} // verus!
