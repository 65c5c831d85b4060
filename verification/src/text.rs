//! Character-level text utilities shared by the scraper, the library views
//! and the LingQ client: whitespace handling, trimming, searching and
//! decimal formatting, each stated over the `Seq<char>` view of a string.
use vstd::prelude::*;

verus! {

// ───────────────────────────── whitespace ─────────────────────────────

/// The Unicode `White_Space` property, which `char::is_whitespace`,
/// `str::trim` and `str::split_whitespace` go by.
pub open spec fn is_ws(c: char) -> bool {
    let u = c as u32;
    ||| (0x09u32 <= u && u <= 0x0Du32)
    ||| u == 0x20u32
    ||| u == 0x85u32
    ||| u == 0xA0u32
    ||| u == 0x1680u32
    ||| (0x2000u32 <= u && u <= 0x200Au32)
    ||| u == 0x2028u32
    ||| u == 0x2029u32
    ||| u == 0x202Fu32
    ||| u == 0x205Fu32
    ||| u == 0x3000u32
}

/// Whether `c` is Unicode whitespace.
pub fn is_whitespace_char(c: char) -> (b: bool)
    ensures
        b == is_ws(c),
{
    let u: u32 = c as u32;
    (0x09u32 <= u && u <= 0x0Du32) || u == 0x20u32 || u == 0x85u32 || u == 0xA0u32 || u
        == 0x1680u32 || (0x2000u32 <= u && u <= 0x200Au32) || u == 0x2028u32 || u == 0x2029u32
        || u == 0x202Fu32 || u == 0x205Fu32 || u == 0x3000u32
}

/// `s` without its leading whitespace.
pub open spec fn trim_start(s: Seq<char>) -> Seq<char>
    decreases s.len(),
{
    if s.len() > 0 && is_ws(s[0]) {
        trim_start(s.subrange(1, s.len() as int))
    } else {
        s
    }
}

/// `s` without its trailing whitespace.
pub open spec fn trim_end(s: Seq<char>) -> Seq<char>
    decreases s.len(),
{
    if s.len() > 0 && is_ws(s.last()) {
        trim_end(s.drop_last())
    } else {
        s
    }
}

/// `s` without leading and trailing whitespace (`str::trim`).
pub open spec fn trim(s: Seq<char>) -> Seq<char> {
    trim_end(trim_start(s))
}

/// One step of whitespace collapsing: the output so far and whether a
/// separator is owed before the next non-whitespace character.
pub open spec fn collapse_step(st: (Seq<char>, bool), c: char) -> (Seq<char>, bool) {
    if is_ws(c) {
        (st.0, st.0.len() > 0)
    } else if st.1 {
        (st.0.push(' ').push(c), false)
    } else {
        (st.0.push(c), false)
    }
}

/// Whitespace collapsing over a prefix, character by character.
pub open spec fn collapse_fold(s: Seq<char>) -> (Seq<char>, bool)
    decreases s.len(),
{
    if s.len() == 0 {
        (Seq::<char>::empty(), false)
    } else {
        collapse_step(collapse_fold(s.drop_last()), s.last())
    }
}

/// The whitespace-separated words of `s` joined by single spaces
/// (`s.split_whitespace().collect::<Vec<_>>().join(" ")`).
pub open spec fn clean_ws(s: Seq<char>) -> Seq<char> {
    collapse_fold(s).0
}

/// Prefix lemma for the collapsing fold.
pub proof fn lemma_collapse_prefix(s: Seq<char>, i: int)
    requires
        0 <= i < s.len(),
    ensures
        collapse_fold(s.take(i + 1)) == collapse_step(collapse_fold(s.take(i)), s[i]),
{
    assert(s.take(i + 1).drop_last() =~= s.take(i));
}

/// `s.trim()` as a character vector.
pub fn trim_vec(v: &Vec<char>) -> (res: Vec<char>)
    ensures
        res@ == trim(v@),
{
    let n: usize = v.len();
    let mut i: usize = 0;
    assert(v@.subrange(0, n as int) =~= v@);
    while i < n && is_whitespace_char(v[i])
        invariant
            i <= n,
            n == v@.len(),
            trim_start(v@) == trim_start(v@.subrange(i as int, n as int)),
        decreases n - i,
    {
        assert(v@.subrange(i as int, n as int).subrange(1, (n - i) as int) =~= v@.subrange(
            (i + 1) as int,
            n as int,
        ));
        i = i + 1;
    }
    let mut j: usize = n;
    while j > i && is_whitespace_char(v[j - 1])
        invariant
            i <= j <= n,
            n == v@.len(),
            trim_end(trim_start(v@)) == trim_end(v@.subrange(i as int, j as int)),
            trim_start(v@) == v@.subrange(i as int, n as int),
        decreases j,
    {
        assert(v@.subrange(i as int, j as int).drop_last() =~= v@.subrange(
            i as int,
            (j - 1) as int,
        ));
        j = j - 1;
    }
    let mut res: Vec<char> = Vec::new();
    let mut k: usize = i;
    while k < j
        invariant
            i <= k <= j <= n,
            n == v@.len(),
            res@ =~= v@.subrange(i as int, k as int),
        decreases j - k,
    {
        res.push(v[k]);
        k = k + 1;
    }
    res
}

/// `s.split_whitespace().collect::<Vec<_>>().join(" ")` on characters.
pub fn clean_ws_vec(v: &Vec<char>) -> (res: Vec<char>)
    ensures
        res@ == clean_ws(v@),
{
    let n: usize = v.len();
    let mut out: Vec<char> = Vec::new();
    let mut owed: bool = false;
    let mut i: usize = 0;
    assert(v@.take(0) =~= Seq::<char>::empty());
    while i < n
        invariant
            i <= n,
            n == v@.len(),
            (out@, owed) == collapse_fold(v@.take(i as int)),
        decreases n - i,
    {
        proof {
            lemma_collapse_prefix(v@, i as int);
        }
        let c: char = v[i];
        if is_whitespace_char(c) {
            owed = out.len() > 0;
        } else if owed {
            out.push(' ');
            out.push(c);
            owed = false;
        } else {
            out.push(c);
        }
        i = i + 1;
    }
    assert(v@.take(n as int) =~= v@);
    out
}

/// A `String` holding exactly the given characters.
#[verifier::external_body]
pub(crate) fn string_of(v: &Vec<char>) -> (res: String)
    ensures
        res@ == v@,
{
    v.iter().collect()
}

/// The characters of a string slice, in order.
pub fn chars_of(s: &str) -> (res: Vec<char>)
    ensures
        res@ == s@,
{
    let mut res: Vec<char> = Vec::new();
    for c in it: s.chars()
        invariant
            res@ == it.seq().take(it.index() as int),
            it.seq() == s@,
    {
        res.push(c);
    }
    res
}

/// `s.trim()` as an owned string.
pub fn trim_str(s: &str) -> (res: String)
    ensures
        res@ == trim(s@),
{
    let v = chars_of(s);
    string_of(&trim_vec(&v))
}

/// `s.split_whitespace().collect::<Vec<_>>().join(" ")`.
pub fn clean_whitespace(s: &str) -> (res: String)
    ensures
        res@ == clean_ws(s@),
{
    let v = chars_of(s);
    string_of(&clean_ws_vec(&v))
}

/// Whether two character vectors hold the same characters.
pub fn chars_eq(a: &Vec<char>, b: &Vec<char>) -> (res: bool)
    ensures
        res == (a@ == b@),
{
    if a.len() != b.len() {
        return false;
    }
    let n: usize = a.len();
    let mut i: usize = 0;
    while i < n
        invariant
            i <= n,
            n == a@.len(),
            n == b@.len(),
            forall|k: int| 0 <= k < i ==> a@[k] == b@[k],
        decreases n - i,
    {
        if a[i] != b[i] {
            return false;
        }
        i = i + 1;
    }
    assert(a@ =~= b@);
    true
}

/// Whether two string slices are equal.
pub fn str_eq(a: &str, b: &str) -> (res: bool)
    ensures
        res == (a@ == b@),
{
    chars_eq(&chars_of(a), &chars_of(b))
}


// ───────────────────────────── searching ─────────────────────────────

/// `s` begins with `p`.
pub open spec fn starts_with(s: Seq<char>, p: Seq<char>) -> bool {
    p.len() <= s.len() && s.take(p.len() as int) == p
}

/// `s` ends with `p`.
pub open spec fn ends_with(s: Seq<char>, p: Seq<char>) -> bool {
    p.len() <= s.len() && s.skip(s.len() - p.len()) == p
}

/// `t` occurs in `s` at position `i`.
pub open spec fn occurs_at(s: Seq<char>, t: Seq<char>, i: int) -> bool {
    0 <= i && i + t.len() <= s.len() && s.subrange(i, i + t.len()) == t
}

/// `t` occurs somewhere in `s` (`str::contains`).
pub open spec fn contains(s: Seq<char>, t: Seq<char>) -> bool {
    exists|i: int| occurs_at(s, t, i)
}

/// Whether `t` occurs in `s` at position `i`.
pub fn occurs_at_vec(s: &Vec<char>, t: &Vec<char>, i: usize) -> (res: bool)
    ensures
        res == occurs_at(s@, t@, i as int),
{
    if i > s.len() || t.len() > s.len() - i {
        return false;
    }
    let n: usize = t.len();
    let mut k: usize = 0;
    while k < n
        invariant
            k <= n,
            n == t@.len(),
            i + n <= s.len(),
            forall|j: int| 0 <= j < k ==> s@[i + j] == t@[j],
        decreases n - k,
    {
        if s[i + k] != t[k] {
            assert(s@.subrange(i as int, i + n)[k as int] != t@[k as int]);
            return false;
        }
        k = k + 1;
    }
    assert(s@.subrange(i as int, i + n) =~= t@);
    true
}

/// Whether `p` is a prefix of `s`.
pub fn starts_with_vec(s: &Vec<char>, p: &Vec<char>) -> (res: bool)
    ensures
        res == starts_with(s@, p@),
{
    let r = occurs_at_vec(s, p, 0);
    assert(s@.subrange(0, p@.len() as int) =~= s@.take(p@.len() as int));
    r
}

/// Whether `p` is a suffix of `s`.
pub fn ends_with_vec(s: &Vec<char>, p: &Vec<char>) -> (res: bool)
    ensures
        res == ends_with(s@, p@),
{
    if p.len() > s.len() {
        return false;
    }
    let r = occurs_at_vec(s, p, s.len() - p.len());
    assert(s@.subrange((s@.len() - p@.len()) as int, s@.len() as int) =~= s@.skip(
        s@.len() - p@.len(),
    ));
    r
}

/// Whether `t` occurs anywhere in `s`.
pub fn contains_vec(s: &Vec<char>, t: &Vec<char>) -> (res: bool)
    ensures
        res == contains(s@, t@),
{
    if t.len() > s.len() {
        assert forall|i: int| !occurs_at(s@, t@, i) by {}
        return false;
    }
    let last: usize = s.len() - t.len();
    let mut i: usize = 0;
    while i < last
        invariant
            i <= last,
            last + t@.len() == s@.len(),
            forall|j: int| 0 <= j < i ==> !occurs_at(s@, t@, j),
        decreases last - i,
    {
        if occurs_at_vec(s, t, i) {
            return true;
        }
        i = i + 1;
    }
    if occurs_at_vec(s, t, last) {
        return true;
    }
    assert forall|j: int| !occurs_at(s@, t@, j) by {}
    false
}

/// Whether the string slice `t` occurs in `s`.
pub fn str_contains(s: &str, t: &str) -> (res: bool)
    ensures
        res == contains(s@, t@),
{
    contains_vec(&chars_of(s), &chars_of(t))
}

/// Whether the character `c` occurs in `s`.
pub fn contains_char(s: &Vec<char>, c: char) -> (res: bool)
    ensures
        res == s@.contains(c),
{
    let n: usize = s.len();
    let mut i: usize = 0;
    while i < n
        invariant
            i <= n,
            n == s@.len(),
            forall|j: int| 0 <= j < i ==> s@[j] != c,
        decreases n - i,
    {
        if s[i] == c {
            return true;
        }
        i = i + 1;
    }
    false
}

// ───────────────────────────── case ─────────────────────────────

/// What `str::to_lowercase` returns for `s` (Unicode lower-casing).
pub uninterp spec fn lowercase(s: Seq<char>) -> Seq<char>;

/// `str::to_lowercase`: the Unicode lower-case form of `s`, as std defines it.
#[verifier::external_body]
pub(crate) fn to_lowercase(s: &str) -> (res: String)
    ensures
        res@ == lowercase(s@),
{
    s.to_lowercase()
}

/// The lower-case form of a character vector.
pub fn lowercase_vec(v: &Vec<char>) -> (res: Vec<char>)
    ensures
        res@ == lowercase(v@),
{
    let s = string_of(v);
    let l = to_lowercase(s.as_str());
    chars_of(l.as_str())
}

/// ASCII lower-casing of one character (`char::to_ascii_lowercase`).
pub open spec fn ascii_lower(c: char) -> char {
    if 'A' <= c && c <= 'Z' {
        ((c as u32) + 32) as char
    } else {
        c
    }
}

/// Equality up to ASCII case (`str::eq_ignore_ascii_case`).
pub open spec fn eq_ignore_ascii_case(a: Seq<char>, b: Seq<char>) -> bool {
    a.len() == b.len() && forall|i: int| 0 <= i < a.len() ==> ascii_lower(a[i]) == ascii_lower(b[i])
}

fn ascii_lower_char(c: char) -> (res: char)
    ensures
        res == ascii_lower(c),
{
    if 'A' <= c && c <= 'Z' {
        let u: u8 = (c as u8) + 32;
        u as char
    } else {
        c
    }
}

/// Whether two character vectors are equal up to ASCII case.
pub fn eq_ignore_ascii_case_vec(a: &Vec<char>, b: &Vec<char>) -> (res: bool)
    ensures
        res == eq_ignore_ascii_case(a@, b@),
{
    if a.len() != b.len() {
        return false;
    }
    let n: usize = a.len();
    let mut i: usize = 0;
    while i < n
        invariant
            i <= n,
            n == a@.len(),
            n == b@.len(),
            forall|k: int| 0 <= k < i ==> ascii_lower(a@[k]) == ascii_lower(b@[k]),
        decreases n - i,
    {
        if ascii_lower_char(a[i]) != ascii_lower_char(b[i]) {
            return false;
        }
        i = i + 1;
    }
    true
}


// ───────────────────────────── building ─────────────────────────────

/// The views of a sequence of character vectors.
pub open spec fn views(v: Seq<Vec<char>>) -> Seq<Seq<char>> {
    v.map_values(|x: Vec<char>| x@)
}

/// The views of a sequence of strings.
pub open spec fn str_views(v: Seq<String>) -> Seq<Seq<char>> {
    v.map_values(|x: String| x@)
}

/// Appends the characters of `other` to `out`.
pub fn append_chars(out: &mut Vec<char>, other: &Vec<char>)
    ensures
        final(out)@ == old(out)@ + other@,
{
    let n: usize = other.len();
    let mut i: usize = 0;
    while i < n
        invariant
            i <= n,
            n == other@.len(),
            out@ == old(out)@ + other@.take(i as int),
        decreases n - i,
    {
        out.push(other[i]);
        assert(other@.take(i + 1) =~= other@.take(i as int).push(other@[i as int]));
        i = i + 1;
    }
    assert(other@.take(n as int) =~= other@);
}

/// The pieces joined with `sep` between consecutive ones (`join`).
pub open spec fn join(parts: Seq<Seq<char>>, sep: Seq<char>) -> Seq<char>
    decreases parts.len(),
{
    if parts.len() == 0 {
        Seq::<char>::empty()
    } else if parts.len() == 1 {
        parts[0]
    } else {
        join(parts.drop_last(), sep) + sep + parts.last()
    }
}

/// What occurs in `b` occurs in `a + b`, and what occurs in `a` occurs in
/// `a + b`.
pub proof fn lemma_contains_in_concat(a: Seq<char>, b: Seq<char>, t: Seq<char>)
    ensures
        contains(b, t) ==> contains(a + b, t),
        contains(a, t) ==> contains(a + b, t),
{
    if contains(b, t) {
        let i = choose|i: int| occurs_at(b, t, i);
        assert((a + b).subrange(i + a.len(), i + a.len() + t.len()) =~= b.subrange(i, i + t.len()));
        assert(occurs_at(a + b, t, i + a.len()));
    }
    if contains(a, t) {
        let i = choose|i: int| occurs_at(a, t, i);
        assert((a + b).subrange(i, i + t.len()) =~= a.subrange(i, i + t.len()));
        assert(occurs_at(a + b, t, i));
    }
}

/// Every piece occurs in the pieces joined.
pub proof fn lemma_join_contains(parts: Seq<Seq<char>>, sep: Seq<char>, i: int)
    requires
        0 <= i < parts.len(),
    ensures
        contains(join(parts, sep), parts[i]),
    decreases parts.len(),
{
    let t = parts[i];
    assert(occurs_at(t, t, 0)) by {
        assert(t.subrange(0, t.len() as int) =~= t);
    }
    if parts.len() > 1 {
        let j = join(parts.drop_last(), sep);
        if i < parts.len() - 1 {
            lemma_join_contains(parts.drop_last(), sep, i);
            assert(parts.drop_last()[i] == t);
            lemma_contains_in_concat(j, sep, t);
            lemma_contains_in_concat(j + sep, parts.last(), t);
        } else {
            lemma_contains_in_concat(j + sep, parts.last(), t);
        }
    }
}

/// `parts.join(sep)`.
pub fn join_vec(parts: &Vec<Vec<char>>, sep: &Vec<char>) -> (res: Vec<char>)
    ensures
        res@ == join(views(parts@), sep@),
{
    let n: usize = parts.len();
    if n == 0 {
        return Vec::new();
    }
    let mut out: Vec<char> = parts[0].clone();
    assert(views(parts@).take(1).drop_last() =~= Seq::<Seq<char>>::empty());
    let mut i: usize = 1;
    while i < n
        invariant
            1 <= i <= n,
            n == parts@.len(),
            out@ == join(views(parts@).take(i as int), sep@),
        decreases n - i,
    {
        append_chars(&mut out, sep);
        append_chars(&mut out, &parts[i]);
        assert(views(parts@).take(i + 1).drop_last() =~= views(parts@).take(i as int));
        i = i + 1;
    }
    assert(views(parts@).take(n as int) =~= views(parts@));
    out
}

/// One step of splitting at `sep`: the closed pieces and the open one.
pub open spec fn split_step(st: (Seq<Seq<char>>, Seq<char>), c: char, sep: Seq<char>) -> (
    Seq<Seq<char>>,
    Seq<char>,
) {
    let cur = st.1.push(c);
    if ends_with(cur, sep) {
        (st.0.push(cur.take(cur.len() - sep.len())), Seq::<char>::empty())
    } else {
        (st.0, cur)
    }
}

/// Splitting a prefix at `sep`, character by character.
pub open spec fn split_fold(s: Seq<char>, sep: Seq<char>) -> (Seq<Seq<char>>, Seq<char>)
    decreases s.len(),
{
    if s.len() == 0 {
        (Seq::<Seq<char>>::empty(), Seq::<char>::empty())
    } else {
        split_step(split_fold(s.drop_last(), sep), s.last(), sep)
    }
}

/// The pieces of `s` between the non-overlapping occurrences of the non-empty
/// separator `sep`, found from the left (`str::split` with a string pattern).
pub open spec fn split(s: Seq<char>, sep: Seq<char>) -> Seq<Seq<char>> {
    split_fold(s, sep).0.push(split_fold(s, sep).1)
}

/// `s.split(sep)` on character vectors.
pub fn split_vec(s: &Vec<char>, sep: &Vec<char>) -> (res: Vec<Vec<char>>)
    ensures
        views(res@) == split(s@, sep@),
{
    let n: usize = s.len();
    let mut pieces: Vec<Vec<char>> = Vec::new();
    let mut cur: Vec<char> = Vec::new();
    let mut i: usize = 0;
    assert(s@.take(0) =~= Seq::<char>::empty());
    assert(views(pieces@) =~= Seq::<Seq<char>>::empty());
    while i < n
        invariant
            i <= n,
            n == s@.len(),
            (views(pieces@), cur@) == split_fold(s@.take(i as int), sep@),
        decreases n - i,
    {
        assert(s@.take(i + 1).drop_last() =~= s@.take(i as int));
        cur.push(s[i]);
        if ends_with_vec(&cur, sep) {
            let keep: usize = cur.len() - sep.len();
            let mut piece: Vec<char> = Vec::new();
            let mut k: usize = 0;
            while k < keep
                invariant
                    k <= keep <= cur@.len(),
                    piece@ =~= cur@.take(k as int),
                decreases keep - k,
            {
                piece.push(cur[k]);
                k = k + 1;
            }
            let ghost old_pieces = pieces@;
            pieces.push(piece);
            assert(views(pieces@) =~= views(old_pieces).push(piece@));
            cur = Vec::new();
        }
        i = i + 1;
    }
    assert(s@.take(n as int) =~= s@);
    let ghost old_pieces = pieces@;
    pieces.push(cur);
    assert(views(pieces@) =~= views(old_pieces).push(cur@));
    pieces
}

/// The first `n` characters of `s` (`s.chars().take(n)`).
pub fn take_chars(s: &Vec<char>, n: usize) -> (res: Vec<char>)
    ensures
        res@ == (if n <= s@.len() { s@.take(n as int) } else { s@ }),
{
    let m: usize = if n <= s.len() { n } else { s.len() };
    let mut out: Vec<char> = Vec::new();
    let mut i: usize = 0;
    while i < m
        invariant
            i <= m <= s@.len(),
            out@ =~= s@.take(i as int),
        decreases m - i,
    {
        out.push(s[i]);
        i = i + 1;
    }
    assert(s@.take(s@.len() as int) =~= s@);
    out
}

/// The three-dot ellipsis.
pub open spec fn ellipsis() -> Seq<char> {
    seq!['.', '.', '.']
}

/// `s` if it has at most `max` characters, else its first `max - 3`
/// characters (none when `max < 3`) followed by `...`.
pub open spec fn ellipsize(s: Seq<char>, max: nat) -> Seq<char> {
    if s.len() <= max {
        s
    } else {
        s.take(if max >= 3 { max - 3 } else { 0 }) + ellipsis()
    }
}

/// Shortens `s` to at most `max` characters with a trailing `...`.
pub fn ellipsize_vec(s: &Vec<char>, max: usize) -> (res: Vec<char>)
    ensures
        res@ == ellipsize(s@, max as nat),
{
    if s.len() <= max {
        return s.clone();
    }
    let keep: usize = if max >= 3 { max - 3 } else { 0 };
    let mut out = take_chars(s, keep);
    out.push('.');
    out.push('.');
    out.push('.');
    assert(out@ =~= s@.take(keep as int) + ellipsis());
    out
}

/// The characters of a string literal or other slice, as a vector.
pub fn lit(s: &str) -> (res: Vec<char>)
    ensures
        res@ == s@,
{
    chars_of(s)
}

// ───────────────────────────── numbers ─────────────────────────────

/// The ASCII digit for `d < 10`.
pub open spec fn digit_char(d: nat) -> char {
    (48 + d) as char
}

/// The decimal representation of `n`, without sign or leading zeros.
pub open spec fn decimal(n: nat) -> Seq<char>
    decreases n,
{
    if n < 10 {
        seq![digit_char(n)]
    } else {
        decimal(n / 10).push(digit_char(n % 10))
    }
}

/// `n.to_string()` as characters.
pub fn decimal_vec(n: usize) -> (res: Vec<char>)
    ensures
        res@ == decimal(n as nat),
    decreases n,
{
    let d: u8 = (n % 10) as u8;
    let c: char = (48u8 + d) as char;
    if n < 10 {
        let mut v: Vec<char> = Vec::new();
        v.push(c);
        assert(v@ =~= seq![digit_char(n as nat)]);
        v
    } else {
        let mut v = decimal_vec(n / 10);
        v.push(c);
        v
    }
}

/// `n.to_string()`.
pub fn usize_to_string(n: usize) -> (res: String)
    ensures
        res@ == decimal(n as nat),
{
    string_of(&decimal_vec(n))
}

/// `n.to_string()` for a `u64`, as characters.
pub fn decimal_u64(n: u64) -> (res: Vec<char>)
    ensures
        res@ == decimal(n as nat),
    decreases n,
{
    let d: u8 = (n % 10) as u8;
    let c: char = (48u8 + d) as char;
    if n < 10 {
        let mut v: Vec<char> = Vec::new();
        v.push(c);
        assert(v@ =~= seq![digit_char(n as nat)]);
        v
    } else {
        let mut v = decimal_u64(n / 10);
        v.push(c);
        v
    }
}

/// The decimal text of an `i64`, with a leading `-` when negative.
pub open spec fn spec_i64_text(n: i64) -> Seq<char> {
    if n < 0 {
        seq!['-'] + decimal((-n) as nat)
    } else {
        decimal(n as nat)
    }
}

/// `n.to_string()` for an `i64`, as characters.
pub fn i64_text(n: i64) -> (res: Vec<char>)
    ensures
        res@ == spec_i64_text(n),
{
    if n < 0 {
        let m: u64 = if n == -9223372036854775807i64 - 1 {
            9223372036854775808u64
        } else {
            (-n) as u64
        };
        let mut out: Vec<char> = Vec::new();
        out.push('-');
        append_chars(&mut out, &decimal_u64(m));
        out
    } else {
        decimal_u64(n as u64)
    }
}

/// Every character of `s` is an ASCII digit.
pub open spec fn all_ascii_digits(s: Seq<char>) -> bool {
    forall|i: int| 0 <= i < s.len() ==> '0' <= #[trigger] s[i] && s[i] <= '9'
}

/// The value of a string of ASCII digits.
pub open spec fn digits_value(s: Seq<char>) -> int
    decreases s.len(),
{
    if s.len() == 0 {
        0
    } else {
        digits_value(s.drop_last()) * 10 + (s.last() as int - 48)
    }
}

/// What `s.parse::<usize>()` yields: an optional `+` followed by at least
/// one ASCII digit, whose value fits in `usize`; `None` for anything else.
pub open spec fn parse_usize(s: Seq<char>) -> Option<usize> {
    let body = if s.len() > 0 && s[0] == '+' {
        s.skip(1)
    } else {
        s
    };
    if body.len() > 0 && all_ascii_digits(body) && digits_value(body) <= usize::MAX {
        Some(digits_value(body) as usize)
    } else {
        None
    }
}

proof fn lemma_digits_value_nonneg(s: Seq<char>)
    requires
        all_ascii_digits(s),
    ensures
        digits_value(s) >= 0,
    decreases s.len(),
{
    if s.len() > 0 {
        assert(all_ascii_digits(s.drop_last()));
        lemma_digits_value_nonneg(s.drop_last());
    }
}

proof fn lemma_digits_value_mono(s: Seq<char>, i: int)
    requires
        all_ascii_digits(s),
        0 <= i <= s.len(),
    ensures
        digits_value(s.take(i)) <= digits_value(s),
    decreases s.len() - i,
{
    if i < s.len() {
        lemma_digits_value_mono(s, i + 1);
        assert(s.take(i + 1).drop_last() =~= s.take(i));
        assert(all_ascii_digits(s.take(i)));
        lemma_digits_value_nonneg(s.take(i));
    } else {
        assert(s.take(i) =~= s);
    }
}

/// `s.parse::<usize>().ok()`.
pub fn parse_usize_vec(s: &Vec<char>) -> (res: Option<usize>)
    ensures
        res == parse_usize(s@),
{
    let n: usize = s.len();
    let start: usize = if n > 0 && s[0] == '+' { 1 } else { 0 };
    let ghost body = if s@.len() > 0 && s@[0] == '+' { s@.skip(1) } else { s@ };
    assert(body =~= s@.subrange(start as int, n as int));
    if start >= n {
        return None;
    }
    let mut value: usize = 0;
    let mut i: usize = start;
    while i < n
        invariant
            start <= i <= n,
            n == s@.len(),
            body == s@.subrange(start as int, n as int),
            body == (if s@.len() > 0 && s@[0] == '+' { s@.skip(1) } else { s@ }),
            all_ascii_digits(body.take(i - start)),
            value as int == digits_value(body.take(i - start)),
        decreases n - i,
    {
        let c: char = s[i];
        assert(body[i - start] == c);
        if !('0' <= c && c <= '9') {
            assert(!all_ascii_digits(body));
            assert(parse_usize(s@) is None);
            return None;
        }
        assert(body.take(i + 1 - start).drop_last() =~= body.take(i - start));
        assert(all_ascii_digits(body.take(i + 1 - start)));
        assert(body.take(i + 1 - start).last() == c);
        assert(digits_value(body.take(i + 1 - start)) == value * 10 + (c as int - 48));
        let d: usize = ((c as u32) - 48) as usize;
        match value.checked_mul(10) {
            Some(m) => match m.checked_add(d) {
                Some(v2) => {
                    value = v2;
                },
                None => {
                    proof {
                        if all_ascii_digits(body) {
                            lemma_digits_value_mono(body, i + 1 - start);
                        }
                    }
                    return None;
                },
            },
            None => {
                proof {
                    if all_ascii_digits(body) {
                        lemma_digits_value_mono(body, i + 1 - start);
                        assert(body.take(i + 1 - start).drop_last() =~= body.take(i - start));
                    }
                }
                return None;
            },
        }
        i = i + 1;
    }
    assert(body.take(n - start) =~= body);
    Some(value)
}

/// `s.parse::<usize>().ok()` on a string slice.
pub fn parse_usize_str(s: &str) -> (res: Option<usize>)
    ensures
        res == parse_usize(s@),
{
    parse_usize_vec(&chars_of(s))
}


// ───────────────────────────── rewriting ─────────────────────────────

/// `s` with every leading repetition of the non-empty `p` removed
/// (`str::trim_start_matches` with a string pattern).
pub open spec fn trim_start_matches(s: Seq<char>, p: Seq<char>) -> Seq<char>
    decreases s.len(),
{
    if p.len() > 0 && starts_with(s, p) {
        trim_start_matches(s.skip(p.len() as int), p)
    } else {
        s
    }
}

/// `s.trim_start_matches(p)` on character vectors.
pub fn trim_start_matches_vec(s: &Vec<char>, p: &Vec<char>) -> (res: Vec<char>)
    ensures
        res@ == trim_start_matches(s@, p@),
{
    let mut cur: Vec<char> = s.clone();
    if p.len() == 0 {
        return cur;
    }
    while starts_with_vec(&cur, p)
        invariant
            p@.len() > 0,
            trim_start_matches(s@, p@) == trim_start_matches(cur@, p@),
        decreases cur@.len(),
    {
        let n: usize = cur.len();
        let mut next: Vec<char> = Vec::new();
        let mut k: usize = p.len();
        while k < n
            invariant
                p@.len() <= k <= n,
                n == cur@.len(),
                next@ =~= cur@.subrange(p@.len() as int, k as int),
            decreases n - k,
        {
            next.push(cur[k]);
            k = k + 1;
        }
        assert(next@ =~= cur@.skip(p@.len() as int));
        cur = next;
    }
    cur
}

/// `s` with every trailing `c` removed (`str::trim_end_matches` with a char).
pub open spec fn trim_end_char(s: Seq<char>, c: char) -> Seq<char>
    decreases s.len(),
{
    if s.len() > 0 && s.last() == c {
        trim_end_char(s.drop_last(), c)
    } else {
        s
    }
}

/// `s` with every leading `c` removed (`str::trim_start_matches` with a char).
pub open spec fn trim_start_char(s: Seq<char>, c: char) -> Seq<char>
    decreases s.len(),
{
    if s.len() > 0 && s[0] == c {
        trim_start_char(s.skip(1), c)
    } else {
        s
    }
}

/// `s.trim_end_matches(c)`.
pub fn trim_end_char_vec(s: &Vec<char>, c: char) -> (res: Vec<char>)
    ensures
        res@ == trim_end_char(s@, c),
{
    let mut j: usize = s.len();
    assert(s@.take(j as int) =~= s@);
    while j > 0 && s[j - 1] == c
        invariant
            j <= s@.len(),
            trim_end_char(s@, c) == trim_end_char(s@.take(j as int), c),
        decreases j,
    {
        assert(s@.take(j as int).drop_last() =~= s@.take(j - 1));
        j = j - 1;
    }
    take_chars(s, j)
}

/// `s.trim_start_matches(c)`.
pub fn trim_start_char_vec(s: &Vec<char>, c: char) -> (res: Vec<char>)
    ensures
        res@ == trim_start_char(s@, c),
{
    let n: usize = s.len();
    let mut i: usize = 0;
    assert(s@.skip(0) =~= s@);
    while i < n && s[i] == c
        invariant
            i <= n,
            n == s@.len(),
            trim_start_char(s@, c) == trim_start_char(s@.skip(i as int), c),
        decreases n - i,
    {
        assert(s@.skip(i as int).skip(1) =~= s@.skip(i + 1));
        i = i + 1;
    }
    let mut out: Vec<char> = Vec::new();
    let mut k: usize = i;
    while k < n
        invariant
            i <= k <= n,
            n == s@.len(),
            out@ =~= s@.subrange(i as int, k as int),
        decreases n - k,
    {
        out.push(s[k]);
        k = k + 1;
    }
    out
}

/// `s` with each non-overlapping occurrence of the non-empty `from`, found
/// from the left, replaced by `to` (`str::replace`).
pub open spec fn replace(s: Seq<char>, from: Seq<char>, to: Seq<char>) -> Seq<char>
    decreases s.len(),
{
    if s.len() == 0 {
        s
    } else if from.len() > 0 && starts_with(s, from) {
        to + replace(s.skip(from.len() as int), from, to)
    } else {
        seq![s[0]] + replace(s.skip(1), from, to)
    }
}

/// `s.replace(from, to)` on character vectors, for a non-empty `from`.
pub fn replace_vec(s: &Vec<char>, from: &Vec<char>, to: &Vec<char>) -> (res: Vec<char>)
    requires
        from@.len() > 0,
    ensures
        res@ == replace(s@, from@, to@),
{
    let n: usize = s.len();
    let mut out: Vec<char> = Vec::new();
    let mut i: usize = 0;
    assert(s@.skip(0) =~= s@);
    while i < n
        invariant
            i <= n,
            n == s@.len(),
            from@.len() > 0,
            out@ + replace(s@.skip(i as int), from@, to@) == replace(s@, from@, to@),
        decreases n - i,
    {
        let ghost rest = s@.skip(i as int);
        if occurs_at_vec(s, from, i) {
            assert(rest.take(from@.len() as int) =~= s@.subrange(i as int, i + from@.len()));
            assert(rest.skip(from@.len() as int) =~= s@.skip(i + from@.len()));
            let ghost old_out = out@;
            append_chars(&mut out, to);
            assert(old_out + (to@ + replace(s@.skip(i + from@.len()), from@, to@)) =~= out@
                + replace(s@.skip(i + from@.len()), from@, to@));
            i = i + from.len();
        } else {
            proof {
                if starts_with(rest, from@) {
                    assert(rest.take(from@.len() as int) =~= s@.subrange(
                        i as int,
                        i + from@.len(),
                    ));
                }
            }
            assert(rest.skip(1) =~= s@.skip(i + 1));
            let ghost old_out = out@;
            out.push(s[i]);
            assert(old_out + (seq![rest[0]] + replace(s@.skip(i + 1), from@, to@)) =~= out@
                + replace(s@.skip(i + 1), from@, to@));
            i = i + 1;
        }
    }
    assert(s@.skip(n as int) =~= Seq::<char>::empty());
    assert(out@ + Seq::<char>::empty() =~= out@);
    out
}

/// `s` with every `from` character replaced by `to`.
pub open spec fn replace_char(s: Seq<char>, from: char, to: char) -> Seq<char> {
    s.map_values(|c: char| if c == from { to } else { c })
}

/// `s.replace(from, to)` for single characters.
pub fn replace_char_vec(s: &Vec<char>, from: char, to: char) -> (res: Vec<char>)
    ensures
        res@ == replace_char(s@, from, to),
{
    let n: usize = s.len();
    let mut out: Vec<char> = Vec::new();
    let mut i: usize = 0;
    while i < n
        invariant
            i <= n,
            n == s@.len(),
            out@ =~= replace_char(s@.take(i as int), from, to),
        decreases n - i,
    {
        let c: char = s[i];
        out.push(if c == from { to } else { c });
        assert(s@.take(i + 1) =~= s@.take(i as int).push(c));
        i = i + 1;
    }
    assert(s@.take(n as int) =~= s@);
    out
}

/// The UTF-8 length in bytes of `s` (`str::len`).
pub open spec fn byte_len(s: Seq<char>) -> usize {
    vstd::utf8::encode_utf8(s).len() as usize
}

/// `s.len()` for a string slice: its length in UTF-8 bytes.
pub fn str_byte_len(s: &str) -> (res: usize)
    ensures
        res == byte_len(s@),
{
    s.len()
}


// ───────────────────────────── lists of literals ─────────────────────────────

/// Whether `v` equals one of `options`.
pub fn equals_any(v: &Vec<char>, options: &Vec<Vec<char>>) -> (res: bool)
    ensures
        res == views(options@).contains(v@),
{
    let n: usize = options.len();
    let mut i: usize = 0;
    while i < n
        invariant
            i <= n,
            n == options@.len(),
            forall|k: int| 0 <= k < i ==> options@[k]@ != v@,
        decreases n - i,
    {
        if chars_eq(&options[i], v) {
            assert(views(options@)[i as int] == v@);
            return true;
        }
        i = i + 1;
    }
    assert forall|k: int| 0 <= k < views(options@).len() implies views(options@)[k] != v@ by {}
    false
}

/// The first position of `x` in `options`.
pub fn position_of_chars(options: &Vec<Vec<char>>, x: &Vec<char>) -> (res: Option<usize>)
    ensures
        match res {
            Some(i) => i < options@.len() && options@[i as int]@ == x@,
            None => forall|k: int| 0 <= k < options@.len() ==> options@[k]@ != x@,
        },
{
    let n: usize = options.len();
    let mut i: usize = 0;
    while i < n
        invariant
            i <= n,
            n == options@.len(),
            forall|k: int| 0 <= k < i ==> options@[k]@ != x@,
        decreases n - i,
    {
        if chars_eq(&options[i], x) {
            return Some(i);
        }
        i = i + 1;
    }
    None
}

/// Whether `v` begins with one of `options`.
pub fn starts_with_any(v: &Vec<char>, options: &Vec<Vec<char>>) -> (res: bool)
    ensures
        res == (exists|k: int| 0 <= k < options@.len() && starts_with(v@, #[trigger] options@[k]@)),
{
    let n: usize = options.len();
    let mut i: usize = 0;
    while i < n
        invariant
            i <= n,
            n == options@.len(),
            forall|k: int| 0 <= k < i ==> !starts_with(v@, #[trigger] options@[k]@),
        decreases n - i,
    {
        if starts_with_vec(v, &options[i]) {
            return true;
        }
        i = i + 1;
    }
    false
}

/// Whether one of `options` occurs in `v`.
pub fn contains_any(v: &Vec<char>, options: &Vec<Vec<char>>) -> (res: bool)
    ensures
        res == (exists|k: int| 0 <= k < options@.len() && contains(v@, #[trigger] options@[k]@)),
{
    let n: usize = options.len();
    let mut i: usize = 0;
    while i < n
        invariant
            i <= n,
            n == options@.len(),
            forall|k: int| 0 <= k < i ==> !contains(v@, #[trigger] options@[k]@),
        decreases n - i,
    {
        if contains_vec(v, &options[i]) {
            return true;
        }
        i = i + 1;
    }
    false
}


// ───────────────────────────── ordering ─────────────────────────────

/// Lexicographic order on characters (chars compare by code point), the order
/// `str::cmp` gives (UTF-8 byte order agrees with code point order).
pub open spec fn seq_lt(a: Seq<char>, b: Seq<char>) -> bool
    decreases a.len(),
{
    if a.len() == 0 {
        b.len() > 0
    } else if b.len() == 0 {
        false
    } else if a[0] != b[0] {
        a[0] < b[0]
    } else {
        seq_lt(a.drop_first(), b.drop_first())
    }
}

/// `seq_lt` is a strict total order: irreflexive, transitive and total.
pub proof fn lemma_seq_lt_order(a: Seq<char>, b: Seq<char>, c: Seq<char>)
    ensures
        !seq_lt(a, a),
        seq_lt(a, b) ==> !seq_lt(b, a),
        seq_lt(a, b) && seq_lt(b, c) ==> seq_lt(a, c),
        a != b ==> seq_lt(a, b) || seq_lt(b, a),
    decreases a.len(),
{
    if a.len() > 0 {
        lemma_seq_lt_order(a.drop_first(), b.drop_first(), c.drop_first());
        if b.len() > 0 && a[0] != b[0] {
            assert(a[0] < b[0] || b[0] < a[0]);
        }
        if b.len() > 0 && a[0] == b[0] && a != b {
            assert(a.drop_first() != b.drop_first()) by {
                if a.drop_first() == b.drop_first() {
                    assert(a =~= seq![a[0]] + a.drop_first());
                    assert(b =~= seq![b[0]] + b.drop_first());
                }
            }
        }
    } else {
        if b.len() == 0 {
            assert(a =~= b);
        }
    }
}

/// Skipping an equal prefix leaves the order unchanged.
pub proof fn lemma_seq_lt_skip(a: Seq<char>, b: Seq<char>, i: int)
    requires
        0 <= i <= a.len(),
        i <= b.len(),
        a.take(i) == b.take(i),
    ensures
        seq_lt(a, b) == seq_lt(a.skip(i), b.skip(i)),
    decreases i,
{
    if i > 0 {
        assert(a[0] == a.take(i)[0]);
        assert(b[0] == b.take(i)[0]);
        assert(a.drop_first().take(i - 1) =~= a.take(i).drop_first());
        assert(b.drop_first().take(i - 1) =~= b.take(i).drop_first());
        lemma_seq_lt_skip(a.drop_first(), b.drop_first(), i - 1);
        assert(a.drop_first().skip(i - 1) =~= a.skip(i));
        assert(b.drop_first().skip(i - 1) =~= b.skip(i));
    } else {
        assert(a.skip(0) =~= a);
        assert(b.skip(0) =~= b);
    }
}

/// Three-way comparison of character vectors in `seq_lt` order:
/// `-1` when `a` comes first, `0` when they are equal, `1` otherwise.
pub fn compare_chars(a: &Vec<char>, b: &Vec<char>) -> (res: i8)
    ensures
        res == -1 || res == 0 || res == 1,
        (res == -1) == seq_lt(a@, b@),
        (res == 0) == (a@ == b@),
        (res == 1) == seq_lt(b@, a@),
{
    let n: usize = if a.len() < b.len() { a.len() } else { b.len() };
    let mut i: usize = 0;
    while i < n && a[i] == b[i]
        invariant
            i <= n,
            n <= a@.len(),
            n <= b@.len(),
            n == a@.len() || n == b@.len(),
            a@.take(i as int) =~= b@.take(i as int),
        decreases n - i,
    {
        assert(a@.take(i + 1) =~= a@.take(i as int).push(a@[i as int]));
        assert(b@.take(i + 1) =~= b@.take(i as int).push(b@[i as int]));
        i = i + 1;
    }
    proof {
        lemma_seq_lt_skip(a@, b@, i as int);
        lemma_seq_lt_skip(b@, a@, i as int);
        lemma_seq_lt_order(a@, b@, a@);
    }
    if i < n {
        assert(a@.skip(i as int)[0] == a@[i as int]);
        assert(b@.skip(i as int)[0] == b@[i as int]);
        if a[i] < b[i] {
            -1
        } else {
            1
        }
    } else if a.len() == b.len() {
        assert(a@ =~= a@.take(i as int));
        assert(b@ =~= b@.take(i as int));
        0
    } else if a.len() < b.len() {
        assert(a@.skip(i as int).len() == 0);
        -1
    } else {
        assert(b@.skip(i as int).len() == 0);
        1
    }
}

} // verus!
