//! Article dates: the listing and article pages write them as `14.03.2024`
//! or `2024-03-14` (sometimes with a time after), and the library keeps them
//! as `2024-03-14`.
use vstd::prelude::*;
use crate::text::{chars_of, string_of, trim, trim_vec};

verus! {

/// What `chrono::NaiveDate::parse_from_str(text, format)` followed by
/// `format("%Y-%m-%d")` gives: the date in ISO form, or `None` when `text`
/// is not a date in `format`.
pub uninterp spec fn iso_date_of(text: Seq<char>, format: Seq<char>) -> Option<Seq<char>>;

/// Reads `text` as a date in `format` with chrono and writes it in ISO form.
#[verifier::external_body]
fn reformat_date(text: &str, format: &str) -> (res: Option<String>)
    ensures
        match res {
            Some(d) => iso_date_of(text@, format@) == Some(d@),
            None => iso_date_of(text@, format@) is None,
        },
{
    match chrono::NaiveDate::parse_from_str(text, format) {
        Ok(date) => Some(date.format("%Y-%m-%d").to_string()),
        Err(_) => None,
    }
}

/// The number of UTF-8 bytes of `c`.
pub open spec fn utf8_width(c: char) -> int {
    if (c as u32) < 0x80 {
        1
    } else if (c as u32) < 0x800 {
        2
    } else if (c as u32) < 0x10000 {
        3
    } else {
        4
    }
}

/// How many leading characters of `s` take exactly `n` UTF-8 bytes, if some
/// do (`str::get(..n)` is `Some` exactly then).
pub open spec fn chars_in_bytes(s: Seq<char>, n: int) -> Option<int>
    decreases s.len(),
{
    if n == 0 {
        Some(0)
    } else if n < 0 || s.len() == 0 {
        None
    } else {
        match chars_in_bytes(s.drop_first(), n - utf8_width(s[0])) {
            Some(k) => Some(k + 1),
            None => None,
        }
    }
}

/// The date of an article in ISO form: the trimmed text read as
/// `%d.%m.%Y`, else as `%Y-%m-%d`, else its first ten bytes as `%Y-%m-%d`;
/// `None` for blank text or none of these.
pub open spec fn spec_normalize_article_date(value: Seq<char>) -> Option<Seq<char>> {
    let t = trim(value);
    if t.len() == 0 {
        None
    } else {
        match iso_date_of(t, "%d.%m.%Y"@) {
            Some(d) => Some(d),
            None => match iso_date_of(t, "%Y-%m-%d"@) {
                Some(d) => Some(d),
                None => match chars_in_bytes(t, 10) {
                    Some(k) => iso_date_of(t.take(k), "%Y-%m-%d"@),
                    None => None,
                },
            },
        }
    }
}

fn utf8_width_of(c: char) -> (res: usize)
    ensures
        res == utf8_width(c),
{
    let u: u32 = c as u32;
    if u < 0x80 {
        1
    } else if u < 0x800 {
        2
    } else if u < 0x10000 {
        3
    } else {
        4
    }
}

/// The leading characters of `s` that take exactly `n` bytes.
pub fn prefix_of_bytes(s: &Vec<char>, n: usize) -> (res: Option<Vec<char>>)
    ensures
        match res {
            Some(p) => chars_in_bytes(s@, n as int) matches Some(k) && p@ == s@.take(k),
            None => chars_in_bytes(s@, n as int) is None,
        },
{
    let mut used: usize = 0;
    let mut i: usize = 0;
    assert(s@.skip(0) =~= s@);
    while i < s.len() && used < n
        invariant
            i <= s@.len(),
            used <= n,
            chars_in_bytes(s@, n as int) == (match chars_in_bytes(s@.skip(i as int), n - used) {
                Some(k) => Some(k + i),
                None => None::<int>,
            }),
        decreases s@.len() - i,
    {
        let w = utf8_width_of(s[i]);
        assert(s@.skip(i as int).drop_first() =~= s@.skip(i + 1));
        assert(s@.skip(i as int)[0] == s@[i as int]);
        if w > n - used {
            assert(chars_in_bytes(s@.skip(i + 1), n - used - w) is None) by {
                lemma_chars_in_bytes_negative(s@.skip(i + 1), n - used - w);
            }
            return None;
        }
        used = used + w;
        i = i + 1;
    }
    if used == n {
        let mut out: Vec<char> = Vec::new();
        let mut j: usize = 0;
        while j < i
            invariant
                j <= i <= s@.len(),
                out@ =~= s@.take(j as int),
            decreases i - j,
        {
            out.push(s[j]);
            j = j + 1;
        }
        Some(out)
    } else {
        assert(s@.skip(i as int).len() == 0);
        None
    }
}

proof fn lemma_chars_in_bytes_negative(s: Seq<char>, n: int)
    requires
        n < 0,
    ensures
        chars_in_bytes(s, n) is None,
{
}

/// The date of an article in ISO form, if its text reads as one.
pub fn normalize_article_date(value: &str) -> (res: Option<String>)
    ensures
        match res {
            Some(d) => spec_normalize_article_date(value@) == Some(d@),
            None => spec_normalize_article_date(value@) is None,
        },
{
    let t = trim_vec(&chars_of(value));
    if t.len() == 0 {
        return None;
    }
    let text = string_of(&t);
    if let Some(d) = reformat_date(text.as_str(), "%d.%m.%Y") {
        return Some(d);
    }
    if let Some(d) = reformat_date(text.as_str(), "%Y-%m-%d") {
        return Some(d);
    }
    match prefix_of_bytes(&t, 10) {
        Some(p) => {
            let prefix = string_of(&p);
            reformat_date(prefix.as_str(), "%Y-%m-%d")
        },
        None => None,
    }
}

} // verus!
