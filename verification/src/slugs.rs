//! Slugs: the URL names that articles, tags and categories get from their
//! titles and names, made by the `slug` crate.
use vstd::prelude::*;

verus! {

/// What `slug::slugify` returns for a text.
pub uninterp spec fn slugify_result(text: Seq<char>) -> Seq<char>;

/// A slug char: a lower-case ASCII letter, an ASCII digit or a dash.
pub open spec fn is_slug_char(c: char) -> bool {
    ('a' <= c <= 'z') || ('0' <= c <= '9') || c == '-'
}

/// The shape that the `slug` crate documents for every slug: only slug
/// chars, never two dashes in a row, no dash at either end.
pub open spec fn is_slug(s: Seq<char>) -> bool {
    &&& forall|i: int| 0 <= i < s.len() ==> is_slug_char(#[trigger] s[i])
    &&& forall|i: int| 0 <= i < s.len() - 1 ==> !(#[trigger] s[i] == '-' && s[i + 1] == '-')
    &&& s.len() > 0 ==> s[0] != '-' && s[s.len() - 1] != '-'
}

pub open spec fn is_ascii_text(s: Seq<char>) -> bool {
    forall|i: int| 0 <= i < s.len() ==> (#[trigger] s[i] as u32) < 128
}

/// One step of the slug scan over ASCII text: letters and digits are kept
/// (upper case lowered), every other run of chars becomes a single dash.
pub open spec fn slug_scan(s: Seq<char>, acc: Seq<char>, prev_dash: bool) -> Seq<char>
    decreases s.len(),
{
    if s.len() == 0 {
        acc
    } else {
        let c = s[0];
        if ('a' <= c <= 'z') || ('0' <= c <= '9') {
            slug_scan(s.drop_first(), acc.push(c), false)
        } else if 'A' <= c <= 'Z' {
            slug_scan(s.drop_first(), acc.push(((c as u32) + 32) as char), false)
        } else if !prev_dash {
            slug_scan(s.drop_first(), acc.push('-'), true)
        } else {
            slug_scan(s.drop_first(), acc, true)
        }
    }
}

/// The slug of an ASCII text: the scan, with a trailing dash dropped.
pub open spec fn ascii_slug(s: Seq<char>) -> Seq<char> {
    let r = slug_scan(s, Seq::empty(), true);
    if r.len() > 0 && r.last() == '-' {
        r.drop_last()
    } else {
        r
    }
}

/// Calls `slug::slugify`. Its result is named `slugify_result`; the crate's
/// documentation promises the slug shape (`is_slug`), and its source shows
/// that text made of ASCII chars only is turned into `ascii_slug` of it.
/// What non-ASCII chars become (the `deunicode` tables) is left unsaid.
#[verifier::external_body]
pub fn slugify(text: &str) -> (r: String)
    ensures
        r@ == slugify_result(text@),
        is_slug(r@),
        is_ascii_text(text@) ==> r@ == ascii_slug(text@),
{
    slug::slugify(text)
}

} // verus!
