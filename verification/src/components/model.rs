//! Small view-model decisions shared by the page sections: the hero
//! availability indicator, responsive image sources, link classification.
use vstd::prelude::*;

use crate::text::{
    before_char, chars_equal, chars_of, decimal, find, find_char, find_char_exec, find_char_from,
    find_exec, join, lemma_find_from_bounds, occurs_at, push_all, push_decimal, push_str,
    slice_chars, starts_with, starts_with_str, string_of,
};

verus! {

/// The local hour, in `0..24`, for a UTC hour shifted by a timezone offset.
pub open spec fn local_hour(utc_hour: int, offset: int) -> int {
    (utc_hour + offset) % 24
}

/// Whether the local hour falls in the working window `start..end`
/// (start included, end excluded).
pub open spec fn working_hour(utc_hour: int, offset: int, start: int, end: int) -> bool {
    start <= local_hour(utc_hour, offset) && local_hour(utc_hour, offset) < end
}

/// Whether `utc_hour` shifted by `offset` hours lies inside the configured
/// working window.
pub fn is_working_hour(utc_hour: i32, offset: i8, start: u8, end: u8) -> (r: bool)
    requires
        i32::MIN <= utc_hour + offset <= i32::MAX,
    ensures
        r == working_hour(utc_hour as int, offset as int, start as int, end as int),
{
    let shifted: i64 = utc_hour as i64 + offset as i64;
    let lifted: i64 = shifted + 2_400_000_000;
    let local: u64 = (lifted as u64) % 24;
    proof {
        vstd::arithmetic::div_mod::lemma_mod_multiples_vanish(
            100_000_000,
            shifted as int,
            24,
        );
        assert(lifted as int == 24 * 100_000_000 + shifted as int);
    }
    local >= start as u64 && local < end as u64
}

/// The working-hour indicator repeats every 24 hours, and shifting by the
/// offset is the same as reading the shifted hour in UTC.
pub proof fn law_working_hours_repeat_daily(utc_hour: int, offset: int, start: int, end: int)
    ensures
        working_hour(utc_hour + 24, offset, start, end) == working_hour(utc_hour, offset, start, end),
        working_hour(utc_hour, offset, start, end) == working_hour(utc_hour + offset, 0, start, end),
        0 <= local_hour(utc_hour, offset) < 24,
{
    vstd::arithmetic::div_mod::lemma_mod_add_multiples_vanish(utc_hour + offset, 24);
    assert(utc_hour + 24 + offset == 24 + (utc_hour + offset));
    vstd::arithmetic::div_mod::lemma_mod_bound(utc_hour + offset, 24);
}

/// The prefix that marks an image served by Unsplash.
pub open spec fn unsplash_prefix() -> Seq<char> {
    "https://images.unsplash.com/"@
}

/// An Unsplash image source with responsive query parameters appended;
/// any other source unchanged.
pub open spec fn unsplash_source(source: Seq<char>, width: nat) -> Seq<char> {
    if !starts_with(source, unsplash_prefix()) {
        source
    } else {
        let separator = if find_char(source, '?') >= 0 { '&' } else { '?' };
        source.push(separator) + "auto=format&fit=crop&q=75&w="@ + decimal(width)
    }
}

/// Appends the responsive form of `source` for `width` to `out`.
fn push_unsplash_source(out: &mut Vec<char>, source: &[char], width: u16)
    ensures
        final(out)@ == old(out)@ + unsplash_source(source@, width as nat),
{
    if !starts_with_str(source, "https://images.unsplash.com/") {
        push_all(out, source);
        return;
    }
    push_all(out, source);
    if find_char_exec(source, '?').is_some() {
        out.push('&');
    } else {
        out.push('?');
    }
    push_str(out, "auto=format&fit=crop&q=75&w=");
    push_decimal(out, width as u64);
    assert(final(out)@ =~= old(out)@ + unsplash_source(source@, width as nat)) by {
        let sep = if find_char(source@, '?') >= 0 { '&' } else { '?' };
        assert(unsplash_source(source@, width as nat) =~= source@.push(sep)
            + "auto=format&fit=crop&q=75&w="@ + decimal(width as nat));
    }
}

/// Requests an Unsplash image at `width` pixels; other sources are returned
/// unchanged.
pub fn unsplash_with_width(source: &str, width: u16) -> (r: String)
    ensures
        r@ == unsplash_source(source@, width as nat),
{
    let cs = chars_of(source);
    let mut out: Vec<char> = Vec::new();
    push_unsplash_source(&mut out, cs.as_slice(), width);
    assert(out@ =~= unsplash_source(source@, width as nat));
    string_of(out.as_slice())
}

/// A responsive source only ever adds parameters: it begins with the
/// given source.
pub proof fn law_unsplash_extends_source(source: Seq<char>, width: nat)
    ensures
        starts_with(unsplash_source(source, width), source),
{
    let r = unsplash_source(source, width);
    assert(r.subrange(0, source.len() as int) =~= source);
}

/// One `srcset` candidate: the source at `width` followed by its width
/// descriptor.
pub open spec fn srcset_entry(source: Seq<char>, width: nat) -> Seq<char> {
    unsplash_source(source, width) + " "@ + decimal(width) + "w"@
}

/// The `srcset` candidates for `widths`, in order.
pub open spec fn srcset_entries(source: Seq<char>, widths: Seq<u16>) -> Seq<Seq<char>> {
    Seq::new(widths.len(), |i: int| srcset_entry(source, widths[i] as nat))
}

pub proof fn lemma_join_push(parts: Seq<Seq<char>>, sep: Seq<char>, next: Seq<char>)
    ensures
        join(parts.push(next), sep) == if parts.len() == 0 {
            next
        } else {
            join(parts, sep) + sep + next
        },
{
    assert(parts.push(next).drop_last() =~= parts);
}

/// An image `srcset` listing `source` at each of `widths`, separated by
/// `", "`.
pub fn image_srcset(source: &str, widths: &[u16]) -> (r: String)
    ensures
        r@ == join(srcset_entries(source@, widths@), ", "@),
{
    let cs = chars_of(source);
    let mut out: Vec<char> = Vec::new();
    let mut i: usize = 0;
    while i < widths.len()
        invariant
            i <= widths.len(),
            cs@ == source@,
            out@ == join(srcset_entries(source@, widths@).take(i as int), ", "@),
        decreases widths.len() - i,
    {
        let ghost before = out@;
        if i > 0 {
            push_str(&mut out, ", ");
        }
        push_unsplash_source(&mut out, cs.as_slice(), widths[i]);
        push_str(&mut out, " ");
        push_decimal(&mut out, widths[i] as u64);
        push_str(&mut out, "w");
        proof {
            let entries = srcset_entries(source@, widths@);
            assert(entries.take(i + 1) =~= entries.take(i as int).push(entries[i as int]));
            lemma_join_push(entries.take(i as int), ", "@, entries[i as int]);
            if i > 0 {
                assert(out@ =~= before + ", "@ + entries[i as int]);
            } else {
                assert(out@ =~= entries[i as int]);
            }
        }
        i = i + 1;
    }
    assert(srcset_entries(source@, widths@).take(widths.len() as int) =~= srcset_entries(
        source@,
        widths@,
    ));
    string_of(out.as_slice())
}

/// The `scheme://host` origin of an absolute HTTP(S) URL, or `None`.
///
/// The scheme is the text before the first `://`; the host is the text after
/// it up to the first `/`, then up to the first `?`.
pub open spec fn origin_of(source: Seq<char>) -> Option<Seq<char>> {
    let k = find(source, "://"@);
    if k < 0 {
        None
    } else {
        let scheme = source.take(k);
        let host = before_char(before_char(source.skip(k + 3), '/'), '?');
        if !(scheme == "http"@ || scheme == "https"@) || host.len() == 0 {
            None
        } else {
            Some(scheme + "://"@ + host)
        }
    }
}

/// The text before the first `c`, as computed from the first index of `c`.
fn before_char_exec(s: &[char], c: char) -> (r: Vec<char>)
    ensures
        r@ == before_char(s@, c),
{
    match find_char_exec(s, c) {
        Some(i) => {
            proof {
                lemma_find_char_bounds(s@, c, 0);
            }
            slice_chars(s, 0, i)
        },
        None => {
            let r = slice_chars(s, 0, s.len());
            assert(s@.subrange(0, s@.len() as int) =~= s@);
            r
        },
    }
}

pub proof fn lemma_find_char_bounds(s: Seq<char>, c: char, from: int)
    requires
        0 <= from,
    ensures
        find_char_from(s, c, from) == -1 || (from <= find_char_from(s, c, from) < s.len()
            && s[find_char_from(s, c, from)] == c),
        find_char_from(s, c, from) == -1 ==> forall|j: int| from <= j < s.len() ==> s[j] != c,
        find_char_from(s, c, from) != -1 ==> forall|j: int|
            from <= j < find_char_from(s, c, from) ==> s[j] != c,
    decreases s.len() - from,
{
    if from < s.len() && s[from] != c {
        lemma_find_char_bounds(s, c, from + 1);
    }
}

/// The origin (`scheme://host`) of an absolute `http`/`https` URL; `None`
/// for anything else or an empty host.
pub fn url_origin(source: &str) -> (r: Option<String>)
    ensures
        r matches Some(o) ==> origin_of(source@) == Some(o@),
        r is None ==> origin_of(source@) is None,
{
    let cs = chars_of(source);
    let sep = chars_of("://");
    let k = match find_exec(cs.as_slice(), sep.as_slice()) {
        Some(k) => k,
        None => return None,
    };
    proof {
        reveal_strlit("://");
        lemma_find_from_bounds(cs@, sep@, 0);
        assert(sep@.len() == 3);
        assert(occurs_at(cs@, sep@, k as int));
        assert(k + 3 <= cs@.len());
        assert(cs@.len() == cs.len());
    }
    let scheme = slice_chars(cs.as_slice(), 0, k);
    let rest = slice_chars(cs.as_slice(), k + 3, cs.len());
    assert(scheme@ =~= source@.take(k as int));
    assert(rest@ =~= source@.skip(k + 3));
    let http = chars_of("http");
    let https = chars_of("https");
    if !(chars_equal(scheme.as_slice(), http.as_slice()) || chars_equal(
        scheme.as_slice(),
        https.as_slice(),
    )) {
        return None;
    }
    let path_head = before_char_exec(rest.as_slice(), '/');
    let host = before_char_exec(path_head.as_slice(), '?');
    if host.len() == 0 {
        return None;
    }
    let mut out = scheme;
    push_str(&mut out, "://");
    push_all(&mut out, host.as_slice());
    Some(string_of(out.as_slice()))
}

pub proof fn lemma_before_char(s: Seq<char>, c: char)
    ensures
        forall|j: int| 0 <= j < before_char(s, c).len() ==> before_char(s, c)[j] != c,
        before_char(s, c).len() <= s.len(),
        before_char(s, c) == s.take(before_char(s, c).len() as int),
        (forall|j: int| 0 <= j < s.len() ==> s[j] != c) ==> before_char(s, c) == s,
{
    lemma_find_char_bounds(s, c, 0);
    if find_char(s, c) < 0 {
        assert(s.take(s.len() as int) =~= s);
    } else {
        assert(s[find_char(s, c)] == c);
    }
}

/// An origin is its own origin: taking the origin twice changes nothing.
pub proof fn law_origin_is_idempotent(source: Seq<char>)
    ensures
        origin_of(source) matches Some(o) ==> origin_of(o) == Some(o),
{
    if let Some(o) = origin_of(source) {
        reveal_strlit("://");
        reveal_strlit("http");
        reveal_strlit("https");
        let k = find(source, "://"@);
        let scheme = source.take(k);
        let rem = source.skip(k + 3);
        let b = before_char(rem, '/');
        let host = before_char(b, '?');
        lemma_before_char(rem, '/');
        lemma_before_char(b, '?');
        assert forall|j: int| 0 <= j < host.len() implies host[j] != '/' by {
            assert(host[j] == b[j]);
        }
        lemma_before_char(host, '/');
        lemma_before_char(host, '?');
        let p = "://"@;
        let n = scheme.len() as int;
        assert(o == scheme + p + host);
        assert(o.subrange(n, n + 3) =~= p);
        assert(occurs_at(o, p, n));
        lemma_find_from_bounds(o, p, 0);
        let f = find(o, p);
        assert forall|j: int| 0 <= j < n implies !occurs_at(o, p, j) by {
            assert(o[j] == scheme[j]);
            if occurs_at(o, p, j) {
                assert(o.subrange(j, j + 3)[0] == p[0]);
            }
        }
        assert(f == n);
        assert(o.take(f) =~= scheme);
        assert(o.skip(f + 3) =~= host);
    }
}

/// Whether `url` is an absolute `https://` or `http://` URL.
pub open spec fn external_link(url: Seq<char>) -> bool {
    starts_with(url, "https://"@) || starts_with(url, "http://"@)
}

/// Whether the link leaves the site (an absolute HTTP(S) URL).
pub fn is_external_link(url: &str) -> (r: bool)
    ensures
        r == external_link(url@),
{
    let cs = chars_of(url);
    starts_with_str(cs.as_slice(), "https://") || starts_with_str(cs.as_slice(), "http://")
}

/// How a publication action (PDF, code) is rendered.
#[derive(Debug, Clone, Copy, PartialEq, Eq, Structural)]
pub enum PublicationActionKind {
    /// No URL: rendered as a disabled button.
    Disabled,
    /// A path on this site: opened in the current context.
    Internal,
    /// An absolute HTTP(S) URL: opened in a new tab.
    External,
}

/// The action kind for a URL: empty is disabled, absolute HTTP(S) is
/// external, anything else internal.
pub open spec fn action_kind(url: Seq<char>) -> PublicationActionKind {
    if url.len() == 0 {
        PublicationActionKind::Disabled
    } else if external_link(url) {
        PublicationActionKind::External
    } else {
        PublicationActionKind::Internal
    }
}

/// Classifies a publication action URL.
pub fn publication_action_kind(url: &str) -> (r: PublicationActionKind)
    ensures
        r == action_kind(url@),
{
    if url.is_empty() {
        PublicationActionKind::Disabled
    } else if is_external_link(url) {
        PublicationActionKind::External
    } else {
        PublicationActionKind::Internal
    }
}

} // verus!
