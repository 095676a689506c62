//! Language negotiation and translation. English text comes from the site
//! configuration and is the fallback everywhere; Simplified Chinese text
//! comes from a translation catalog keyed by stable names.
use vstd::prelude::*;

use crate::text::{
    ascii_lower, ascii_lower_seq, chars_equal, chars_of, push_all, push_str, replace, replace_exec,
    starts_with, string_of,
};

verus! {

/// A display language.
#[derive(Debug, Clone, Copy, PartialEq, Eq, Structural)]
pub enum Locale {
    English,
    ChineseSimplified,
}

impl Default for Locale {
    /// English, the language of the configured text.
    fn default() -> (r: Locale)
        ensures
            r == Locale::English,
    {
        Locale::English
    }
}

impl Locale {
    /// The value of the `lang` attribute for this locale.
    pub fn html_language(self) -> (r: &'static str)
        ensures
            r@ == html_language_of(self),
    {
        match self {
            Locale::English => "en",
            Locale::ChineseSimplified => "zh-CN",
        }
    }
}

/// The `lang` attribute value of a locale.
pub open spec fn html_language_of(l: Locale) -> Seq<char> {
    match l {
        Locale::English => "en"@,
        Locale::ChineseSimplified => "zh-CN"@,
    }
}

/// The locale that a browser language tag selects, compared without regard
/// to ASCII case: `zh` or `zh-*` is Chinese, `en` or `en-*` is English, and
/// anything else selects nothing.
pub open spec fn language_locale(tag: Seq<char>) -> Option<Locale> {
    let low = ascii_lower_seq(tag);
    if low == "zh"@ || starts_with(low, "zh-"@) {
        Some(Locale::ChineseSimplified)
    } else if low == "en"@ || starts_with(low, "en-"@) {
        Some(Locale::English)
    } else {
        None
    }
}

/// The locale of the first supported language in preference order; English
/// when none is supported.
pub open spec fn negotiated_locale(languages: Seq<Seq<char>>) -> Locale
    decreases languages.len(),
{
    if languages.len() == 0 {
        Locale::English
    } else {
        match language_locale(languages[0]) {
            Some(l) => l,
            None => negotiated_locale(languages.skip(1)),
        }
    }
}

/// The first supported language in preference order decides; unsupported
/// languages before it are passed over.
pub proof fn law_first_supported_language_decides(first: Seq<char>, rest: Seq<Seq<char>>)
    ensures
        language_locale(first) matches Some(l) ==> negotiated_locale(seq![first] + rest) == l,
        language_locale(first) is None ==> negotiated_locale(seq![first] + rest)
            == negotiated_locale(rest),
        negotiated_locale(seq![]) == Locale::English,
{
    assert((seq![first] + rest)[0] == first);
    assert((seq![first] + rest).skip(1) =~= rest);
}

/// Whether `c` is `t` up to ASCII case, for a lower-case letter or `-` as `t`.
fn lower_matches(c: char, t: char) -> (r: bool)
    requires
        ('a' <= t && t <= 'z') || t == '-',
    ensures
        r == (ascii_lower(c) == t),
{
    if c == t {
        return true;
    }
    if 'a' <= t && t <= 'z' && 'A' <= c && c <= 'Z' {
        let r = (c as u32) + 32 == (t as u32);
        assert(r == (ascii_lower(c) == t));
        return r;
    }
    false
}

/// Whether `tag`, ignoring ASCII case, is exactly the two letters `a`, `b`
/// or starts with them followed by `-`.
fn primary_subtag_is(tag: &[char], a: char, b: char) -> (r: bool)
    requires
        'a' <= a <= 'z',
        'a' <= b <= 'z',
    ensures
        r == (ascii_lower_seq(tag@) == seq![a, b] || starts_with(
            ascii_lower_seq(tag@),
            seq![a, b, '-'],
        )),
{
    let ghost low = ascii_lower_seq(tag@);
    if tag.len() < 2 || !lower_matches(tag[0], a) || !lower_matches(tag[1], b) {
        proof {
            if low == seq![a, b] {
                assert(low[0] == a && low[1] == b);
            }
            if starts_with(low, seq![a, b, '-']) {
                assert(low.subrange(0, 3)[0] == a && low.subrange(0, 3)[1] == b);
            }
        }
        return false;
    }
    if tag.len() == 2 {
        assert(low =~= seq![a, b]);
        return true;
    }
    let r = lower_matches(tag[2], '-');
    proof {
        if r {
            assert(low.subrange(0, 3) =~= seq![a, b, '-']);
        } else {
            assert(low != seq![a, b]);
            if starts_with(low, seq![a, b, '-']) {
                assert(low.subrange(0, 3)[2] == '-');
            }
        }
    }
    r
}

/// Chooses the locale of the first supported language in preference order,
/// English when none is supported.
pub fn locale_from_languages(languages: &[&str]) -> (r: Locale)
    ensures
        r == negotiated_locale(Seq::new(languages@.len(), |i: int| languages@[i]@)),
{
    let ghost all = Seq::new(languages@.len(), |i: int| languages@[i]@);
    proof {
        reveal_strlit("zh");
        reveal_strlit("zh-");
        reveal_strlit("en");
        reveal_strlit("en-");
        assert("zh"@ =~= seq!['z', 'h']);
        assert("zh-"@ =~= seq!['z', 'h', '-']);
        assert("en"@ =~= seq!['e', 'n']);
        assert("en-"@ =~= seq!['e', 'n', '-']);
    }
    let mut i: usize = 0;
    assert(all.skip(0) =~= all);
    while i < languages.len()
        invariant
            i <= languages.len(),
            all == Seq::new(languages@.len(), |i: int| languages@[i]@),
            negotiated_locale(all) == negotiated_locale(all.skip(i as int)),
            "zh"@ == seq!['z', 'h'],
            "zh-"@ == seq!['z', 'h', '-'],
            "en"@ == seq!['e', 'n'],
            "en-"@ == seq!['e', 'n', '-'],
        decreases languages.len() - i,
    {
        let tag = chars_of(languages[i]);
        assert(all.skip(i as int)[0] == tag@);
        assert(all.skip(i as int).skip(1) =~= all.skip(i + 1));
        if primary_subtag_is(tag.as_slice(), 'z', 'h') {
            return Locale::ChineseSimplified;
        }
        if primary_subtag_is(tag.as_slice(), 'e', 'n') {
            return Locale::English;
        }
        i = i + 1;
    }
    Locale::English
}

/// The value stored under `key` in an ordered list of entries: the first
/// entry with that key.
pub open spec fn lookup(entries: Seq<(Seq<char>, Seq<char>)>, key: Seq<char>) -> Option<Seq<char>>
    decreases entries.len(),
{
    if entries.len() == 0 {
        None
    } else if entries[0].0 == key {
        Some(entries[0].1)
    } else {
        lookup(entries.skip(1), key)
    }
}

/// No key occurs in two entries.
pub open spec fn keys_distinct(entries: Seq<(Seq<char>, Seq<char>)>) -> bool {
    forall|i: int, j: int|
        0 <= i < entries.len() && 0 <= j < entries.len() && i != j ==> #[trigger] entries[i].0
            != #[trigger] entries[j].0
}

/// The entries, in key order, of the JSON object of strings that
/// `serde_json` reads from `json`, or `None` when `json` is not such an
/// object.
pub uninterp spec fn json_string_entries(json: Seq<char>) -> Option<Seq<(Seq<char>, Seq<char>)>>;

/// Reads a JSON object of strings with `serde_json::from_str` into an
/// ordered map and lists its entries. Trusted: the entries are whatever
/// `serde_json` reads; the only further claim is that a map holds each key
/// once.
#[verifier::external_body]
fn parse_string_map(json: &str) -> (r: Option<Vec<(String, String)>>)
    ensures
        r is None <==> json_string_entries(json@) is None,
        r matches Some(v) ==> json_string_entries(json@) == Some(
            Seq::new(v@.len(), |i: int| (v@[i].0@, v@[i].1@)),
        ),
        r matches Some(v) ==> keys_distinct(Seq::new(v@.len(), |i: int| (v@[i].0@, v@[i].1@))),
{
    match serde_json::from_str::<std::collections::BTreeMap<String, String>>(json) {
        Ok(map) => Some(map.into_iter().collect()),
        Err(_) => None,
    }
}

/// A translation catalog: text by key.
#[derive(Debug, Clone, PartialEq, Eq)]
pub struct Catalog {
    entries: Vec<(String, String)>,
}

impl Catalog {
    /// The entries as `(key, text)` pairs.
    pub closed spec fn entries_view(&self) -> Seq<(Seq<char>, Seq<char>)> {
        Seq::new(self.entries@.len(), |i: int| (self.entries@[i].0@, self.entries@[i].1@))
    }

    /// The text stored under `key`, if any.
    pub open spec fn get_spec(&self, key: Seq<char>) -> Option<Seq<char>> {
        lookup(self.entries_view(), key)
    }

    /// A catalog with no entries.
    pub fn empty() -> (r: Catalog)
        ensures
            r.entries_view() == Seq::<(Seq<char>, Seq<char>)>::empty(),
    {
        let r = Catalog { entries: Vec::new() };
        assert(r.entries_view() =~= Seq::<(Seq<char>, Seq<char>)>::empty());
        r
    }

    /// Reads a catalog from a JSON object whose values are all strings;
    /// `None` when the text is not such an object.
    pub fn from_json(json: &str) -> (r: Option<Catalog>)
        ensures
            r is None <==> json_string_entries(json@) is None,
            r matches Some(c) ==> json_string_entries(json@) == Some(c.entries_view()),
    {
        match parse_string_map(json) {
            Some(entries) => Some(Catalog { entries }),
            None => None,
        }
    }

    /// The text stored under `key`, if any.
    pub fn get(&self, key: &str) -> (r: Option<String>)
        ensures
            r matches Some(v) ==> self.get_spec(key@) == Some(v@),
            r is None ==> self.get_spec(key@) is None,
    {
        let k = chars_of(key);
        let mut i: usize = 0;
        assert(self.entries_view().skip(0) =~= self.entries_view());
        while i < self.entries.len()
            invariant
                i <= self.entries.len(),
                k@ == key@,
                lookup(self.entries_view(), key@) == lookup(
                    self.entries_view().skip(i as int),
                    key@,
                ),
            decreases self.entries.len() - i,
        {
            let ghost rest = self.entries_view().skip(i as int);
            assert(rest[0] == (self.entries@[i as int].0@, self.entries@[i as int].1@));
            assert(rest.skip(1) =~= self.entries_view().skip(i + 1));
            let candidate = chars_of(self.entries[i].0.as_str());
            if chars_equal(candidate.as_slice(), k.as_slice()) {
                return Some(self.entries[i].1.clone());
            }
            i = i + 1;
        }
        None
    }
}

/// The text for `key` in `locale`: the fallback in English; the catalog
/// text in Chinese, or the fallback when the catalog has none.
pub open spec fn translation(
    catalog: Catalog,
    locale: Locale,
    key: Seq<char>,
    fallback: Seq<char>,
) -> Seq<char> {
    match locale {
        Locale::English => fallback,
        Locale::ChineseSimplified => match catalog.get_spec(key) {
            Some(text) => text,
            None => fallback,
        },
    }
}

/// Translates `key` into `locale`, falling back to the configured English
/// text.
pub fn translate(catalog: &Catalog, locale: Locale, key: &str, fallback: &str) -> (r: String)
    ensures
        r@ == translation(*catalog, locale, key@, fallback@),
{
    match locale {
        Locale::English => fallback.to_owned(),
        Locale::ChineseSimplified => match catalog.get(key) {
            Some(text) => text,
            None => fallback.to_owned(),
        },
    }
}

/// `s` with `{name}` replaced by the value of each `(name, value)` pair,
/// pair by pair in order.
pub open spec fn fill_template(s: Seq<char>, replacements: Seq<(Seq<char>, Seq<char>)>) -> Seq<
    char,
>
    decreases replacements.len(),
{
    if replacements.len() == 0 {
        s
    } else {
        replace(
            fill_template(s, replacements.drop_last()),
            seq!['{'] + replacements.last().0 + seq!['}'],
            replacements.last().1,
        )
    }
}

/// Translates a template and fills in its named `{placeholders}`.
pub fn translate_template(
    catalog: &Catalog,
    locale: Locale,
    key: &str,
    fallback: &str,
    replacements: &[(&str, &str)],
) -> (r: String)
    ensures
        r@ == fill_template(
            translation(*catalog, locale, key@, fallback@),
            Seq::new(replacements@.len(), |i: int| (replacements@[i].0@, replacements@[i].1@)),
        ),
{
    let ghost reps = Seq::new(
        replacements@.len(),
        |i: int| (replacements@[i].0@, replacements@[i].1@),
    );
    let translated = translate(catalog, locale, key, fallback);
    let mut output = chars_of(translated.as_str());
    let mut i: usize = 0;
    while i < replacements.len()
        invariant
            i <= replacements.len(),
            reps == Seq::new(
                replacements@.len(),
                |i: int| (replacements@[i].0@, replacements@[i].1@),
            ),
            output@ == fill_template(
                translation(*catalog, locale, key@, fallback@),
                reps.take(i as int),
            ),
        decreases replacements.len() - i,
    {
        let (name, value) = replacements[i];
        let mut pattern: Vec<char> = Vec::new();
        pattern.push('{');
        push_str(&mut pattern, name);
        pattern.push('}');
        let value_chars = chars_of(value);
        assert(reps.take(i + 1).drop_last() =~= reps.take(i as int));
        assert(pattern@ =~= seq!['{'] + reps[i as int].0 + seq!['}']);
        output = replace_exec(output.as_slice(), pattern.as_slice(), value_chars.as_slice());
        i = i + 1;
    }
    assert(reps.take(replacements.len() as int) =~= reps);
    string_of(output.as_slice())
}

/// Without replacements a template is its translation; in English that is
/// the fallback text itself.
pub proof fn law_english_template_is_fallback(catalog: Catalog, key: Seq<char>, fallback: Seq<char>)
    ensures
        fill_template(translation(catalog, Locale::English, key, fallback), seq![]) == fallback,
{
}

} // verus!
