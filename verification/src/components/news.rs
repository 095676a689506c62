//! The news timeline: translation keys, tag colours and linked phrases in
//! item descriptions.
use vstd::prelude::*;

use crate::components::segments::{segments, split_segments};
use crate::config::validate::list_views;
use crate::config::{NewsConfig, NewsItem, NewsItemLink, TagStyle};
use crate::localization::{translate, translation, Catalog, Locale};
use crate::text::{chars_equal, chars_of, decimal, push_decimal, push_str, string_of, views};

verus! {

/// The translation key of a field of the news item at `index` (counted
/// from one in the key).
pub open spec fn news_key_of(index: int, field: Seq<char>) -> Seq<char> {
    "news.item."@ + decimal((index + 1) as nat) + "."@ + field
}

/// The translation key of a news item field.
pub fn news_key(index: usize, field: &str) -> (r: String)
    requires
        index < usize::MAX,
    ensures
        r@ == news_key_of(index as int, field@),
{
    let mut out: Vec<char> = Vec::new();
    push_str(&mut out, "news.item.");
    push_decimal(&mut out, (index + 1) as u64);
    push_str(&mut out, ".");
    push_str(&mut out, field);
    assert(out@ =~= news_key_of(index as int, field@));
    string_of(out.as_slice())
}

/// The translation key of the text of a description link.
pub open spec fn news_link_key_of(index: int, link_index: int) -> Seq<char> {
    "news.item."@ + decimal((index + 1) as nat) + ".link."@ + decimal((link_index + 1) as nat)
        + ".text"@
}

/// The translation key of a description link's text.
pub fn news_link_key(index: usize, link_index: usize) -> (r: String)
    requires
        index < usize::MAX,
        link_index < usize::MAX,
    ensures
        r@ == news_link_key_of(index as int, link_index as int),
{
    let mut out: Vec<char> = Vec::new();
    push_str(&mut out, "news.item.");
    push_decimal(&mut out, (index + 1) as u64);
    push_str(&mut out, ".link.");
    push_decimal(&mut out, (link_index + 1) as u64);
    push_str(&mut out, ".text");
    assert(out@ =~= news_link_key_of(index as int, link_index as int));
    string_of(out.as_slice())
}

/// The texts of a news item's description links in `locale`, in order.
pub open spec fn news_link_texts_of(
    catalog: Catalog,
    locale: Locale,
    index: int,
    links: Seq<NewsItemLink>,
) -> Seq<Seq<char>> {
    Seq::new(
        links.len(),
        |j: int| translation(catalog, locale, news_link_key_of(index, j), links[j].text@),
    )
}

/// Translates the link texts of the news item at `index`, keyed by the
/// item's and the link's positions.
pub fn localized_link_texts(catalog: &Catalog, locale: Locale, index: usize, item: &NewsItem) -> (r:
    Vec<String>)
    requires
        index < usize::MAX,
        item.links@.len() < usize::MAX,
    ensures
        views(r@) == news_link_texts_of(*catalog, locale, index as int, item.links@),
{
    let mut r: Vec<String> = Vec::new();
    let mut j: usize = 0;
    while j < item.links.len()
        invariant
            j <= item.links.len(),
            index < usize::MAX,
            item.links@.len() < usize::MAX,
            views(r@) == news_link_texts_of(*catalog, locale, index as int, item.links@).take(
                j as int,
            ),
        decreases item.links.len() - j,
    {
        let key = news_link_key(index, j);
        let ghost before = r@;
        let text = translate(catalog, locale, key.as_str(), item.links[j].text.as_str());
        r.push(text);
        j = j + 1;
        assert(views(before).len() == before.len());
        assert(r@ == before.push(text));
        assert(views(r@) =~= news_link_texts_of(*catalog, locale, index as int, item.links@).take(
            j as int,
        ));
    }
    assert(news_link_texts_of(*catalog, locale, index as int, item.links@).take(j as int)
        =~= news_link_texts_of(*catalog, locale, index as int, item.links@));
    r
}

/// A run of a news description: plain text, or the text of a link.
#[derive(Debug, Clone, PartialEq, Eq)]
pub struct DescriptionSegment {
    pub text: String,
    pub link: Option<NewsItemLink>,
}

/// The texts of `(text, link)` pairs.
pub open spec fn link_texts(links: Seq<(String, &NewsItemLink)>) -> Seq<Seq<char>> {
    Seq::new(links.len(), |i: int| links[i].0@)
}

/// Splits a description into plain runs and linked phrases: each phrase is
/// the (translated) text of a link, matched earliest first, longest first
/// among equal starts.
pub fn description_segments(
    description: &str,
    links: &[(String, &NewsItemLink)],
) -> (r: Vec<DescriptionSegment>)
    ensures
        r@.len() == segments(description@, link_texts(links@)).len(),
        forall|k: int|
            0 <= k < r@.len() ==> {
                let seg = segments(description@, link_texts(links@))[k];
                &&& (#[trigger] r@[k]).text@ == seg.0
                &&& r@[k].link == match seg.1 {
                    Some(i) => Some(*links@[i].1),
                    None => None::<NewsItemLink>,
                }
            },
{
    let mut cands: Vec<Vec<char>> = Vec::new();
    let mut i: usize = 0;
    while i < links.len()
        invariant
            i <= links.len(),
            list_views(cands@) == link_texts(links@).take(i as int),
        decreases links.len() - i,
    {
        let ghost before = list_views(cands@);
        cands.push(chars_of(links[i].0.as_str()));
        assert(list_views(cands@) =~= before.push(links@[i as int].0@));
        assert(link_texts(links@).take(i + 1) =~= link_texts(links@).take(i as int).push(
            links@[i as int].0@,
        ));
        i = i + 1;
    }
    assert(link_texts(links@).take(links.len() as int) =~= link_texts(links@));
    let text = chars_of(description);
    let parts = split_segments(text.as_slice(), &cands);
    proof {
        crate::components::segments::law_highlights_are_candidates(
            description@,
            link_texts(links@),
        );
    }
    let mut out: Vec<DescriptionSegment> = Vec::new();
    let mut k: usize = 0;
    while k < parts.len()
        invariant
            k <= parts.len(),
            crate::components::segments::segment_views(parts@) == segments(
                description@,
                link_texts(links@),
            ),
            out@.len() == k,
            forall|q: int|
                0 <= q < k ==> {
                    let seg = segments(description@, link_texts(links@))[q];
                    &&& (#[trigger] out@[q]).text@ == seg.0
                    &&& out@[q].link == match seg.1 {
                        Some(i) => Some(*links@[i].1),
                        None => None::<NewsItemLink>,
                    }
                },
            forall|q: int|
                0 <= q < segments(description@, link_texts(links@)).len() && (#[trigger] segments(
                    description@,
                    link_texts(links@),
                )[q]).1 is Some ==> 0 <= segments(description@, link_texts(links@))[q].1->0
                    < link_texts(links@).len(),
        decreases parts.len() - k,
    {
        proof {
            let sv = crate::components::segments::segment_views(parts@);
            assert(sv[k as int] == segments(description@, link_texts(links@))[k as int]);
        }
        let text = string_of(parts[k].0.as_slice());
        let link = match parts[k].1 {
            Some(i) => Some(links[i].1.clone()),
            None => None,
        };
        out.push(DescriptionSegment { text, link });
        k = k + 1;
    }
    out
}

/// The CSS custom properties of a tag style.
pub open spec fn tag_css(style: TagStyle) -> Seq<char> {
    "--tag-bg: "@ + style.light_background@ + "; --tag-text: "@ + style.light_text@
        + "; --tag-dark-bg: "@ + style.dark_background@ + "; --tag-dark-text: "@
        + style.dark_text@ + ";"@
}

/// The CSS custom properties that colour a tag.
pub fn tag_css_variables(style: &TagStyle) -> (r: String)
    ensures
        r@ == tag_css(*style),
{
    let mut out: Vec<char> = Vec::new();
    push_str(&mut out, "--tag-bg: ");
    push_str(&mut out, style.light_background.as_str());
    push_str(&mut out, "; --tag-text: ");
    push_str(&mut out, style.light_text.as_str());
    push_str(&mut out, "; --tag-dark-bg: ");
    push_str(&mut out, style.dark_background.as_str());
    push_str(&mut out, "; --tag-dark-text: ");
    push_str(&mut out, style.dark_text.as_str());
    push_str(&mut out, ";");
    assert(out@ =~= tag_css(*style));
    string_of(out.as_slice())
}

/// The index of the first style named `tag` at or after `from`, or `-1`.
pub open spec fn style_named_from(styles: Seq<TagStyle>, tag: Seq<char>, from: int) -> int
    decreases styles.len() - from,
{
    if from < 0 || from >= styles.len() {
        -1
    } else if styles[from].name@ == tag {
        from
    } else {
        style_named_from(styles, tag, from + 1)
    }
}

/// The style of a tag: the first style with its name, else the first
/// style; empty when no styles are configured.
pub open spec fn tag_style_of(config: NewsConfig, tag: Seq<char>) -> Seq<char> {
    let styles = config.tag_styles@;
    let i = style_named_from(styles, tag, 0);
    if i >= 0 {
        tag_css(styles[i])
    } else if styles.len() > 0 {
        tag_css(styles[0])
    } else {
        seq![]
    }
}

/// The CSS colouring for a news tag, falling back to the first configured
/// palette for a tag without its own.
pub fn tag_style(config: &NewsConfig, tag: &str) -> (r: String)
    ensures
        r@ == tag_style_of(*config, tag@),
{
    let t = chars_of(tag);
    let styles = &config.tag_styles;
    let mut i: usize = 0;
    while i < styles.len()
        invariant
            i <= styles.len(),
            t@ == tag@,
            styles@ == config.tag_styles@,
            style_named_from(styles@, tag@, 0) == style_named_from(styles@, tag@, i as int),
        decreases styles.len() - i,
    {
        let name = chars_of(styles[i].name.as_str());
        if chars_equal(name.as_slice(), t.as_slice()) {
            assert(styles@[i as int].name@ == tag@);
            assert(style_named_from(styles@, tag@, i as int) == i as int);
            let r = tag_css_variables(&styles[i]);
            assert(r@ == tag_css(styles@[i as int]));
            return r;
        }
        i = i + 1;
    }
    assert(style_named_from(styles@, tag@, i as int) == -1);
    if styles.len() > 0 {
        tag_css_variables(&styles[0])
    } else {
        let r = String::new();
        assert(r@ =~= tag_style_of(*config, tag@));
        r
    }
}

} // verus!
