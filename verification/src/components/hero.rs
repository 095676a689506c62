//! The profile section: translation keys and the biography's emphasised
//! and linked phrases.
use vstd::prelude::*;

use crate::components::segments::{segments, split_segments};
use crate::config::validate::list_views;
use crate::config::{HeroBioLink, HeroConfig};
use crate::localization::{translate, translation, Catalog, Locale};
use crate::text::{chars_of, decimal, push_decimal, push_str, string_of, views};

verus! {

/// The translation key of the interest at `index`.
pub open spec fn interest_key_of(index: int) -> Seq<char> {
    if index == 0 {
        "hero.interest.ai_science"@
    } else if index == 1 {
        "hero.interest.energy"@
    } else if index == 2 {
        "hero.interest.multi_agent"@
    } else if index == 3 {
        "hero.interest.trustworthy"@
    } else if index == 4 {
        "hero.interest.quantum"@
    } else {
        "hero.interest.unknown"@
    }
}

/// The translation key of a research interest by position.
pub fn interest_key(index: usize) -> (r: &'static str)
    ensures
        r@ == interest_key_of(index as int),
{
    match index {
        0 => "hero.interest.ai_science",
        1 => "hero.interest.energy",
        2 => "hero.interest.multi_agent",
        3 => "hero.interest.trustworthy",
        4 => "hero.interest.quantum",
        _ => "hero.interest.unknown",
    }
}

/// The translation key of the text of the biography link at `index`.
pub open spec fn bio_link_key_of(index: int) -> Seq<char> {
    "hero.bio_link."@ + decimal((index + 1) as nat) + ".text"@
}

/// The translation key of a biography link's text.
pub fn bio_link_key(index: usize) -> (r: String)
    requires
        index < usize::MAX,
    ensures
        r@ == bio_link_key_of(index as int),
{
    let mut out: Vec<char> = Vec::new();
    push_str(&mut out, "hero.bio_link.");
    push_decimal(&mut out, (index + 1) as u64);
    push_str(&mut out, ".text");
    assert(out@ =~= bio_link_key_of(index as int));
    string_of(out.as_slice())
}

/// A run of the biography: plain, emphasised, or linked.
#[derive(Debug, Clone, PartialEq, Eq)]
pub struct BioSegment {
    pub text: String,
    pub italic: bool,
    pub link: Option<HeroBioLink>,
}

/// The phrases searched in the biography: link texts first, then the
/// emphasised phrases.
pub open spec fn bio_candidates(italic_phrases: Seq<String>, links: Seq<(String, &HeroBioLink)>) -> Seq<
    Seq<char>,
> {
    Seq::new(links.len(), |i: int| links[i].0@) + Seq::new(
        italic_phrases.len(),
        |i: int| italic_phrases[i]@,
    )
}

/// Splits the biography into plain runs, linked phrases (the texts of
/// `links`) and emphasised phrases (`italic_phrases`), each matched earliest
/// first, longest first among equal starts, links before phrases among
/// equals.
pub fn bio_segments(
    bio: &str,
    italic_phrases: &[String],
    links: &[(String, &HeroBioLink)],
) -> (r: Vec<BioSegment>)
    ensures
        r@.len() == segments(bio@, bio_candidates(italic_phrases@, links@)).len(),
        forall|k: int|
            0 <= k < r@.len() ==> {
                let seg = segments(bio@, bio_candidates(italic_phrases@, links@))[k];
                &&& (#[trigger] r@[k]).text@ == seg.0
                &&& r@[k].italic == (seg.1 matches Some(i) && i >= links@.len())
                &&& r@[k].link == match seg.1 {
                    Some(i) => if i < links@.len() {
                        Some(*links@[i].1)
                    } else {
                        None::<HeroBioLink>
                    },
                    None => None::<HeroBioLink>,
                }
            },
{
    let ghost all = bio_candidates(italic_phrases@, links@);
    let mut cands: Vec<Vec<char>> = Vec::new();
    let mut i: usize = 0;
    while i < links.len()
        invariant
            i <= links.len(),
            all == bio_candidates(italic_phrases@, links@),
            list_views(cands@) == all.take(i as int),
        decreases links.len() - i,
    {
        let ghost before = list_views(cands@);
        cands.push(chars_of(links[i].0.as_str()));
        assert(list_views(cands@) =~= before.push(links@[i as int].0@));
        assert(all.take(i + 1) =~= all.take(i as int).push(links@[i as int].0@));
        i = i + 1;
    }
    let mut j: usize = 0;
    while j < italic_phrases.len()
        invariant
            j <= italic_phrases.len(),
            all == bio_candidates(italic_phrases@, links@),
            list_views(cands@) == all.take(links@.len() + j),
        decreases italic_phrases.len() - j,
    {
        let ghost before = list_views(cands@);
        cands.push(chars_of(italic_phrases[j].as_str()));
        assert(list_views(cands@) =~= before.push(italic_phrases@[j as int]@));
        assert(all.take(links@.len() + j + 1) =~= all.take(links@.len() + j).push(
            italic_phrases@[j as int]@,
        ));
        j = j + 1;
    }
    assert(all.take((links@.len() + italic_phrases@.len()) as int) =~= all);
    let text = chars_of(bio);
    let parts = split_segments(text.as_slice(), &cands);
    proof {
        crate::components::segments::law_highlights_are_candidates(bio@, all);
    }
    let mut out: Vec<BioSegment> = Vec::new();
    let mut k: usize = 0;
    while k < parts.len()
        invariant
            k <= parts.len(),
            all == bio_candidates(italic_phrases@, links@),
            crate::components::segments::segment_views(parts@) == segments(bio@, all),
            out@.len() == k,
            forall|q: int|
                0 <= q < k ==> {
                    let seg = segments(bio@, all)[q];
                    &&& (#[trigger] out@[q]).text@ == seg.0
                    &&& out@[q].italic == (seg.1 matches Some(i) && i >= links@.len())
                    &&& out@[q].link == match seg.1 {
                        Some(i) => if i < links@.len() {
                            Some(*links@[i].1)
                        } else {
                            None::<HeroBioLink>
                        },
                        None => None::<HeroBioLink>,
                    }
                },
            forall|q: int|
                0 <= q < segments(bio@, all).len() && (#[trigger] segments(bio@, all)[q]).1 is Some
                    ==> 0 <= segments(bio@, all)[q].1->0 < all.len(),
        decreases parts.len() - k,
    {
        let text = string_of(parts[k].0.as_slice());
        let (italic, link) = match parts[k].1 {
            Some(i) => if i < links.len() {
                (false, Some(links[i].1.clone()))
            } else {
                (true, None)
            },
            None => (false, None),
        };
        out.push(BioSegment { text, italic, link });
        k = k + 1;
    }
    out
}

/// The phrases emphasised in the biography: in Chinese the three catalog
/// phrases (empty where the catalog has none), otherwise the configured ones.
pub open spec fn italic_phrases_of(
    catalog: Catalog,
    locale: Locale,
    configured: Seq<Seq<char>>,
) -> Seq<Seq<char>> {
    if locale == Locale::ChineseSimplified {
        seq![
            translation(catalog, locale, "hero.bio_italic.cuhk"@, ""@),
            translation(catalog, locale, "hero.bio_italic.slai"@, ""@),
            translation(catalog, locale, "hero.bio_italic.netease"@, ""@),
        ]
    } else {
        configured
    }
}

/// The biography phrases to emphasise in `locale`.
pub fn localized_italic_phrases(catalog: &Catalog, locale: Locale, config: &HeroConfig) -> (r: Vec<
    String,
>)
    ensures
        views(r@) == italic_phrases_of(*catalog, locale, views(config.bio_italic_phrases@)),
{
    if locale == Locale::ChineseSimplified {
        let mut r: Vec<String> = Vec::new();
        r.push(translate(catalog, locale, "hero.bio_italic.cuhk", ""));
        r.push(translate(catalog, locale, "hero.bio_italic.slai", ""));
        r.push(translate(catalog, locale, "hero.bio_italic.netease", ""));
        assert(views(r@) =~= italic_phrases_of(
            *catalog,
            locale,
            views(config.bio_italic_phrases@),
        ));
        r
    } else {
        let mut r: Vec<String> = Vec::new();
        let mut i: usize = 0;
        while i < config.bio_italic_phrases.len()
            invariant
                i <= config.bio_italic_phrases.len(),
                views(r@) == views(config.bio_italic_phrases@).take(i as int),
            decreases config.bio_italic_phrases.len() - i,
        {
            let ghost before = r@;
            let phrase = config.bio_italic_phrases[i].clone();
            r.push(phrase);
            i = i + 1;
            assert(views(before).len() == before.len());
            assert(r@ == before.push(phrase));
            assert(r@.len() == i);
            assert(views(r@) =~= views(config.bio_italic_phrases@).take(i as int));
        }
        assert(views(config.bio_italic_phrases@).take(i as int) =~= views(
            config.bio_italic_phrases@,
        ));
        r
    }
}

/// The text of each biography link in `locale`, in order.
pub open spec fn bio_link_texts_of(
    catalog: Catalog,
    locale: Locale,
    links: Seq<HeroBioLink>,
) -> Seq<Seq<char>> {
    Seq::new(
        links.len(),
        |i: int| translation(catalog, locale, bio_link_key_of(i), links[i].text@),
    )
}

/// Translates the texts of the biography links, keyed by position.
pub fn localized_bio_link_texts(catalog: &Catalog, locale: Locale, config: &HeroConfig) -> (r: Vec<
    String,
>)
    requires
        config.bio_links@.len() < usize::MAX,
    ensures
        views(r@) == bio_link_texts_of(*catalog, locale, config.bio_links@),
{
    let mut r: Vec<String> = Vec::new();
    let mut i: usize = 0;
    while i < config.bio_links.len()
        invariant
            i <= config.bio_links.len(),
            config.bio_links@.len() < usize::MAX,
            views(r@) == bio_link_texts_of(*catalog, locale, config.bio_links@).take(i as int),
        decreases config.bio_links.len() - i,
    {
        let key = bio_link_key(i);
        let ghost before = r@;
        let text = translate(catalog, locale, key.as_str(), config.bio_links[i].text.as_str());
        r.push(text);
        i = i + 1;
        assert(views(before).len() == before.len());
        assert(r@ == before.push(text));
        assert(views(r@) =~= bio_link_texts_of(*catalog, locale, config.bio_links@).take(
            i as int,
        ));
    }
    assert(bio_link_texts_of(*catalog, locale, config.bio_links@).take(i as int)
        =~= bio_link_texts_of(*catalog, locale, config.bio_links@));
    r
}

} // verus!
