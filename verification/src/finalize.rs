//! The decisions of the Pages finaliser: what the generated index must
//! contain, how root-relative references are normalised, and what the 404
//! page adds to the index it copies.
use std::borrow::Cow;

use lol_html::html_content::{ContentType, Element};
use lol_html::{rewrite_str, ElementContentHandlers, RewriteStrSettings, Selector};
use vstd::prelude::*;

use crate::config::validate::{issue_if, list_views, opt_view};
use crate::config::{footer_text_of, SiteConfig};
use crate::text::{
    chars_equal, chars_of, contains, decimal, find, find_char, find_exec, lemma_find_from_bounds,
    push_all, push_decimal, push_str, slice_chars, starts_with, starts_with_str, string_of,
    trim_char, trim_char_exec, views,
};

verus! {

/// The site root under a base path: `/` for an empty base, else `/base/`.
pub open spec fn pages_root_of(base_path: Seq<char>) -> Seq<char> {
    let base = trim_char(base_path, '/');
    if base.len() == 0 {
        seq!['/']
    } else {
        seq!['/'] + base + seq!['/']
    }
}

/// The site root that unknown paths redirect to.
pub fn pages_root(base_path: &str) -> (r: String)
    ensures
        r@ == pages_root_of(base_path@),
{
    let chars = chars_of(base_path);
    let base = trim_char_exec(chars.as_slice(), '/');
    let mut out: Vec<char> = Vec::new();
    out.push('/');
    if base.len() > 0 {
        push_all(&mut out, base.as_slice());
        out.push('/');
    }
    assert(out@ =~= pages_root_of(base_path@));
    string_of(out.as_slice())
}

/// The site root is what the base path joins with an empty path.
pub proof fn law_pages_root_is_empty_join(base_path: Seq<char>)
    ensures
        pages_root_of(base_path) == crate::config::joined_path(base_path, seq![]),
{
    assert(crate::text::trim_start_char(seq![], '/') == Seq::<char>::empty());
    assert(seq!['/'] + Seq::<char>::empty() =~= seq!['/']);
}

/// A reference beginning `/./` with that prefix reduced to `/`; `None` for
/// any other reference.
pub open spec fn normalized_reference(value: Seq<char>) -> Option<Seq<char>> {
    if starts_with(value, "/./"@) {
        Some(seq!['/'] + value.skip(3))
    } else {
        None
    }
}

/// Rewrites a `/./`-prefixed attribute value to a root-relative one.
pub fn normalized_root_reference(value: &str) -> (r: Option<String>)
    ensures
        r matches Some(v) ==> normalized_reference(value@) == Some(v@),
        r is None ==> normalized_reference(value@) is None,
{
    let v = chars_of(value);
    if !starts_with_str(v.as_slice(), "/./") {
        return None;
    }
    proof {
        reveal_strlit("/./");
    }
    let mut out: Vec<char> = Vec::new();
    out.push('/');
    let rest = slice_chars(v.as_slice(), 3, v.len());
    push_all(&mut out, rest.as_slice());
    assert(out@ =~= seq!['/'] + value@.skip(3));
    Some(string_of(out.as_slice()))
}

/// The theme variables set on the page body.
pub open spec fn body_theme_style(c: SiteConfig) -> Seq<char> {
    "--light-bg: "@ + c.design.light_background@ + "; --dark-bg: "@ + c.design.dark_background@
        + "; --light-text: "@ + c.design.light_text@ + "; --dark-text: "@ + c.design.dark_text@
        + ";"@
}

/// The `style` attribute that gives the body its theme colours before any
/// script runs.
pub fn body_theme_variables(config: &SiteConfig) -> (r: String)
    ensures
        r@ == body_theme_style(*config),
{
    let mut out: Vec<char> = Vec::new();
    push_str(&mut out, "--light-bg: ");
    push_str(&mut out, config.design.light_background.as_str());
    push_str(&mut out, "; --dark-bg: ");
    push_str(&mut out, config.design.dark_background.as_str());
    push_str(&mut out, "; --light-text: ");
    push_str(&mut out, config.design.light_text.as_str());
    push_str(&mut out, "; --dark-text: ");
    push_str(&mut out, config.design.dark_text.as_str());
    push_str(&mut out, ";");
    assert(out@ =~= body_theme_style(*config));
    string_of(out.as_slice())
}

/// The custom properties of the page shell: theme colours, animation
/// timings and easing, and the two motion factors, which arrive already
/// written out (`hover_lift` in pixels).
pub open spec fn design_style_of(
    c: SiteConfig,
    hover_lift: Seq<char>,
    heatmap_hover_scale: Seq<char>,
) -> Seq<char> {
    "--primary: "@ + c.design.primary@ + ";"@
        + " --primary-dark: "@ + c.design.primary_dark@ + ";"@
        + " --secondary: "@ + c.design.secondary@ + ";"@
        + " --light-bg: "@ + c.design.light_background@ + ";"@
        + " --dark-bg: "@ + c.design.dark_background@ + ";"@
        + " --light-text: "@ + c.design.light_text@ + ";"@
        + " --dark-text: "@ + c.design.dark_text@ + ";"@
        + " --light-card: "@ + c.design.light_card@ + ";"@
        + " --dark-card: "@ + c.design.dark_card@ + ";"@
        + " --theme-duration: "@ + decimal(c.animation.theme_transition_ms as nat) + "ms;"@
        + " --image-duration: "@ + decimal(c.animation.image_transition_ms as nat) + "ms;"@
        + " --hero-image-duration: "@ + decimal(c.animation.hero_image_duration_ms as nat) + "ms;"@
        + " --hero-content-delay: "@ + decimal(c.animation.hero_content_delay_ms as nat) + "ms;"@
        + " --section-duration: "@ + decimal(c.animation.section_duration_ms as nat) + "ms;"@
        + " --news-duration: "@ + decimal(c.animation.news_item_duration_ms as nat) + "ms;"@
        + " --heatmap-duration: "@ + decimal(c.animation.heatmap_cell_duration_ms as nat) + "ms;"@
        + " --entrance-easing: "@ + c.animation.entrance_easing@ + ";"@
        + " --hover-lift: "@ + hover_lift + "px;"@
        + " --heatmap-hover-scale: "@ + heatmap_hover_scale + ";"@
}

/// The `style` attribute of the page shell. The two motion factors are
/// floating-point settings, passed in as their decimal text.
pub fn design_variables(
    config: &SiteConfig,
    hover_lift: &str,
    heatmap_hover_scale: &str,
) -> (r: String)
    ensures
        r@ == design_style_of(*config, hover_lift@, heatmap_hover_scale@),
{
    let mut out: Vec<char> = Vec::new();
    push_str(&mut out, "--primary: ");
    push_str(&mut out, config.design.primary.as_str());
    push_str(&mut out, ";");
    push_str(&mut out, " --primary-dark: ");
    push_str(&mut out, config.design.primary_dark.as_str());
    push_str(&mut out, ";");
    push_str(&mut out, " --secondary: ");
    push_str(&mut out, config.design.secondary.as_str());
    push_str(&mut out, ";");
    push_str(&mut out, " --light-bg: ");
    push_str(&mut out, config.design.light_background.as_str());
    push_str(&mut out, ";");
    push_str(&mut out, " --dark-bg: ");
    push_str(&mut out, config.design.dark_background.as_str());
    push_str(&mut out, ";");
    push_str(&mut out, " --light-text: ");
    push_str(&mut out, config.design.light_text.as_str());
    push_str(&mut out, ";");
    push_str(&mut out, " --dark-text: ");
    push_str(&mut out, config.design.dark_text.as_str());
    push_str(&mut out, ";");
    push_str(&mut out, " --light-card: ");
    push_str(&mut out, config.design.light_card.as_str());
    push_str(&mut out, ";");
    push_str(&mut out, " --dark-card: ");
    push_str(&mut out, config.design.dark_card.as_str());
    push_str(&mut out, ";");
    push_str(&mut out, " --theme-duration: ");
    push_decimal(&mut out, config.animation.theme_transition_ms as u64);
    push_str(&mut out, "ms;");
    push_str(&mut out, " --image-duration: ");
    push_decimal(&mut out, config.animation.image_transition_ms as u64);
    push_str(&mut out, "ms;");
    push_str(&mut out, " --hero-image-duration: ");
    push_decimal(&mut out, config.animation.hero_image_duration_ms as u64);
    push_str(&mut out, "ms;");
    push_str(&mut out, " --hero-content-delay: ");
    push_decimal(&mut out, config.animation.hero_content_delay_ms as u64);
    push_str(&mut out, "ms;");
    push_str(&mut out, " --section-duration: ");
    push_decimal(&mut out, config.animation.section_duration_ms as u64);
    push_str(&mut out, "ms;");
    push_str(&mut out, " --news-duration: ");
    push_decimal(&mut out, config.animation.news_item_duration_ms as u64);
    push_str(&mut out, "ms;");
    push_str(&mut out, " --heatmap-duration: ");
    push_decimal(&mut out, config.animation.heatmap_cell_duration_ms as u64);
    push_str(&mut out, "ms;");
    push_str(&mut out, " --entrance-easing: ");
    push_str(&mut out, config.animation.entrance_easing.as_str());
    push_str(&mut out, ";");
    push_str(&mut out, " --hover-lift: ");
    push_str(&mut out, hover_lift);
    push_str(&mut out, "px;");
    push_str(&mut out, " --heatmap-hover-scale: ");
    push_str(&mut out, heatmap_hover_scale);
    push_str(&mut out, ";");
    assert(out@ =~= design_style_of(*config, hover_lift@, heatmap_hover_scale@));
    string_of(out.as_slice())
}

/// `s` escaped for a double-quoted HTML attribute: `&`, `<`, `>` and `"`
/// become character references.
pub open spec fn attribute_escape(s: Seq<char>) -> Seq<char>
    decreases s.len(),
{
    if s.len() == 0 {
        seq![]
    } else {
        let c = s[0];
        (if c == '&' {
            "&amp;"@
        } else if c == '<' {
            "&lt;"@
        } else if c == '>' {
            "&gt;"@
        } else if c == '"' {
            "&quot;"@
        } else {
            seq![c]
        }) + attribute_escape(s.skip(1))
    }
}

/// Escapes text for a double-quoted attribute with
/// `html_escape::encode_double_quoted_attribute`, which replaces `&`, `<`,
/// `>` and `"` by `&amp;`, `&lt;`, `&gt;` and `&quot;` and keeps every other
/// character.
#[verifier::external_body]
fn encode_double_quoted_attribute(text: &str) -> (r: String)
    ensures
        r@ == attribute_escape(text@),
{
    html_escape::encode_double_quoted_attribute(text).into_owned()
}

/// The refresh tag that sends a 404 page to the site root.
pub open spec fn pages_404_meta_of(base_path: Seq<char>) -> Seq<char> {
    "<meta http-equiv=\"refresh\" content=\""@ + attribute_escape(
        "0; url="@ + pages_root_of(base_path),
    ) + "\">"@
}

/// The `<meta>` refresh tag that the 404 page appends to its head.
pub fn pages_404_meta(base_path: &str) -> (r: String)
    ensures
        r@ == pages_404_meta_of(base_path@),
{
    let root = pages_root(base_path);
    let mut refresh: Vec<char> = Vec::new();
    push_str(&mut refresh, "0; url=");
    push_str(&mut refresh, root.as_str());
    let refresh_text = string_of(refresh.as_slice());
    let escaped = encode_double_quoted_attribute(refresh_text.as_str());
    let mut out: Vec<char> = Vec::new();
    push_str(&mut out, "<meta http-equiv=\"refresh\" content=\"");
    push_str(&mut out, escaped.as_str());
    push_str(&mut out, "\">");
    assert(out@ =~= pages_404_meta_of(base_path@));
    string_of(out.as_slice())
}

/// The 404 page's refresh target is the site root.
pub proof fn law_404_refresh_targets_root(base_path: Seq<char>)
    ensures
        pages_404_meta_of(base_path) == "<meta http-equiv=\"refresh\" content=\""@
            + attribute_escape("0; url="@ + crate::config::joined_path(base_path, seq![]))
            + "\">"@,
{
    law_pages_root_is_empty_join(base_path);
}

/// The concatenation of a list of lists.
pub open spec fn flatten(s: Seq<Seq<Seq<char>>>) -> Seq<Seq<char>>
    decreases s.len(),
{
    if s.len() == 0 {
        seq![]
    } else {
        flatten(s.drop_last()) + s.last()
    }
}

/// The non-empty values of `s`, in order.
pub open spec fn nonempty_only(s: Seq<Seq<char>>) -> Seq<Seq<char>>
    decreases s.len(),
{
    if s.len() == 0 {
        seq![]
    } else {
        nonempty_only(s.drop_last()) + issue_if(s.last().len() > 0, s.last())
    }
}

/// The single-valued settings that a generated index must show, ending
/// with the footer text.
pub open spec fn base_values(c: SiteConfig, build_year: i32) -> Seq<Seq<char>> {
    seq![
        c.site.title@,
        c.site.description@,
        c.site.canonical_url@,
        c.site.social_image_url@,
        c.site.social_image_alt@,
        c.site.robots@,
        c.site.skip_to_content_label@,
        c.navbar.primary_navigation_label@,
        c.navbar.brand@,
        c.navbar.cv_label@,
        c.navbar.theme_toggle_label@,
        c.navbar.mobile_menu_open_label@,
        c.hero.first_name@,
        c.hero.last_name@,
        c.hero.role@,
        c.hero.location@,
        c.hero.company@,
        c.hero.bio@,
        c.hero.image_alt@,
        c.hero.interests_title@,
        c.hero.offline_title@,
        c.news.heading@,
        c.publications.heading@,
        c.publications.subtitle@,
        c.publications.total_label@,
        c.publications.total_value@,
        c.publications.citations_label@,
        c.publications.citations_value@,
        c.publications.output_heading@,
        c.publications.output_range@,
        c.publications.papers_label@,
        c.publications.pdf_label@,
        c.publications.code_label@,
        c.teaching.heading@,
        c.teaching.semester_prefix@,
        c.activity.heading@,
        c.activity.less_label@,
        c.activity.more_label@,
        c.activity.level_title_prefix@,
        c.scroll_to_top.title@,
        footer_text_of(c.footer, build_year),
    ]
}

/// The values of a publication: title, venue, year, description, image
/// text, authors, tags, then its PDF and code links.
pub open spec fn publication_values(p: crate::config::PublicationItem) -> Seq<Seq<char>> {
    seq![p.title@, p.venue@, decimal(p.year as nat), p.description@, p.image_alt@] + views(
        p.authors@,
    ) + views(p.tags@) + seq![p.pdf_url@, p.code_url@]
}

/// Every configured value, in the order the index is checked: the single
/// settings, then each repeated collection item by item.
pub open spec fn all_values(c: SiteConfig, build_year: i32) -> Seq<Seq<char>> {
    let links = c.navbar.links@;
    let interests = c.hero.interests@;
    let socials = c.hero.social_links@;
    let news = c.news.items@;
    let stats = c.publications.stats@;
    let pubs = c.publications.items@;
    let courses = c.teaching.items@;
    base_values(c, build_year) + flatten(
        Seq::new(links.len(), |i: int| seq![links[i].name@, links[i].href@]),
    ) + Seq::new(interests.len(), |i: int| interests[i].name@) + flatten(
        Seq::new(
            socials.len(),
            |i: int| seq![socials[i].platform@, socials[i].url@, socials[i].username@],
        ),
    ) + flatten(
        Seq::new(
            news.len(),
            |i: int| seq![news[i].date@, news[i].title@, news[i].description@, news[i].tag@],
        ),
    ) + flatten(
        Seq::new(
            stats.len(),
            |i: int| seq![decimal(stats[i].year as nat), decimal(stats[i].count as nat)],
        ),
    ) + flatten(Seq::new(pubs.len(), |i: int| publication_values(pubs[i]))) + flatten(
        Seq::new(
            courses.len(),
            |i: int|
                seq![
                    courses[i].code@,
                    courses[i].title@,
                    courses[i].semester@,
                    courses[i].description@,
                    courses[i].materials_url@,
                ],
        ),
    ) + views(c.activity.months@) + views(c.activity.day_labels@)
}

/// The non-empty configured values that the generated index must contain.
pub open spec fn configured_values_of(c: SiteConfig, build_year: i32) -> Seq<Seq<char>> {
    nonempty_only(all_values(c, build_year))
}

/// Appends the characters of `v` as one more value.
fn push_value(values: &mut Vec<Vec<char>>, v: &str)
    ensures
        list_views(final(values)@) == list_views(old(values)@).push(v@),
{
    values.push(chars_of(v));
    assert(list_views(values@) =~= list_views(old(values)@).push(v@));
}

/// Appends each string of `vs` as one more value, in order.
fn push_values(values: &mut Vec<Vec<char>>, vs: &Vec<String>)
    ensures
        list_views(final(values)@) == list_views(old(values)@) + views(vs@),
{
    let mut i: usize = 0;
    while i < vs.len()
        invariant
            i <= vs.len(),
            list_views(values@) == list_views(old(values)@) + views(vs@).take(i as int),
        decreases vs.len() - i,
    {
        push_value(values, vs[i].as_str());
        assert(views(vs@).take(i + 1) =~= views(vs@).take(i as int).push(vs@[i as int]@));
        i = i + 1;
    }
    assert(views(vs@).take(vs.len() as int) =~= views(vs@));
}

fn push_number(values: &mut Vec<Vec<char>>, n: u16)
    ensures
        list_views(final(values)@) == list_views(old(values)@).push(decimal(n as nat)),
{
    let mut v: Vec<char> = Vec::new();
    push_decimal(&mut v, n as u64);
    assert(v@ =~= decimal(n as nat));
    values.push(v);
    assert(list_views(values@) =~= list_views(old(values)@).push(decimal(n as nat)));
}

fn base_configured_values(config: &SiteConfig, build_year: i32) -> (r: Vec<Vec<char>>)
    ensures
        list_views(r@) == base_values(*config, build_year),
{
    let c = config;
    let fields: [&str; 40] = [
        c.site.title.as_str(),
        c.site.description.as_str(),
        c.site.canonical_url.as_str(),
        c.site.social_image_url.as_str(),
        c.site.social_image_alt.as_str(),
        c.site.robots.as_str(),
        c.site.skip_to_content_label.as_str(),
        c.navbar.primary_navigation_label.as_str(),
        c.navbar.brand.as_str(),
        c.navbar.cv_label.as_str(),
        c.navbar.theme_toggle_label.as_str(),
        c.navbar.mobile_menu_open_label.as_str(),
        c.hero.first_name.as_str(),
        c.hero.last_name.as_str(),
        c.hero.role.as_str(),
        c.hero.location.as_str(),
        c.hero.company.as_str(),
        c.hero.bio.as_str(),
        c.hero.image_alt.as_str(),
        c.hero.interests_title.as_str(),
        c.hero.offline_title.as_str(),
        c.news.heading.as_str(),
        c.publications.heading.as_str(),
        c.publications.subtitle.as_str(),
        c.publications.total_label.as_str(),
        c.publications.total_value.as_str(),
        c.publications.citations_label.as_str(),
        c.publications.citations_value.as_str(),
        c.publications.output_heading.as_str(),
        c.publications.output_range.as_str(),
        c.publications.papers_label.as_str(),
        c.publications.pdf_label.as_str(),
        c.publications.code_label.as_str(),
        c.teaching.heading.as_str(),
        c.teaching.semester_prefix.as_str(),
        c.activity.heading.as_str(),
        c.activity.less_label.as_str(),
        c.activity.more_label.as_str(),
        c.activity.level_title_prefix.as_str(),
        c.scroll_to_top.title.as_str(),
    ];
    let ghost spec_fields = Seq::new(40, |k: int| fields@[k]@);
    assert(spec_fields =~= base_values(*config, build_year).take(40));
    let mut values: Vec<Vec<char>> = Vec::new();
    let mut i: usize = 0;
    while i < 40
        invariant
            i <= 40,
            spec_fields == Seq::new(40, |k: int| fields@[k]@),
            list_views(values@) == spec_fields.take(i as int),
        decreases 40 - i,
    {
        push_value(&mut values, fields[i]);
        assert(spec_fields.take(i + 1) =~= spec_fields.take(i as int).push(spec_fields[i as int]));
        i = i + 1;
    }
    let footer = config.footer_text(build_year);
    push_value(&mut values, footer.as_str());
    assert(list_views(values@) =~= base_values(*config, build_year));
    values
}

fn all_configured_values(config: &SiteConfig, build_year: i32) -> (r: Vec<Vec<char>>)
    ensures
        list_views(r@) == all_values(*config, build_year),
{
    let mut values = base_configured_values(config, build_year);
    let ghost s0 = list_views(values@);

    let links = &config.navbar.links;
    let ghost link_items = Seq::new(links@.len(), |i: int| seq![links@[i].name@, links@[i].href@]);
    let mut i: usize = 0;
    while i < links.len()
        invariant
            i <= links.len(),
            link_items == Seq::new(links@.len(), |i: int| seq![links@[i].name@, links@[i].href@]),
            list_views(values@) == s0 + flatten(link_items.take(i as int)),
        decreases links.len() - i,
    {
        push_value(&mut values, links[i].name.as_str());
        push_value(&mut values, links[i].href.as_str());
        assert(link_items.take(i + 1).drop_last() =~= link_items.take(i as int));
        assert(list_views(values@) =~= s0 + flatten(link_items.take(i + 1)));
        i = i + 1;
    }
    assert(link_items.take(links.len() as int) =~= link_items);
    let ghost s1 = list_views(values@);

    let interests = &config.hero.interests;
    let ghost interest_items = Seq::new(interests@.len(), |i: int| interests@[i].name@);
    let mut i: usize = 0;
    while i < interests.len()
        invariant
            i <= interests.len(),
            interest_items == Seq::new(interests@.len(), |i: int| interests@[i].name@),
            list_views(values@) == s1 + interest_items.take(i as int),
        decreases interests.len() - i,
    {
        push_value(&mut values, interests[i].name.as_str());
        assert(interest_items.take(i + 1) =~= interest_items.take(i as int).push(
            interest_items[i as int],
        ));
        i = i + 1;
    }
    assert(interest_items.take(interests.len() as int) =~= interest_items);
    let ghost s2 = list_views(values@);

    let socials = &config.hero.social_links;
    let ghost social_items = Seq::new(
        socials@.len(),
        |i: int| seq![socials@[i].platform@, socials@[i].url@, socials@[i].username@],
    );
    let mut i: usize = 0;
    while i < socials.len()
        invariant
            i <= socials.len(),
            social_items == Seq::new(
                socials@.len(),
                |i: int| seq![socials@[i].platform@, socials@[i].url@, socials@[i].username@],
            ),
            list_views(values@) == s2 + flatten(social_items.take(i as int)),
        decreases socials.len() - i,
    {
        push_value(&mut values, socials[i].platform.as_str());
        push_value(&mut values, socials[i].url.as_str());
        push_value(&mut values, socials[i].username.as_str());
        assert(social_items.take(i + 1).drop_last() =~= social_items.take(i as int));
        assert(list_views(values@) =~= s2 + flatten(social_items.take(i + 1)));
        i = i + 1;
    }
    assert(social_items.take(socials.len() as int) =~= social_items);
    let ghost s3 = list_views(values@);

    let news = &config.news.items;
    let ghost news_items = Seq::new(
        news@.len(),
        |i: int| seq![news@[i].date@, news@[i].title@, news@[i].description@, news@[i].tag@],
    );
    let mut i: usize = 0;
    while i < news.len()
        invariant
            i <= news.len(),
            news_items == Seq::new(
                news@.len(),
                |i: int| seq![news@[i].date@, news@[i].title@, news@[i].description@, news@[i].tag@],
            ),
            list_views(values@) == s3 + flatten(news_items.take(i as int)),
        decreases news.len() - i,
    {
        push_value(&mut values, news[i].date.as_str());
        push_value(&mut values, news[i].title.as_str());
        push_value(&mut values, news[i].description.as_str());
        push_value(&mut values, news[i].tag.as_str());
        assert(news_items.take(i + 1).drop_last() =~= news_items.take(i as int));
        assert(list_views(values@) =~= s3 + flatten(news_items.take(i + 1)));
        i = i + 1;
    }
    assert(news_items.take(news.len() as int) =~= news_items);
    let ghost s4 = list_views(values@);

    let stats = &config.publications.stats;
    let ghost stat_items = Seq::new(
        stats@.len(),
        |i: int| seq![decimal(stats@[i].year as nat), decimal(stats@[i].count as nat)],
    );
    let mut i: usize = 0;
    while i < stats.len()
        invariant
            i <= stats.len(),
            stat_items == Seq::new(
                stats@.len(),
                |i: int| seq![decimal(stats@[i].year as nat), decimal(stats@[i].count as nat)],
            ),
            list_views(values@) == s4 + flatten(stat_items.take(i as int)),
        decreases stats.len() - i,
    {
        push_number(&mut values, stats[i].year);
        push_number(&mut values, stats[i].count);
        assert(stat_items.take(i + 1).drop_last() =~= stat_items.take(i as int));
        assert(list_views(values@) =~= s4 + flatten(stat_items.take(i + 1)));
        i = i + 1;
    }
    assert(stat_items.take(stats.len() as int) =~= stat_items);
    let ghost s5 = list_views(values@);

    let pubs = &config.publications.items;
    let ghost pub_items = Seq::new(pubs@.len(), |i: int| publication_values(pubs@[i]));
    let mut i: usize = 0;
    while i < pubs.len()
        invariant
            i <= pubs.len(),
            pub_items == Seq::new(pubs@.len(), |i: int| publication_values(pubs@[i])),
            list_views(values@) == s5 + flatten(pub_items.take(i as int)),
        decreases pubs.len() - i,
    {
        let ghost start = list_views(values@);
        let p = &pubs[i];
        push_value(&mut values, p.title.as_str());
        push_value(&mut values, p.venue.as_str());
        push_number(&mut values, p.year);
        push_value(&mut values, p.description.as_str());
        push_value(&mut values, p.image_alt.as_str());
        push_values(&mut values, &p.authors);
        push_values(&mut values, &p.tags);
        push_value(&mut values, p.pdf_url.as_str());
        push_value(&mut values, p.code_url.as_str());
        assert(list_views(values@) =~= start + publication_values(pubs@[i as int]));
        assert(pub_items.take(i + 1).drop_last() =~= pub_items.take(i as int));
        assert(list_views(values@) =~= s5 + flatten(pub_items.take(i + 1)));
        i = i + 1;
    }
    assert(pub_items.take(pubs.len() as int) =~= pub_items);
    let ghost s6 = list_views(values@);

    let courses = &config.teaching.items;
    let ghost course_items = Seq::new(
        courses@.len(),
        |i: int|
            seq![
                courses@[i].code@,
                courses@[i].title@,
                courses@[i].semester@,
                courses@[i].description@,
                courses@[i].materials_url@,
            ],
    );
    let mut i: usize = 0;
    while i < courses.len()
        invariant
            i <= courses.len(),
            course_items == Seq::new(
                courses@.len(),
                |i: int|
                    seq![
                        courses@[i].code@,
                        courses@[i].title@,
                        courses@[i].semester@,
                        courses@[i].description@,
                        courses@[i].materials_url@,
                    ],
            ),
            list_views(values@) == s6 + flatten(course_items.take(i as int)),
        decreases courses.len() - i,
    {
        push_value(&mut values, courses[i].code.as_str());
        push_value(&mut values, courses[i].title.as_str());
        push_value(&mut values, courses[i].semester.as_str());
        push_value(&mut values, courses[i].description.as_str());
        push_value(&mut values, courses[i].materials_url.as_str());
        assert(course_items.take(i + 1).drop_last() =~= course_items.take(i as int));
        assert(list_views(values@) =~= s6 + flatten(course_items.take(i + 1)));
        i = i + 1;
    }
    assert(course_items.take(courses.len() as int) =~= course_items);
    push_values(&mut values, &config.activity.months);
    push_values(&mut values, &config.activity.day_labels);
    assert(list_views(values@) =~= all_values(*config, build_year));
    values
}

/// Every non-empty configured value that the generated index must contain:
/// the single settings and footer text, then navigation, interests, social
/// links, news, statistics, publications, courses and heatmap labels.
pub fn configured_values(config: &SiteConfig, build_year: i32) -> (r: Vec<String>)
    ensures
        views(r@) == configured_values_of(*config, build_year),
{
    let all = all_configured_values(config, build_year);
    let ghost a = list_views(all@);
    let mut out: Vec<String> = Vec::new();
    let mut i: usize = 0;
    while i < all.len()
        invariant
            i <= all.len(),
            a == list_views(all@),
            a == all_values(*config, build_year),
            views(out@) == nonempty_only(a.take(i as int)),
        decreases all.len() - i,
    {
        assert(a.take(i + 1).drop_last() =~= a.take(i as int));
        let ghost before = views(out@);
        if all[i].len() > 0 {
            out.push(string_of(all[i].as_slice()));
            assert(views(out@) =~= before.push(a[i as int]));
        }
        assert(views(out@) =~= nonempty_only(a.take(i + 1)));
        i = i + 1;
    }
    assert(a.take(all.len() as int) =~= a);
    out
}

/// The text of `html` with character references decoded, as
/// `html_escape::decode_html_entities` computes it.
pub uninterp spec fn decoded_html(html: Seq<char>) -> Seq<char>;

/// Decodes HTML character references with
/// `html_escape::decode_html_entities`. Trusted: the result is named; the
/// one further claim is that text without `&` comes back unchanged.
#[verifier::external_body]
fn decode_html_entities(html: &str) -> (r: String)
    ensures
        r@ == decoded_html(html@),
        find_char(html@, '&') < 0 ==> r@ == html@,
{
    html_escape::decode_html_entities(html).into_owned()
}

/// The first value, in order, that `text` does not contain.
pub open spec fn first_missing(values: Seq<Seq<char>>, text: Seq<char>) -> Option<Seq<char>>
    decreases values.len(),
{
    if values.len() == 0 {
        None
    } else if find(text, values[0]) < 0 {
        Some(values[0])
    } else {
        first_missing(values.skip(1), text)
    }
}

/// The asset prefix that a base path demands: `/base/`.
pub open spec fn asset_prefix(base_path: Seq<char>) -> Seq<char> {
    seq!['/'] + trim_char(base_path, '/') + seq!['/']
}

/// Why a generated index fails verification, or `None` when it passes:
/// the first configured value missing from the decoded page, else (for a
/// non-empty base path) stylesheet or script references that miss the base
/// path.
pub open spec fn content_error(
    html: Seq<char>,
    base_path: Seq<char>,
    c: SiteConfig,
    build_year: i32,
) -> Option<Seq<char>> {
    match first_missing(configured_values_of(c, build_year), decoded_html(html)) {
        Some(v) => Some("generated index is missing configured value: "@ + v),
        None => if base_path.len() > 0 && (find(
            html,
            "href=\""@ + asset_prefix(base_path) + "assets/"@,
        ) < 0 || find(html, "src=\""@ + asset_prefix(base_path)) < 0) {
            Some("generated assets do not use base path "@ + asset_prefix(base_path))
        } else {
            None
        },
    }
}

/// When no value is missing, the text contains every value.
proof fn lemma_none_missing(values: Seq<Seq<char>>, text: Seq<char>)
    requires
        first_missing(values, text) is None,
    ensures
        forall|k: int| 0 <= k < values.len() ==> contains(text, #[trigger] values[k]),
    decreases values.len(),
{
    if values.len() > 0 {
        lemma_find_from_bounds(text, values[0], 0);
        lemma_none_missing(values.skip(1), text);
        assert forall|k: int| 0 <= k < values.len() implies contains(
            text,
            #[trigger] values[k],
        ) by {
            if k == 0 {
                assert(crate::text::occurs_at(text, values[0], find(text, values[0])));
            } else {
                assert(values[k] == values.skip(1)[k - 1]);
            }
        }
    }
}

/// A page the content check accepts shows, once its character references
/// are decoded, every configured value; and under a non-empty base path it
/// links a stylesheet or other asset as `href="/base/assets/…` and loads a
/// script or image as `src="/base/…`.
pub proof fn law_accepted_page_shows_values_and_base_assets(
    html: Seq<char>,
    base_path: Seq<char>,
    c: SiteConfig,
    build_year: i32,
)
    requires
        content_error(html, base_path, c, build_year) is None,
    ensures
        forall|k: int|
            0 <= k < configured_values_of(c, build_year).len() ==> contains(
                decoded_html(html),
                #[trigger] configured_values_of(c, build_year)[k],
            ),
        base_path.len() > 0 ==> contains(
            html,
            "href=\""@ + seq!['/'] + trim_char(base_path, '/') + "/assets/"@,
        ),
        base_path.len() > 0 ==> contains(
            html,
            "src=\""@ + seq!['/'] + trim_char(base_path, '/') + seq!['/'],
        ),
{
    lemma_none_missing(configured_values_of(c, build_year), decoded_html(html));
    if base_path.len() > 0 {
        let href = "href=\""@ + asset_prefix(base_path) + "assets/"@;
        let src = "src=\""@ + asset_prefix(base_path);
        lemma_find_from_bounds(html, href, 0);
        lemma_find_from_bounds(html, src, 0);
        assert(crate::text::occurs_at(html, href, find(html, href)));
        assert(crate::text::occurs_at(html, src, find(html, src)));
        assert(href =~= "href=\""@ + seq!['/'] + trim_char(base_path, '/') + "/assets/"@) by {
            reveal_strlit("assets/");
            reveal_strlit("/assets/");
        }
        assert(src =~= "src=\""@ + seq!['/'] + trim_char(base_path, '/') + seq!['/']);
    }
}

/// Checks that a generated index shows every configured value and, under a
/// base path, references its assets through it.
pub fn verify_configured_content(
    html: &str,
    base_path: &str,
    config: &SiteConfig,
    build_year: i32,
) -> (r: Result<(), String>)
    ensures
        r is Ok <==> content_error(html@, base_path@, *config, build_year) is None,
        r matches Err(m) ==> content_error(html@, base_path@, *config, build_year) == Some(m@),
        find_char(html@, '&') < 0 ==> decoded_html(html@) == html@,
        r is Ok && base_path@.len() > 0 ==> contains(
            html@,
            "href=\""@ + seq!['/'] + trim_char(base_path@, '/') + "/assets/"@,
        ),
        r is Ok && base_path@.len() > 0 ==> contains(
            html@,
            "src=\""@ + seq!['/'] + trim_char(base_path@, '/') + seq!['/'],
        ),
{
    let decoded = decode_html_entities(html);
    let decoded_chars = chars_of(decoded.as_str());
    let values = configured_values(config, build_year);
    let ghost vs = views(values@);
    let mut i: usize = 0;
    assert(vs.skip(0) =~= vs);
    while i < values.len()
        invariant
            i <= values.len(),
            vs == views(values@),
            vs == configured_values_of(*config, build_year),
            decoded_chars@ == decoded_html(html@),
            find_char(html@, '&') < 0 ==> decoded_html(html@) == html@,
            first_missing(vs, decoded_html(html@)) == first_missing(vs.skip(i as int), decoded_html(html@)),
        decreases values.len() - i,
    {
        assert(vs.skip(i as int)[0] == values@[i as int]@);
        assert(vs.skip(i as int).skip(1) =~= vs.skip(i + 1));
        let expected = chars_of(values[i].as_str());
        if find_exec(decoded_chars.as_slice(), expected.as_slice()).is_none() {
            let mut m: Vec<char> = Vec::new();
            push_str(&mut m, "generated index is missing configured value: ");
            push_all(&mut m, expected.as_slice());
            return Err(string_of(m.as_slice()));
        }
        i = i + 1;
    }
    assert(vs.skip(values.len() as int) =~= Seq::<Seq<char>>::empty());
    if !base_path.is_empty() {
        let base_chars = chars_of(base_path);
        let trimmed = trim_char_exec(base_chars.as_slice(), '/');
        let mut prefix: Vec<char> = Vec::new();
        prefix.push('/');
        push_all(&mut prefix, trimmed.as_slice());
        prefix.push('/');
        assert(prefix@ =~= asset_prefix(base_path@));
        let html_chars = chars_of(html);
        let mut href: Vec<char> = Vec::new();
        push_str(&mut href, "href=\"");
        push_all(&mut href, prefix.as_slice());
        push_str(&mut href, "assets/");
        let mut src: Vec<char> = Vec::new();
        push_str(&mut src, "src=\"");
        push_all(&mut src, prefix.as_slice());
        if find_exec(html_chars.as_slice(), href.as_slice()).is_none() || find_exec(
            html_chars.as_slice(),
            src.as_slice(),
        ).is_none() {
            let mut m: Vec<char> = Vec::new();
            push_str(&mut m, "generated assets do not use base path ");
            push_all(&mut m, prefix.as_slice());
            return Err(string_of(m.as_slice()));
        }
    }
    proof {
        law_accepted_page_shows_values_and_base_assets(html@, base_path@, *config, build_year);
    }
    Ok(())
}

pub proof fn lemma_flatten_contains(s: Seq<Seq<Seq<char>>>, i: int, j: int)
    requires
        0 <= i < s.len(),
        0 <= j < s[i].len(),
    ensures
        flatten(s).contains(s[i][j]),
    decreases s.len(),
{
    if i == s.len() - 1 {
        let f = flatten(s.drop_last());
        assert((f + s.last())[f.len() + j] == s[i][j]);
    } else {
        lemma_flatten_contains(s.drop_last(), i, j);
        let k = choose|k: int| 0 <= k < flatten(s.drop_last()).len() && flatten(s.drop_last())[k]
            == s[i][j];
        assert((flatten(s.drop_last()) + s.last())[k] == s[i][j]);
    }
}

pub proof fn lemma_nonempty_only_contains(s: Seq<Seq<char>>, x: Seq<char>)
    requires
        s.contains(x),
        x.len() > 0,
    ensures
        nonempty_only(s).contains(x),
    decreases s.len(),
{
    let k = choose|k: int| 0 <= k < s.len() && s[k] == x;
    if k == s.len() - 1 {
        let n = nonempty_only(s.drop_last());
        assert((n + issue_if(true, x))[n.len() as int] == x);
    } else {
        assert(s.drop_last()[k] == x);
        lemma_nonempty_only_contains(s.drop_last(), x);
        let n = nonempty_only(s.drop_last());
        let q = choose|q: int| 0 <= q < n.len() && n[q] == x;
        assert((n + issue_if(s.last().len() > 0, s.last()))[q] == x);
    }
}

pub proof fn lemma_contains_in_concat(a: Seq<Seq<char>>, b: Seq<Seq<char>>, x: Seq<char>)
    ensures
        a.contains(x) ==> (a + b).contains(x),
        b.contains(x) ==> (a + b).contains(x),
{
    if a.contains(x) {
        let k = choose|k: int| 0 <= k < a.len() && a[k] == x;
        assert((a + b)[k] == x);
    }
    if b.contains(x) {
        let k = choose|k: int| 0 <= k < b.len() && b[k] == x;
        assert((a + b)[a.len() + k] == x);
    }
}

/// The verified index covers every repeated collection: each non-empty
/// news, publication and course title is among the configured values, and
/// no configured value is empty.
pub proof fn law_configured_values_cover_titles(c: SiteConfig, build_year: i32)
    ensures
        forall|i: int|
            0 <= i < c.news.items@.len() && c.news.items@[i].title@.len() > 0
                ==> configured_values_of(c, build_year).contains(
                #[trigger] c.news.items@[i].title@,
            ),
        forall|i: int|
            0 <= i < c.publications.items@.len() && c.publications.items@[i].title@.len() > 0
                ==> configured_values_of(c, build_year).contains(
                #[trigger] c.publications.items@[i].title@,
            ),
        forall|i: int|
            0 <= i < c.teaching.items@.len() && c.teaching.items@[i].title@.len() > 0
                ==> configured_values_of(c, build_year).contains(
                #[trigger] c.teaching.items@[i].title@,
            ),
        forall|k: int|
            0 <= k < configured_values_of(c, build_year).len() ==> (#[trigger] configured_values_of(
                c,
                build_year,
            )[k]).len() > 0,
{
    let links = c.navbar.links@;
    let interests = c.hero.interests@;
    let socials = c.hero.social_links@;
    let news = c.news.items@;
    let stats = c.publications.stats@;
    let pubs = c.publications.items@;
    let courses = c.teaching.items@;
    let p0 = base_values(c, build_year);
    let p1 = flatten(Seq::new(links.len(), |i: int| seq![links[i].name@, links[i].href@]));
    let p2 = Seq::new(interests.len(), |i: int| interests[i].name@);
    let p3 = flatten(
        Seq::new(
            socials.len(),
            |i: int| seq![socials[i].platform@, socials[i].url@, socials[i].username@],
        ),
    );
    let news_items = Seq::new(
        news.len(),
        |i: int| seq![news[i].date@, news[i].title@, news[i].description@, news[i].tag@],
    );
    let p4 = flatten(news_items);
    let p5 = flatten(
        Seq::new(
            stats.len(),
            |i: int| seq![decimal(stats[i].year as nat), decimal(stats[i].count as nat)],
        ),
    );
    let pub_items = Seq::new(pubs.len(), |i: int| publication_values(pubs[i]));
    let p6 = flatten(pub_items);
    let course_items = Seq::new(
        courses.len(),
        |i: int|
            seq![
                courses[i].code@,
                courses[i].title@,
                courses[i].semester@,
                courses[i].description@,
                courses[i].materials_url@,
            ],
    );
    let p7 = flatten(course_items);
    let p8 = views(c.activity.months@);
    let p9 = views(c.activity.day_labels@);
    let all = all_values(c, build_year);
    assert(all == p0 + p1 + p2 + p3 + p4 + p5 + p6 + p7 + p8 + p9);
    assert forall|i: int|
        0 <= i < news.len() && news[i].title@.len() > 0 implies configured_values_of(
        c,
        build_year,
    ).contains(#[trigger] news[i].title@) by {
        assert(news_items[i][1] == news[i].title@);
        lemma_flatten_contains(news_items, i, 1);
        lemma_contains_in_concat(p0 + p1 + p2 + p3, p4, news[i].title@);
        lemma_contains_in_concat(p0 + p1 + p2 + p3 + p4, p5 + p6 + p7 + p8 + p9, news[i].title@);
        assert(p0 + p1 + p2 + p3 + p4 + (p5 + p6 + p7 + p8 + p9) =~= all);
        lemma_nonempty_only_contains(all, news[i].title@);
    }
    assert forall|i: int|
        0 <= i < pubs.len() && pubs[i].title@.len() > 0 implies configured_values_of(
        c,
        build_year,
    ).contains(#[trigger] pubs[i].title@) by {
        assert(pub_items[i][0] == pubs[i].title@);
        lemma_flatten_contains(pub_items, i, 0);
        lemma_contains_in_concat(p0 + p1 + p2 + p3 + p4 + p5, p6, pubs[i].title@);
        lemma_contains_in_concat(p0 + p1 + p2 + p3 + p4 + p5 + p6, p7 + p8 + p9, pubs[i].title@);
        assert(p0 + p1 + p2 + p3 + p4 + p5 + p6 + (p7 + p8 + p9) =~= all);
        lemma_nonempty_only_contains(all, pubs[i].title@);
    }
    assert forall|i: int|
        0 <= i < courses.len() && courses[i].title@.len() > 0 implies configured_values_of(
        c,
        build_year,
    ).contains(#[trigger] courses[i].title@) by {
        assert(course_items[i][1] == courses[i].title@);
        lemma_flatten_contains(course_items, i, 1);
        lemma_contains_in_concat(p0 + p1 + p2 + p3 + p4 + p5 + p6, p7, courses[i].title@);
        lemma_contains_in_concat(p0 + p1 + p2 + p3 + p4 + p5 + p6 + p7, p8 + p9, courses[i].title@);
        assert(p0 + p1 + p2 + p3 + p4 + p5 + p6 + p7 + (p8 + p9) =~= all);
        lemma_nonempty_only_contains(all, courses[i].title@);
    }
    lemma_nonempty_only_nonempty(all);
}

pub proof fn lemma_nonempty_only_nonempty(s: Seq<Seq<char>>)
    ensures
        forall|k: int| 0 <= k < nonempty_only(s).len() ==> (#[trigger] nonempty_only(s)[k]).len() > 0,
    decreases s.len(),
{
    if s.len() > 0 {
        lemma_nonempty_only_nonempty(s.drop_last());
        let n = nonempty_only(s.drop_last());
        let t = issue_if(s.last().len() > 0, s.last());
        assert forall|k: int| 0 <= k < (n + t).len() implies (#[trigger] (n + t)[k]).len() > 0 by {
            if k >= n.len() {
                assert((n + t)[k] == t[k - n.len()]);
            } else {
                assert((n + t)[k] == n[k]);
            }
        }
    }
}

/// The views of `(tag, attribute, value)` triples.
pub open spec fn triple_views(s: Seq<(String, String, String)>) -> Seq<
    (Seq<char>, Seq<char>, Seq<char>),
> {
    Seq::new(s.len(), |i: int| (s[i].0@, s[i].1@, s[i].2@))
}

/// The views of `(first, second)` string pairs.
pub open spec fn pair_views(s: Seq<(String, String)>) -> Seq<(Seq<char>, Seq<char>)> {
    Seq::new(s.len(), |i: int| (s[i].0@, s[i].1@))
}

/// The views of optional strings.
pub open spec fn option_views(s: Seq<Option<String>>) -> Seq<Option<Seq<char>>> {
    Seq::new(s.len(), |i: int| opt_view(s[i]))
}

/// The `(attribute, value)` settings of `set` that name `tag`, in order.
pub open spec fn tag_settings(set: Seq<(Seq<char>, Seq<char>, Seq<char>)>, tag: Seq<char>) -> Seq<
    (Seq<char>, Seq<char>),
>
    decreases set.len(),
{
    if set.len() == 0 {
        seq![]
    } else {
        tag_settings(set.drop_last(), tag) + if set.last().0 == tag {
            seq![(set.last().1, set.last().2)]
        } else {
            seq![]
        }
    }
}

/// The change a `/./`-prefixed reference in attribute `name` needs, if any.
pub open spec fn reference_update(name: Seq<char>, value: Option<Seq<char>>) -> Seq<
    (Seq<char>, Seq<char>),
> {
    match value {
        Some(v) => match normalized_reference(v) {
            Some(w) => seq![(name, w)],
            None => seq![],
        },
        None => seq![],
    }
}

/// The normalised references among the attributes `names`, whose values
/// on the element are `values` (position by position; a missing value
/// counts as absent).
pub open spec fn reference_settings(names: Seq<Seq<char>>, values: Seq<Option<Seq<char>>>) -> Seq<
    (Seq<char>, Seq<char>),
>
    decreases names.len(),
{
    if names.len() == 0 {
        seq![]
    } else {
        let k = names.len() - 1;
        reference_settings(names.drop_last(), values) + reference_update(
            names.last(),
            if k < values.len() {
                values[k]
            } else {
                None
            },
        )
    }
}

/// The HTML that `append` adds to elements named `tag`, in order.
pub open spec fn tag_appends(append: Seq<(Seq<char>, Seq<char>)>, tag: Seq<char>) -> Seq<
    Seq<char>,
>
    decreases append.len(),
{
    if append.len() == 0 {
        seq![]
    } else {
        tag_appends(append.drop_last(), tag) + if append.last().0 == tag {
            seq![append.last().1]
        } else {
            seq![]
        }
    }
}

/// Appends the change a reference in attribute `name` needs.
fn push_reference_update(out: &mut Vec<(String, String)>, name: &String, value: &Option<String>)
    ensures
        pair_views(final(out)@) == pair_views(old(out)@) + reference_update(name@, opt_view(*value)),
{
    let ghost before = out@;
    if let Some(v) = value {
        if let Some(w) = normalized_root_reference(v.as_str()) {
            out.push((name.clone(), w));
        }
    }
    assert(pair_views(out@) =~= pair_views(before) + reference_update(name@, opt_view(*value)));
}

/// The edits made on one element with tag name `tag` whose attributes
/// `normalize` hold `values`: the attributes to set, in order (first those
/// `set` gives for the tag, then the normalised references), and the HTML
/// to append to it (those `append` gives for the tag).
pub fn element_edits(
    set: &[(String, String, String)],
    normalize: &[String],
    append: &[(String, String)],
    tag: &str,
    values: Vec<Option<String>>,
) -> (r: (Vec<(String, String)>, Vec<String>))
    ensures
        pair_views(r.0@) == tag_settings(triple_views(set@), tag@) + reference_settings(
            views(normalize@),
            option_views(values@),
        ),
        views(r.1@) == tag_appends(pair_views(append@), tag@),
{
    let t = chars_of(tag);
    let mut sets: Vec<(String, String)> = Vec::new();
    let mut i: usize = 0;
    while i < set.len()
        invariant
            i <= set.len(),
            t@ == tag@,
            pair_views(sets@) == tag_settings(triple_views(set@).take(i as int), tag@),
        decreases set.len() - i,
    {
        assert(triple_views(set@).take(i + 1).drop_last() =~= triple_views(set@).take(i as int));
        let ghost before = sets@;
        let name = chars_of(set[i].0.as_str());
        if chars_equal(name.as_slice(), t.as_slice()) {
            sets.push((set[i].1.clone(), set[i].2.clone()));
        }
        assert(pair_views(sets@) =~= pair_views(before) + if triple_views(set@)[i as int].0
            == tag@ {
            seq![(triple_views(set@)[i as int].1, triple_views(set@)[i as int].2)]
        } else {
            seq![]
        });
        i = i + 1;
    }
    assert(triple_views(set@).take(set.len() as int) =~= triple_views(set@));
    let ghost fixed = pair_views(sets@);
    let mut k: usize = 0;
    while k < normalize.len()
        invariant
            k <= normalize.len(),
            pair_views(sets@) == fixed + reference_settings(
                views(normalize@).take(k as int),
                option_views(values@),
            ),
        decreases normalize.len() - k,
    {
        assert(views(normalize@).take(k + 1).drop_last() =~= views(normalize@).take(k as int));
        let absent: Option<String> = None;
        let value = if k < values.len() {
            &values[k]
        } else {
            &absent
        };
        push_reference_update(&mut sets, &normalize[k], value);
        assert(pair_views(sets@) =~= fixed + reference_settings(
            views(normalize@).take(k + 1),
            option_views(values@),
        ));
        k = k + 1;
    }
    assert(views(normalize@).take(normalize.len() as int) =~= views(normalize@));
    let mut appends: Vec<String> = Vec::new();
    let mut j: usize = 0;
    while j < append.len()
        invariant
            j <= append.len(),
            t@ == tag@,
            views(appends@) == tag_appends(pair_views(append@).take(j as int), tag@),
        decreases append.len() - j,
    {
        assert(pair_views(append@).take(j + 1).drop_last() =~= pair_views(append@).take(j as int));
        let ghost before = appends@;
        let name = chars_of(append[j].0.as_str());
        if chars_equal(name.as_slice(), t.as_slice()) {
            appends.push(append[j].1.clone());
        }
        assert(views(appends@) =~= views(before) + if pair_views(append@)[j as int].0 == tag@ {
            seq![pair_views(append@)[j as int].1]
        } else {
            seq![]
        });
        j = j + 1;
    }
    assert(pair_views(append@).take(append.len() as int) =~= pair_views(append@));
    (sets, appends)
}

/// The view of a page or of an error message.
pub open spec fn result_view(r: Result<String, String>) -> Result<Seq<char>, Seq<char>> {
    match r {
        Ok(h) => Ok(h@),
        Err(e) => Err(e@),
    }
}

/// What `lol_html::rewrite_str` returns for `source` when each element
/// matching `selector` receives the edits `element_edits` lists for its tag
/// name and its values of the attributes `normalize`: `Ok` with the page,
/// or `Err` with the text of the selector or rewriting error.
pub uninterp spec fn rewritten_html(
    source: Seq<char>,
    selector: Seq<char>,
    set: Seq<(Seq<char>, Seq<char>, Seq<char>)>,
    normalize: Seq<Seq<char>>,
    append: Seq<(Seq<char>, Seq<char>)>,
) -> Result<Seq<char>, Seq<char>>;

/// Rewrites `source` with `lol_html::rewrite_str`: every element matching
/// `selector` gets the edits that `element_edits` computes for it. Trusted:
/// the outcome is named, nothing more is claimed of it.
#[verifier::external_body]
fn rewrite_html(
    source: &str,
    selector: &str,
    set: &[(String, String, String)],
    normalize: &[String],
    append: &[(String, String)],
) -> (r: Result<String, String>)
    ensures
        result_view(r) == rewritten_html(
            source@,
            selector@,
            triple_views(set@),
            views(normalize@),
            pair_views(append@),
        ),
{
    let selector = selector.parse::<Selector>().map_err(|error| error.to_string())?;
    let handlers = ElementContentHandlers::default().element(move |e: &mut Element| {
        let values = normalize.iter().map(|name| e.get_attribute(name)).collect();
        let (sets, appends) = element_edits(set, normalize, append, &e.tag_name(), values);
        for (name, value) in sets {
            e.set_attribute(&name, &value)?;
        }
        for html in appends {
            e.append(&html, ContentType::Html);
        }
        Ok(())
    });
    let settings = RewriteStrSettings::new()
        .append_element_content_handler((Cow::Owned(selector), handlers));
    rewrite_str(source, settings).map_err(|error| error.to_string())
}

/// The elements of a generated index that the finaliser edits.
pub open spec fn index_selector() -> Seq<char> {
    "html, body, [href], [src]"@
}

/// The index attributes the finaliser sets: the document language on
/// `<html>` and the theme style on `<body>`.
pub open spec fn index_settings(language: Seq<char>, body_style: Seq<char>) -> Seq<
    (Seq<char>, Seq<char>, Seq<char>),
> {
    seq![("html"@, "lang"@, language), ("body"@, "style"@, body_style)]
}

/// The attributes whose `/./` references the finaliser normalises.
pub open spec fn index_references() -> Seq<Seq<char>> {
    seq!["href"@, "src"@]
}

/// The rewritten index: the language and theme style set, and `/./`
/// references in `href` and `src` made root-relative.
pub open spec fn finalized_index(
    source: Seq<char>,
    language: Seq<char>,
    body_style: Seq<char>,
) -> Result<Seq<char>, Seq<char>> {
    rewritten_html(
        source,
        index_selector(),
        index_settings(language, body_style),
        index_references(),
        seq![],
    )
}

/// Finalizes a generated index: rewrites its language, body theme style and
/// root-relative references, then checks the rewritten page as
/// `verify_configured_content` does. Returns the page to write, or why it
/// was rejected.
pub fn finalize_index(
    source: &str,
    base_path: &str,
    config: &SiteConfig,
    build_year: i32,
) -> (r: Result<String, String>)
    ensures
        r matches Ok(h) ==> finalized_index(
            source@,
            config.site.language@,
            body_theme_style(*config),
        ) == Ok::<Seq<char>, Seq<char>>(h@) && content_error(h@, base_path@, *config, build_year)
            is None,
        finalized_index(source@, config.site.language@, body_theme_style(*config)) matches Ok(h)
            ==> {
            &&& (r is Ok <==> content_error(h, base_path@, *config, build_year) is None)
            &&& (r matches Err(m) ==> content_error(h, base_path@, *config, build_year) == Some(
                m@,
            ))
        },
        finalized_index(source@, config.site.language@, body_theme_style(*config)) matches Err(e)
            ==> (r matches Err(m) && m@ == e),
{
    proof {
        reveal_strlit("html, body, [href], [src]");
        reveal_strlit("html");
        reveal_strlit("body");
        reveal_strlit("lang");
        reveal_strlit("style");
        reveal_strlit("href");
        reveal_strlit("src");
    }
    let style = body_theme_variables(config);
    let mut set: Vec<(String, String, String)> = Vec::new();
    set.push((string_of(chars_of("html").as_slice()), string_of(chars_of("lang").as_slice()),
        config.site.language.clone()));
    set.push((string_of(chars_of("body").as_slice()), string_of(chars_of("style").as_slice()),
        style));
    let mut normalize: Vec<String> = Vec::new();
    normalize.push(string_of(chars_of("href").as_slice()));
    normalize.push(string_of(chars_of("src").as_slice()));
    let append: Vec<(String, String)> = Vec::new();
    let selector = string_of(chars_of("html, body, [href], [src]").as_slice());
    assert(triple_views(set@) =~= index_settings(config.site.language@, body_theme_style(*config)));
    assert(views(normalize@) =~= index_references());
    assert(pair_views(append@) =~= Seq::<(Seq<char>, Seq<char>)>::empty());
    let rewritten = rewrite_html(
        source,
        selector.as_str(),
        set.as_slice(),
        normalize.as_slice(),
        append.as_slice(),
    );
    match rewritten {
        Ok(html) => match verify_configured_content(html.as_str(), base_path, config, build_year) {
            Ok(()) => Ok(html),
            Err(m) => Err(m),
        },
        Err(e) => Err(e),
    }
}

/// The 404 page made from `source`: `meta` appended to `<head>` and
/// `data-pages-404="true"` set on `<body>`.
pub open spec fn pages_404_rewrite(source: Seq<char>, meta: Seq<char>) -> Result<
    Seq<char>,
    Seq<char>,
> {
    rewritten_html(
        source,
        "head, body"@,
        seq![("body"@, "data-pages-404"@, "true"@)],
        seq![],
        seq![("head"@, meta)],
    )
}

/// The 404 page for an index: the index with the refresh tag to the site
/// root appended to its head and its body marked as the 404 page; `Err`
/// with the rewriting error's text when the index cannot be rewritten.
pub fn pages_404_document(source: &str, base_path: &str) -> (r: Result<String, String>)
    ensures
        result_view(r) == pages_404_rewrite(source@, pages_404_meta_of(base_path@)),
{
    proof {
        reveal_strlit("head, body");
        reveal_strlit("head");
        reveal_strlit("body");
        reveal_strlit("data-pages-404");
        reveal_strlit("true");
    }
    let meta = pages_404_meta(base_path);
    let mut set: Vec<(String, String, String)> = Vec::new();
    set.push((string_of(chars_of("body").as_slice()), string_of(
        chars_of("data-pages-404").as_slice(),
    ), string_of(chars_of("true").as_slice())));
    let normalize: Vec<String> = Vec::new();
    let mut append: Vec<(String, String)> = Vec::new();
    append.push((string_of(chars_of("head").as_slice()), meta));
    let selector = string_of(chars_of("head, body").as_slice());
    assert(triple_views(set@) =~= seq![("body"@, "data-pages-404"@, "true"@)]);
    assert(views(normalize@) =~= Seq::<Seq<char>>::empty());
    assert(pair_views(append@) =~= seq![("head"@, pages_404_meta_of(base_path@))]);
    rewrite_html(source, selector.as_str(), set.as_slice(), normalize.as_slice(), append.as_slice())
}

} // verus!
