//! The cross-field rules of a site configuration. Every rule contributes
//! issue messages in a fixed order; a configuration is valid exactly when
//! no rule reports an issue.
use vstd::prelude::*;

use super::{anchor_views, ConfigError, NavLink, NewsItem, PublicationItem, SiteConfig, TeachingItem};
use crate::text::{
    chars_equal, chars_of, decimal, find_char, find_char_exec, is_ascii_alphanumeric, is_blank,
    is_blank_exec, join, push_all, push_decimal, push_str, slice_chars, string_of, views,
};

verus! {

/// `msg` as the only issue when `b` holds, no issue otherwise.
pub open spec fn issue_if(b: bool, msg: Seq<char>) -> Seq<Seq<char>> {
    if b {
        seq![msg]
    } else {
        seq![]
    }
}

/// The views of a list of character vectors.
pub open spec fn list_views(v: Seq<Vec<char>>) -> Seq<Seq<char>> {
    Seq::new(v.len(), |i: int| v[i]@)
}

/// A field name with a list index: `prefix`, the index, `suffix`.
pub open spec fn indexed(prefix: Seq<char>, index: int, suffix: Seq<char>) -> Seq<char> {
    prefix + decimal(index as nat) + suffix
}

fn push_issue(issues: &mut Vec<String>, msg: &[char])
    ensures
        views(final(issues)@) == views(old(issues)@).push(msg@),
{
    issues.push(string_of(msg));
    assert(views(issues@) =~= views(old(issues)@).push(msg@));
}

fn indexed_field(prefix: &str, index: usize, suffix: &str) -> (r: Vec<char>)
    ensures
        r@ == indexed(prefix@, index as int, suffix@),
{
    let mut r: Vec<char> = Vec::new();
    push_str(&mut r, prefix);
    push_decimal(&mut r, index as u64);
    push_str(&mut r, suffix);
    assert(r@ =~= indexed(prefix@, index as int, suffix@));
    r
}

fn contains_chars(list: &Vec<Vec<char>>, x: &[char]) -> (r: bool)
    ensures
        r == list_views(list@).contains(x@),
{
    let mut i: usize = 0;
    while i < list.len()
        invariant
            i <= list.len(),
            forall|j: int| 0 <= j < i ==> list@[j]@ != x@,
        decreases list.len() - i,
    {
        if chars_equal(list[i].as_slice(), x) {
            assert(list_views(list@)[i as int] == x@);
            return true;
        }
        i = i + 1;
    }
    proof {
        if list_views(list@).contains(x@) {
            let k = choose|k: int| 0 <= k < list_views(list@).len() && list_views(list@)[k] == x@;
            assert(list@[k]@ == x@);
        }
    }
    false
}

// ---------------------------------------------------------------------------
// Required strings

/// The issue for a required field whose value is blank.
pub open spec fn blank_issue(field: Seq<char>, value: Seq<char>) -> Seq<Seq<char>> {
    issue_if(is_blank(value), field + " must not be empty"@)
}

/// The blank-value issues of a list of `(field, value)` pairs, in order.
pub open spec fn blank_issues(fields: Seq<(Seq<char>, Seq<char>)>) -> Seq<Seq<char>>
    decreases fields.len(),
{
    if fields.len() == 0 {
        seq![]
    } else {
        blank_issues(fields.drop_last()) + blank_issue(fields.last().0, fields.last().1)
    }
}

/// The required text fields, in checking order.
pub open spec fn required_fields(c: SiteConfig) -> Seq<(Seq<char>, Seq<char>)> {
    seq![
        ("site.title"@, c.site.title@),
        ("site.description"@, c.site.description@),
        ("site.language"@, c.site.language@),
        ("site.theme_storage_key"@, c.site.theme_storage_key@),
        ("navbar.brand"@, c.navbar.brand@),
        ("hero.first_name"@, c.hero.first_name@),
        ("hero.last_name"@, c.hero.last_name@),
        ("hero.role"@, c.hero.role@),
        ("hero.bio"@, c.hero.bio@),
        ("news.heading"@, c.news.heading@),
        ("publications.heading"@, c.publications.heading@),
        ("teaching.heading"@, c.teaching.heading@),
        ("activity.heading"@, c.activity.heading@),
        ("footer.text_template"@, c.footer.text_template@),
    ]
}

/// Every required text field must hold more than white space.
pub open spec fn required_string_issues(c: SiteConfig) -> Seq<Seq<char>> {
    blank_issues(required_fields(c))
}

fn check_required(issues: &mut Vec<String>, field: &str, value: &str)
    ensures
        views(final(issues)@) == views(old(issues)@) + blank_issue(field@, value@),
{
    let v = chars_of(value);
    if is_blank_exec(v.as_slice()) {
        let mut m = chars_of(field);
        push_str(&mut m, " must not be empty");
        push_issue(issues, m.as_slice());
    }
    assert(views(issues@) =~= views(old(issues)@) + blank_issue(field@, value@));
}

// ---------------------------------------------------------------------------
// Anchors

/// A section anchor: non-empty ASCII letters, digits and hyphens.
pub open spec fn anchor_valid(a: Seq<char>) -> bool {
    a.len() > 0 && forall|i: int|
        0 <= i < a.len() ==> (is_ascii_alphanumeric(#[trigger] a[i]) || a[i] == '-')
}

/// Scans the anchors in order: the anchors accepted so far, and the issues
/// for invalid or repeated ones.
pub open spec fn anchor_scan(anchors: Seq<Seq<char>>) -> (Seq<Seq<char>>, Seq<Seq<char>>)
    decreases anchors.len(),
{
    if anchors.len() == 0 {
        (seq![], seq![])
    } else {
        let prev = anchor_scan(anchors.drop_last());
        let a = anchors.last();
        if !anchor_valid(a) {
            (prev.0, prev.1.push("section anchor `"@ + a + "` is invalid"@))
        } else if prev.0.contains(a) {
            (prev.0, prev.1.push("duplicate section anchor `"@ + a + "`"@))
        } else {
            (prev.0.push(a), prev.1)
        }
    }
}

/// The issue for a navigation link `#target` whose target is not a known
/// section anchor.
pub open spec fn nav_target_issue(index: int, href: Seq<char>, known: Seq<Seq<char>>) -> Seq<
    Seq<char>,
> {
    issue_if(
        href.len() > 1 && href[0] == '#' && !known.contains(href.skip(1)),
        indexed("navbar.links["@, index, "].href targets unknown anchor `"@) + href.skip(1) + "`"@,
    )
}

/// The issues of the navigation links, in order.
pub open spec fn nav_target_issues(links: Seq<NavLink>, known: Seq<Seq<char>>) -> Seq<Seq<char>>
    decreases links.len(),
{
    if links.len() == 0 {
        seq![]
    } else {
        nav_target_issues(links.drop_last(), known) + nav_target_issue(
            links.len() - 1,
            links.last().href@,
            known,
        )
    }
}

/// Anchors must be valid and distinct; in-page navigation links must target
/// one of them.
pub open spec fn anchor_issues(c: SiteConfig) -> Seq<Seq<char>> {
    let scan = anchor_scan(anchor_views(c));
    scan.1 + nav_target_issues(c.navbar.links@, scan.0)
}

fn anchor_valid_exec(a: &[char]) -> (r: bool)
    ensures
        r == anchor_valid(a@),
{
    if a.len() == 0 {
        return false;
    }
    let mut i: usize = 0;
    while i < a.len()
        invariant
            i <= a.len(),
            forall|j: int| 0 <= j < i ==> (is_ascii_alphanumeric(#[trigger] a@[j]) || a@[j] == '-'),
        decreases a.len() - i,
    {
        let c = a[i];
        if !(('a' <= c && c <= 'z') || ('A' <= c && c <= 'Z') || ('0' <= c && c <= '9') || c
            == '-') {
            return false;
        }
        i = i + 1;
    }
    true
}

// ---------------------------------------------------------------------------
// URLs

/// The scheme that `url::Url::parse` finds in `value`, or `None` when the
/// value does not parse as an absolute URL.
pub uninterp spec fn url_scheme(value: Seq<char>) -> Option<Seq<char>>;

/// Parses `value` with `url::Url::parse` and returns the parsed scheme.
/// Trusted: the result is whatever the `url` crate reports; nothing about
/// the parser beyond being a function of its input is claimed.
#[verifier::external_body]
fn parse_url_scheme(value: &str) -> (r: Option<String>)
    ensures
        r matches Some(s) ==> url_scheme(value@) == Some(s@),
        r is None ==> url_scheme(value@) is None,
{
    match url::Url::parse(value) {
        Ok(url) => Some(url.scheme().to_string()),
        Err(_) => None,
    }
}

/// The view of an optional string.
pub open spec fn opt_view(o: Option<String>) -> Option<Seq<char>> {
    match o {
        Some(s) => Some(s@),
        None => None,
    }
}

/// Whether a parsed scheme is accepted: `http` or `https`, and `mailto`
/// where mail links are allowed. An unparsable URL is never accepted.
pub open spec fn scheme_allowed(scheme: Option<Seq<char>>, allow_mailto: bool) -> bool {
    match scheme {
        Some(s) => s == "http"@ || s == "https"@ || (allow_mailto && s == "mailto"@),
        None => false,
    }
}

/// Decides whether the scheme that URL parsing produced is an allowed one.
pub fn allowed_url_scheme(scheme: &Option<String>, allow_mailto: bool) -> (r: bool)
    ensures
        r == scheme_allowed(opt_view(*scheme), allow_mailto),
{
    match scheme {
        Some(s) => {
            let cs = chars_of(s.as_str());
            let http = chars_of("http");
            let https = chars_of("https");
            let mailto = chars_of("mailto");
            chars_equal(cs.as_slice(), http.as_slice()) || chars_equal(
                cs.as_slice(),
                https.as_slice(),
            ) || (allow_mailto && chars_equal(cs.as_slice(), mailto.as_slice()))
        },
        None => false,
    }
}

/// The issue for a value that must be an absolute URL with an allowed scheme.
pub open spec fn external_url_issue(field: Seq<char>, value: Seq<char>, allow_mailto: bool) -> Seq<
    Seq<char>,
> {
    issue_if(
        !scheme_allowed(url_scheme(value), allow_mailto),
        field + " must use an allowed absolute URL scheme"@,
    )
}

/// The issue for a link: a site path (`/...`), an in-page fragment where
/// allowed, or else an absolute HTTP(S)/mailto URL.
pub open spec fn link_issue(field: Seq<char>, value: Seq<char>, allow_fragment: bool) -> Seq<
    Seq<char>,
> {
    if value.len() > 0 && (value[0] == '/' || (allow_fragment && value[0] == '#')) {
        seq![]
    } else {
        external_url_issue(field, value, true)
    }
}

/// The issue for a link that may be left empty.
pub open spec fn optional_link_issue(field: Seq<char>, value: Seq<char>) -> Seq<Seq<char>> {
    if value.len() == 0 {
        seq![]
    } else {
        link_issue(field, value, true)
    }
}

/// The URL issues of the navigation links.
pub open spec fn nav_link_url_issues(links: Seq<NavLink>) -> Seq<Seq<char>>
    decreases links.len(),
{
    if links.len() == 0 {
        seq![]
    } else {
        nav_link_url_issues(links.drop_last()) + link_issue(
            indexed("navbar.links["@, links.len() - 1, "].href"@),
            links.last().href@,
            true,
        )
    }
}

/// The URL issues of the social links.
pub open spec fn social_url_issues(links: Seq<super::HeroSocialLink>) -> Seq<Seq<char>>
    decreases links.len(),
{
    if links.len() == 0 {
        seq![]
    } else {
        social_url_issues(links.drop_last()) + external_url_issue(
            indexed("hero.social_links["@, links.len() - 1, "].url"@),
            links.last().url@,
            true,
        )
    }
}

/// The URL issues of one publication.
pub open spec fn publication_url_issue(index: int, item: PublicationItem) -> Seq<Seq<char>> {
    link_issue(indexed("publications.items["@, index, "].image_url"@), item.image_url@, false)
        + optional_link_issue(indexed("publications.items["@, index, "].pdf_url"@), item.pdf_url@)
        + optional_link_issue(
        indexed("publications.items["@, index, "].code_url"@),
        item.code_url@,
    )
}

/// The URL issues of the publications.
pub open spec fn publication_url_issues(items: Seq<PublicationItem>) -> Seq<Seq<char>>
    decreases items.len(),
{
    if items.len() == 0 {
        seq![]
    } else {
        publication_url_issues(items.drop_last()) + publication_url_issue(
            items.len() - 1,
            items.last(),
        )
    }
}

/// The URL issues of the courses.
pub open spec fn teaching_url_issues(items: Seq<TeachingItem>) -> Seq<Seq<char>>
    decreases items.len(),
{
    if items.len() == 0 {
        seq![]
    } else {
        teaching_url_issues(items.drop_last()) + optional_link_issue(
            indexed("teaching.items["@, items.len() - 1, "].materials_url"@),
            items.last().materials_url@,
        )
    }
}

/// Every URL must be a site path, an allowed fragment or an absolute URL
/// with an allowed scheme.
pub open spec fn url_issues(c: SiteConfig) -> Seq<Seq<char>> {
    external_url_issue("site.canonical_url"@, c.site.canonical_url@, false) + link_issue(
        "site.favicon_url"@,
        c.site.favicon_url@,
        false,
    ) + link_issue("site.social_image_url"@, c.site.social_image_url@, false) + link_issue(
        "navbar.brand_url"@,
        c.navbar.brand_url@,
        true,
    ) + link_issue("navbar.cv_url"@, c.navbar.cv_url@, true) + link_issue(
        "hero.image_url"@,
        c.hero.image_url@,
        false,
    ) + nav_link_url_issues(c.navbar.links@) + social_url_issues(c.hero.social_links@)
        + publication_url_issues(c.publications.items@) + teaching_url_issues(
        c.teaching.items@,
    )
}

fn validate_external_url(
    issues: &mut Vec<String>,
    field: &[char],
    value: &str,
    allow_mailto: bool,
)
    ensures
        views(final(issues)@) == views(old(issues)@) + external_url_issue(
            field@,
            value@,
            allow_mailto,
        ),
{
    let scheme = parse_url_scheme(value);
    if !allowed_url_scheme(&scheme, allow_mailto) {
        let mut m: Vec<char> = Vec::new();
        push_all(&mut m, field);
        push_str(&mut m, " must use an allowed absolute URL scheme");
        push_issue(issues, m.as_slice());
    }
    assert(views(issues@) =~= views(old(issues)@) + external_url_issue(
        field@,
        value@,
        allow_mailto,
    ));
}

fn validate_link(
    issues: &mut Vec<String>,
    field: &[char],
    value: &str,
    allow_fragment: bool,
)
    ensures
        views(final(issues)@) == views(old(issues)@) + link_issue(field@, value@, allow_fragment),
{
    let v = chars_of(value);
    if v.len() > 0 && (v[0] == '/' || (allow_fragment && v[0] == '#')) {
        assert(views(issues@) =~= views(old(issues)@) + link_issue(field@, value@, allow_fragment));
        return;
    }
    validate_external_url(issues, field, value, true);
}

fn validate_optional_link(issues: &mut Vec<String>, field: &[char], value: &str)
    ensures
        views(final(issues)@) == views(old(issues)@) + optional_link_issue(field@, value@),
{
    if !value.is_empty() {
        validate_link(issues, field, value, true);
    } else {
        assert(views(issues@) =~= views(old(issues)@) + optional_link_issue(field@, value@));
    }
}

// ---------------------------------------------------------------------------
// Identifiers

/// Scans ids in order: the ids accepted so far, and the issues for blank or
/// repeated ones.
pub open spec fn id_scan(field: Seq<char>, ids: Seq<Seq<char>>) -> (Seq<Seq<char>>, Seq<Seq<char>>)
    decreases ids.len(),
{
    if ids.len() == 0 {
        (seq![], seq![])
    } else {
        let prev = id_scan(field, ids.drop_last());
        let id = ids.last();
        if is_blank(id) {
            (prev.0, prev.1.push(field + " contains an empty id"@))
        } else if prev.0.contains(id) {
            (prev.0, prev.1.push(field + " contains duplicate id `"@ + id + "`"@))
        } else {
            (prev.0.push(id), prev.1)
        }
    }
}

/// The ids of the news items.
pub open spec fn news_ids(items: Seq<NewsItem>) -> Seq<Seq<char>> {
    Seq::new(items.len(), |i: int| items[i].id@)
}

/// The ids of the publications.
pub open spec fn publication_ids(items: Seq<PublicationItem>) -> Seq<Seq<char>> {
    Seq::new(items.len(), |i: int| items[i].id@)
}

/// The ids of the courses.
pub open spec fn teaching_ids(items: Seq<TeachingItem>) -> Seq<Seq<char>> {
    Seq::new(items.len(), |i: int| items[i].id@)
}

/// The names of the configured tag styles.
pub open spec fn tag_names(c: SiteConfig) -> Seq<Seq<char>> {
    Seq::new(c.news.tag_styles@.len(), |i: int| c.news.tag_styles@[i].name@)
}

/// The issues of news items whose tag has no configured style.
pub open spec fn tag_issues(items: Seq<NewsItem>, names: Seq<Seq<char>>) -> Seq<Seq<char>>
    decreases items.len(),
{
    if items.len() == 0 {
        seq![]
    } else {
        tag_issues(items.drop_last(), names) + issue_if(
            !names.contains(items.last().tag@),
            indexed("news.items["@, items.len() - 1, "].tag `"@) + items.last().tag@
                + "` has no configured tag style"@,
        )
    }
}

/// Item ids must be non-blank and unique per list; news tags must be styled.
pub open spec fn identifier_issues(c: SiteConfig) -> Seq<Seq<char>> {
    id_scan("news.items"@, news_ids(c.news.items@)).1 + id_scan(
        "publications.items"@,
        publication_ids(c.publications.items@),
    ).1 + id_scan("teaching.items"@, teaching_ids(c.teaching.items@)).1 + tag_issues(
        c.news.items@,
        tag_names(c),
    )
}

fn validate_unique_ids(issues: &mut Vec<String>, field: &str, ids: &Vec<&str>)
    ensures
        views(final(issues)@) == views(old(issues)@) + id_scan(
            field@,
            Seq::new(ids@.len(), |i: int| ids@[i]@),
        ).1,
{
    let ghost all = Seq::new(ids@.len(), |i: int| ids@[i]@);
    let mut seen: Vec<Vec<char>> = Vec::new();
    let mut i: usize = 0;
    while i < ids.len()
        invariant
            i <= ids.len(),
            all == Seq::new(ids@.len(), |i: int| ids@[i]@),
            list_views(seen@) == id_scan(field@, all.take(i as int)).0,
            views(issues@) == views(old(issues)@) + id_scan(field@, all.take(i as int)).1,
        decreases ids.len() - i,
    {
        assert(all.take(i + 1).drop_last() =~= all.take(i as int));
        let id = chars_of(ids[i]);
        if is_blank_exec(id.as_slice()) {
            let mut m = chars_of(field);
            push_str(&mut m, " contains an empty id");
            push_issue(issues, m.as_slice());
        } else if contains_chars(&seen, id.as_slice()) {
            let mut m = chars_of(field);
            push_str(&mut m, " contains duplicate id `");
            push_all(&mut m, id.as_slice());
            push_str(&mut m, "`");
            push_issue(issues, m.as_slice());
        } else {
            seen.push(id);
            assert(list_views(seen@) =~= id_scan(field@, all.take(i + 1)).0);
        }
        assert(views(issues@) =~= views(old(issues)@) + id_scan(field@, all.take(i + 1)).1);
        i = i + 1;
    }
    assert(all.take(ids.len() as int) =~= all);
}

// ---------------------------------------------------------------------------
// Ranges

/// Whether the `f32` with these bits is finite (its exponent is not all ones).
pub open spec fn f32_finite(bits: u32) -> bool {
    (bits / 8388608) % 256 != 255
}

/// Whether the finite `f32` with these bits is below zero.
pub open spec fn f32_below_zero(bits: u32) -> bool {
    bits >= 2147483648 && bits % 2147483648 != 0
}

/// Whether the finite `f32` with these bits is zero or below.
pub open spec fn f32_at_most_zero(bits: u32) -> bool {
    bits >= 2147483648 || bits % 2147483648 == 0
}

/// The issue for an animation duration above one minute.
pub open spec fn duration_issue(field: Seq<char>, ms: u32) -> Seq<Seq<char>> {
    issue_if(ms > 60000, field + " must not exceed 60000"@)
}

/// The issues of the failed checks among `(failed, message)` pairs, in order.
pub open spec fn conditional_issues(checks: Seq<(bool, Seq<char>)>) -> Seq<Seq<char>>
    decreases checks.len(),
{
    if checks.len() == 0 {
        seq![]
    } else {
        conditional_issues(checks.drop_last()) + issue_if(checks.last().0, checks.last().1)
    }
}

/// The issues of a list of `(field, milliseconds)` durations, in order.
pub open spec fn duration_issues(durations: Seq<(Seq<char>, u32)>) -> Seq<Seq<char>>
    decreases durations.len(),
{
    if durations.len() == 0 {
        seq![]
    } else {
        duration_issues(durations.drop_last()) + duration_issue(
            durations.last().0,
            durations.last().1,
        )
    }
}

/// The range checks of the hero, activity and background settings, each as
/// `(failed, message)`.
pub open spec fn range_checks(c: SiteConfig) -> Seq<(bool, Seq<char>)> {
    let h = c.hero;
    let a = c.activity;
    let b = c.background;
    let t = a.level_thresholds@;
    seq![
        (!(-23 <= h.timezone_offset_hours <= 23), "hero.timezone_offset_hours must be between -23 and 23"@),
        (h.working_hours_start > 23, "hero.working_hours_start must be between 0 and 23"@),
        (!(1 <= h.working_hours_end <= 24), "hero.working_hours_end must be between 1 and 24"@),
        (h.working_hours_start >= h.working_hours_end, "hero working hour start must be before end"@),
        (!(1 <= a.weeks <= 53), "activity.weeks must be between 1 and 53"@),
        (!(1 <= a.days <= 7), "activity.days must be between 1 and 7"@),
        (a.months@.len() < 2, "activity.months must contain at least two labels"@),
        (a.day_labels@.len() == 0, "activity.day_labels must not be empty"@),
        (!(t[0] < t[1] && t[1] < t[2] && t[2] < t[3]), "activity.level_thresholds must be strictly increasing"@),
        (a.level_colors@.len() != 5, "activity.level_colors must contain exactly five levels"@),
        (b.blinking_grid_min_cells > b.blinking_grid_max_cells, "background.blinking_grid_min_cells must not exceed max_cells"@),
        (b.blinking_grid_cell_size_px == 0, "background.blinking_grid_cell_size_px must be positive"@),
    ]
}

/// The animation durations, in checking order.
pub open spec fn durations(c: SiteConfig) -> Seq<(Seq<char>, u32)> {
    let m = c.animation;
    seq![
        ("animation.hero_image_duration_ms"@, m.hero_image_duration_ms),
        ("animation.hero_content_delay_ms"@, m.hero_content_delay_ms),
        ("animation.section_duration_ms"@, m.section_duration_ms),
        ("animation.news_item_duration_ms"@, m.news_item_duration_ms),
        ("animation.item_stagger_ms"@, m.item_stagger_ms),
        ("animation.heatmap_cell_duration_ms"@, m.heatmap_cell_duration_ms),
        ("animation.heatmap_cell_stagger_ms"@, m.heatmap_cell_stagger_ms),
        ("animation.theme_transition_ms"@, m.theme_transition_ms),
        ("animation.image_transition_ms"@, m.image_transition_ms),
    ]
}

/// The issues of the two size factors of the animation settings.
pub open spec fn factor_issues(c: SiteConfig) -> Seq<Seq<char>> {
    let m = c.animation;
    issue_if(
        !f32_finite(m.hover_lift_px_bits) || f32_below_zero(m.hover_lift_px_bits),
        "animation.hover_lift_px must be finite and non-negative"@,
    ) + issue_if(
        !f32_finite(m.heatmap_hover_scale_bits) || f32_at_most_zero(m.heatmap_hover_scale_bits),
        "animation.heatmap_hover_scale must be finite and positive"@,
    )
}

/// Numeric settings must lie in their ranges.
pub open spec fn range_issues(c: SiteConfig) -> Seq<Seq<char>> {
    conditional_issues(range_checks(c)) + duration_issues(durations(c)) + factor_issues(c)
}

fn check_condition(issues: &mut Vec<String>, failed: bool, msg: &str)
    ensures
        views(final(issues)@) == views(old(issues)@) + issue_if(failed, msg@),
{
    if failed {
        let m = chars_of(msg);
        push_issue(issues, m.as_slice());
    }
    assert(views(issues@) =~= views(old(issues)@) + issue_if(failed, msg@));
}

fn check_duration(issues: &mut Vec<String>, field: &str, ms: u32)
    ensures
        views(final(issues)@) == views(old(issues)@) + duration_issue(field@, ms),
{
    if ms > 60000 {
        let mut m = chars_of(field);
        push_str(&mut m, " must not exceed 60000");
        push_issue(issues, m.as_slice());
    }
    assert(views(issues@) =~= views(old(issues)@) + duration_issue(field@, ms));
}

// ---------------------------------------------------------------------------
// Footer template

/// The `{name}` placeholders of a template, in order and with repeats: each
/// is the text between a `{` and the next `}`; scanning stops at a `{`
/// with no `}` after it.
pub open spec fn placeholder_scan(t: Seq<char>) -> Seq<Seq<char>>
    decreases t.len(),
{
    let open = find_char(t, '{');
    if open < 0 {
        seq![]
    } else {
        let rest = t.skip(open + 1);
        let close = find_char(rest, '}');
        if close < 0 {
            seq![]
        } else {
            proof {
                crate::components::model::lemma_find_char_bounds(t, '{', 0);
                crate::components::model::lemma_find_char_bounds(rest, '}', 0);
            }
            seq![rest.take(close)] + placeholder_scan(rest.skip(close + 1))
        }
    }
}

/// `acc` extended, in order, by each element of `s` that it does not hold yet.
pub open spec fn add_new(acc: Seq<Seq<char>>, s: Seq<Seq<char>>) -> Seq<Seq<char>>
    decreases s.len(),
{
    if s.len() == 0 {
        acc
    } else {
        add_new(if acc.contains(s[0]) { acc } else { acc.push(s[0]) }, s.skip(1))
    }
}

/// The distinct elements of `s`, in order of first occurrence.
pub open spec fn distinct(s: Seq<Seq<char>>) -> Seq<Seq<char>> {
    add_new(seq![], s)
}

/// The placeholders that a footer template must use, and the only ones it
/// may use.
pub open spec fn required_placeholders() -> Seq<Seq<char>> {
    seq!["year"@, "owner"@, "powered_by"@, "hosted_by"@]
}

/// The issue for a required placeholder missing from the template.
pub open spec fn missing_placeholder_issue(found: Seq<Seq<char>>, name: Seq<char>) -> Seq<
    Seq<char>,
> {
    issue_if(!found.contains(name), "footer.text_template must include `{"@ + name + "}`"@)
}

/// The issues for placeholders outside the required set, in order.
pub open spec fn unknown_placeholder_issues(found: Seq<Seq<char>>) -> Seq<Seq<char>>
    decreases found.len(),
{
    if found.len() == 0 {
        seq![]
    } else {
        unknown_placeholder_issues(found.drop_last()) + issue_if(
            !required_placeholders().contains(found.last()),
            "footer.text_template contains unknown placeholder `{"@ + found.last() + "}`"@,
        )
    }
}

/// The footer template must use exactly the four supported placeholders.
pub open spec fn footer_issues(c: SiteConfig) -> Seq<Seq<char>> {
    let found = distinct(placeholder_scan(c.footer.text_template@));
    missing_placeholder_issue(found, "year"@) + missing_placeholder_issue(found, "owner"@)
        + missing_placeholder_issue(found, "powered_by"@) + missing_placeholder_issue(
        found,
        "hosted_by"@,
    ) + unknown_placeholder_issues(found)
}

/// The distinct `{name}` placeholders of a template, in order of first
/// occurrence.
pub fn template_placeholders(template: &str) -> (r: Vec<String>)
    ensures
        views(r@) == distinct(placeholder_scan(template@)),
{
    let found = placeholder_list(template);
    let mut r: Vec<String> = Vec::new();
    let mut i: usize = 0;
    while i < found.len()
        invariant
            i <= found.len(),
            views(r@) == list_views(found@).take(i as int),
        decreases found.len() - i,
    {
        let ghost before = views(r@);
        r.push(string_of(found[i].as_slice()));
        assert(views(r@) =~= before.push(found@[i as int]@));
        assert(list_views(found@).take(i + 1) =~= list_views(found@).take(i as int).push(
            found@[i as int]@,
        ));
        i = i + 1;
    }
    assert(list_views(found@).take(found.len() as int) =~= list_views(found@));
    r
}

fn placeholder_list(template: &str) -> (found: Vec<Vec<char>>)
    ensures
        list_views(found@) == distinct(placeholder_scan(template@)),
{
    let t = chars_of(template);
    let mut found: Vec<Vec<char>> = Vec::new();
    let mut pos: usize = 0;
    assert(t@.skip(0) =~= t@);
    assert(list_views(found@) =~= Seq::<Seq<char>>::empty());
    while pos < t.len()
        invariant
            pos <= t.len(),
            t@ == template@,
            distinct(placeholder_scan(template@)) == add_new(
                list_views(found@),
                placeholder_scan(t@.skip(pos as int)),
            ),
        decreases t.len() - pos,
    {
        let ghost rem = t@.skip(pos as int);
        let rest = slice_chars(t.as_slice(), pos, t.len());
        assert(rest@ =~= rem);
        let open = match find_char_exec(rest.as_slice(), '{') {
            Some(o) => o,
            None => {
                assert(placeholder_scan(rem) == Seq::<Seq<char>>::empty());
                return found;
            },
        };
        proof {
            crate::components::model::lemma_find_char_bounds(rem, '{', 0);
        }
        let after = slice_chars(rest.as_slice(), open + 1, rest.len());
        assert(after@ =~= rem.skip(open + 1));
        let close = match find_char_exec(after.as_slice(), '}') {
            Some(c) => c,
            None => {
                assert(placeholder_scan(rem) == Seq::<Seq<char>>::empty());
                return found;
            },
        };
        proof {
            crate::components::model::lemma_find_char_bounds(after@, '}', 0);
        }
        let name = slice_chars(after.as_slice(), 0, close);
        let ghost next_rem = after@.skip(close + 1);
        assert(name@ =~= after@.take(close as int));
        assert(placeholder_scan(rem) == seq![name@] + placeholder_scan(next_rem));
        assert((seq![name@] + placeholder_scan(next_rem)).skip(1) =~= placeholder_scan(next_rem));
        let ghost before = list_views(found@);
        if !contains_chars(&found, name.as_slice()) {
            found.push(name);
            assert(list_views(found@) =~= before.push(name@));
        }
        pos = pos + open + 1 + close + 1;
        assert(t@.skip(pos as int) =~= next_rem);
    }
    assert(t@.skip(pos as int) =~= Seq::<char>::empty());
    assert(placeholder_scan(Seq::<char>::empty()) == Seq::<Seq<char>>::empty()) by {
        assert(find_char(Seq::<char>::empty(), '{') == -1);
    }
    found
}

// ---------------------------------------------------------------------------
// The whole configuration

/// Every issue of a configuration, rule by rule: required strings, anchors,
/// URLs, identifiers, ranges, footer template.
pub open spec fn config_issues(c: SiteConfig) -> Seq<Seq<char>> {
    required_string_issues(c) + anchor_issues(c) + url_issues(c) + identifier_issues(c)
        + range_issues(c) + footer_issues(c)
}

/// The validation message: one `- issue` line per issue.
pub open spec fn issue_message(issues: Seq<Seq<char>>) -> Seq<char> {
    join(Seq::new(issues.len(), |i: int| "- "@ + issues[i]), "\n"@)
}

impl SiteConfig {
    /// Checks the cross-field rules; on failure the error lists every issue.
    pub fn validate(&self) -> (r: Result<(), ConfigError>)
        ensures
            r is Ok <==> config_issues(*self).len() == 0,
            r matches Err(e) ==> e == ConfigError::Validation(e->Validation_0) && e->Validation_0@
                == issue_message(config_issues(*self)),
    {
        let mut issues: Vec<String> = Vec::new();
        self.validate_required_strings(&mut issues);
        self.validate_anchors(&mut issues);
        self.validate_urls(&mut issues);
        self.validate_identifiers(&mut issues);
        self.validate_ranges(&mut issues);
        self.validate_footer_template(&mut issues);
        assert(views(issues@) =~= config_issues(*self));
        if issues.len() == 0 {
            Ok(())
        } else {
            let mut message: Vec<char> = Vec::new();
            let mut i: usize = 0;
            while i < issues.len()
                invariant
                    i <= issues.len(),
                    message@ == issue_message(views(issues@).take(i as int)),
                decreases issues.len() - i,
            {
                let ghost before = message@;
                if i > 0 {
                    message.push('\n');
                }
                push_str(&mut message, "- ");
                push_str(&mut message, issues[i].as_str());
                proof {
                    let lines = Seq::new(
                        views(issues@).take(i + 1).len(),
                        |k: int| "- "@ + views(issues@).take(i + 1)[k],
                    );
                    let prev = Seq::new(
                        views(issues@).take(i as int).len(),
                        |k: int| "- "@ + views(issues@).take(i as int)[k],
                    );
                    assert(lines =~= prev.push("- "@ + issues@[i as int]@));
                    crate::components::model::lemma_join_push(prev, "\n"@, "- "@ + issues@[i as int]@);
                    if i > 0 {
                        assert(message@ =~= before + "\n"@ + ("- "@ + issues@[i as int]@)) by {
                            reveal_strlit("\n");
                        }
                    } else {
                        assert(message@ =~= "- "@ + issues@[i as int]@);
                    }
                }
                i = i + 1;
            }
            assert(views(issues@).take(issues.len() as int) =~= views(issues@));
            Err(ConfigError::Validation(string_of(message.as_slice())))
        }
    }

    fn validate_required_strings(&self, issues: &mut Vec<String>)
        ensures
            views(final(issues)@) == views(old(issues)@) + required_string_issues(*self),
    {
        let fields: [(&str, &str); 14] = [
            ("site.title", self.site.title.as_str()),
            ("site.description", self.site.description.as_str()),
            ("site.language", self.site.language.as_str()),
            ("site.theme_storage_key", self.site.theme_storage_key.as_str()),
            ("navbar.brand", self.navbar.brand.as_str()),
            ("hero.first_name", self.hero.first_name.as_str()),
            ("hero.last_name", self.hero.last_name.as_str()),
            ("hero.role", self.hero.role.as_str()),
            ("hero.bio", self.hero.bio.as_str()),
            ("news.heading", self.news.heading.as_str()),
            ("publications.heading", self.publications.heading.as_str()),
            ("teaching.heading", self.teaching.heading.as_str()),
            ("activity.heading", self.activity.heading.as_str()),
            ("footer.text_template", self.footer.text_template.as_str()),
        ];
        let ghost spec_fields = Seq::new(14, |k: int| (fields@[k].0@, fields@[k].1@));
        assert(spec_fields =~= required_fields(*self));
        let mut i: usize = 0;
        while i < 14
            invariant
                i <= 14,
                spec_fields == Seq::new(14, |k: int| (fields@[k].0@, fields@[k].1@)),
                views(issues@) == views(old(issues)@) + blank_issues(spec_fields.take(i as int)),
            decreases 14 - i,
        {
            assert(spec_fields.take(i + 1).drop_last() =~= spec_fields.take(i as int));
            let (field, value) = fields[i];
            check_required(issues, field, value);
            assert(views(issues@) =~= views(old(issues)@) + blank_issues(spec_fields.take(i + 1)));
            i = i + 1;
        }
        assert(spec_fields.take(14) =~= spec_fields);
    }

    fn validate_anchors(&self, issues: &mut Vec<String>)
        ensures
            views(final(issues)@) == views(old(issues)@) + anchor_issues(*self),
    {
        let anchors = self.anchor_ids();
        let ghost all = anchor_views(*self);
        let mut unique: Vec<Vec<char>> = Vec::new();
        let mut i: usize = 0;
        while i < 6
            invariant
                i <= 6,
                all == anchor_views(*self),
                forall|k: int| 0 <= k < 6 ==> (#[trigger] anchors@[k])@ == all[k],
                list_views(unique@) == anchor_scan(all.take(i as int)).0,
                views(issues@) == views(old(issues)@) + anchor_scan(all.take(i as int)).1,
            decreases 6 - i,
        {
            assert(all.take(i + 1).drop_last() =~= all.take(i as int));
            assert(all.take(i + 1).last() == anchors@[i as int]@);
            let a = chars_of(anchors[i]);
            if !anchor_valid_exec(a.as_slice()) {
                let mut m = chars_of("section anchor `");
                push_all(&mut m, a.as_slice());
                push_str(&mut m, "` is invalid");
                push_issue(issues, m.as_slice());
            } else if contains_chars(&unique, a.as_slice()) {
                let mut m = chars_of("duplicate section anchor `");
                push_all(&mut m, a.as_slice());
                push_str(&mut m, "`");
                push_issue(issues, m.as_slice());
            } else {
                let ghost before = list_views(unique@);
                unique.push(a);
                assert(list_views(unique@) =~= before.push(anchors@[i as int]@));
            }
            assert(views(issues@) =~= views(old(issues)@) + anchor_scan(all.take(i + 1)).1);
            i = i + 1;
        }
        assert(all.take(6) =~= all);
        let ghost mid = views(issues@);
        let links = &self.navbar.links;
        let mut j: usize = 0;
        while j < links.len()
            invariant
                j <= links.len(),
                links@ == self.navbar.links@,
                list_views(unique@) == anchor_scan(all).0,
                views(issues@) == mid + nav_target_issues(links@.take(j as int), list_views(unique@)),
            decreases links.len() - j,
        {
            assert(links@.take(j + 1).drop_last() =~= links@.take(j as int));
            let href = chars_of(links[j].href.as_str());
            if href.len() > 1 && href[0] == '#' {
                let target = slice_chars(href.as_slice(), 1, href.len());
                assert(target@ =~= href@.skip(1));
                if !contains_chars(&unique, target.as_slice()) {
                    let mut m = indexed_field("navbar.links[", j, "].href targets unknown anchor `");
                    push_all(&mut m, target.as_slice());
                    push_str(&mut m, "`");
                    push_issue(issues, m.as_slice());
                }
            }
            assert(views(issues@) =~= mid + nav_target_issues(links@.take(j + 1), list_views(unique@)));
            j = j + 1;
        }
        assert(links@.take(links.len() as int) =~= links@);
        assert(views(issues@) =~= views(old(issues)@) + anchor_issues(*self));
    }

    fn validate_urls(&self, issues: &mut Vec<String>)
        ensures
            views(final(issues)@) == views(old(issues)@) + url_issues(*self),
    {
        self.validate_fixed_urls(issues);
        self.validate_nav_urls(issues);
        self.validate_social_urls(issues);
        self.validate_publication_urls(issues);
        self.validate_teaching_urls(issues);
        assert(views(issues@) =~= views(old(issues)@) + url_issues(*self));
    }

    fn validate_fixed_urls(&self, issues: &mut Vec<String>)
        ensures
            views(final(issues)@) == views(old(issues)@) + external_url_issue(
                "site.canonical_url"@,
                self.site.canonical_url@,
                false,
            ) + link_issue("site.favicon_url"@, self.site.favicon_url@, false) + link_issue(
                "site.social_image_url"@,
                self.site.social_image_url@,
                false,
            ) + link_issue("navbar.brand_url"@, self.navbar.brand_url@, true) + link_issue(
                "navbar.cv_url"@,
                self.navbar.cv_url@,
                true,
            ) + link_issue("hero.image_url"@, self.hero.image_url@, false),
    {
        let ghost s0 = views(issues@);
        let f = chars_of("site.canonical_url");
        validate_external_url(issues, f.as_slice(), self.site.canonical_url.as_str(), false);
        let ghost s1 = views(issues@);
        let f = chars_of("site.favicon_url");
        validate_link(issues, f.as_slice(), self.site.favicon_url.as_str(), false);
        let ghost s2 = views(issues@);
        let f = chars_of("site.social_image_url");
        validate_link(issues, f.as_slice(), self.site.social_image_url.as_str(), false);
        let ghost s3 = views(issues@);
        let f = chars_of("navbar.brand_url");
        validate_link(issues, f.as_slice(), self.navbar.brand_url.as_str(), true);
        let ghost s4 = views(issues@);
        let f = chars_of("navbar.cv_url");
        validate_link(issues, f.as_slice(), self.navbar.cv_url.as_str(), true);
        let ghost s5 = views(issues@);
        let f = chars_of("hero.image_url");
        validate_link(issues, f.as_slice(), self.hero.image_url.as_str(), false);
        assert(views(issues@) =~= s0 + external_url_issue(
            "site.canonical_url"@,
            self.site.canonical_url@,
            false,
        ) + link_issue("site.favicon_url"@, self.site.favicon_url@, false) + link_issue(
            "site.social_image_url"@,
            self.site.social_image_url@,
            false,
        ) + link_issue("navbar.brand_url"@, self.navbar.brand_url@, true) + link_issue(
            "navbar.cv_url"@,
            self.navbar.cv_url@,
            true,
        ) + link_issue("hero.image_url"@, self.hero.image_url@, false));
    }

    fn validate_nav_urls(&self, issues: &mut Vec<String>)
        ensures
            views(final(issues)@) == views(old(issues)@) + nav_link_url_issues(self.navbar.links@),
    {
        let ghost fixed = views(issues@);
        let links = &self.navbar.links;
        let mut i: usize = 0;
        while i < links.len()
            invariant
                i <= links.len(),
                views(issues@) == fixed + nav_link_url_issues(links@.take(i as int)),
            decreases links.len() - i,
        {
            assert(links@.take(i + 1).drop_last() =~= links@.take(i as int));
            let field = indexed_field("navbar.links[", i, "].href");
            validate_link(issues, field.as_slice(), links[i].href.as_str(), true);
            assert(views(issues@) =~= fixed + nav_link_url_issues(links@.take(i + 1)));
            i = i + 1;
        }
        assert(links@.take(links.len() as int) =~= links@);
    }

    fn validate_social_urls(&self, issues: &mut Vec<String>)
        ensures
            views(final(issues)@) == views(old(issues)@) + social_url_issues(
                self.hero.social_links@,
            ),
    {
        let ghost after_nav = views(issues@);
        let socials = &self.hero.social_links;
        let mut i: usize = 0;
        while i < socials.len()
            invariant
                i <= socials.len(),
                views(issues@) == after_nav + social_url_issues(socials@.take(i as int)),
            decreases socials.len() - i,
        {
            assert(socials@.take(i + 1).drop_last() =~= socials@.take(i as int));
            let field = indexed_field("hero.social_links[", i, "].url");
            validate_external_url(issues, field.as_slice(), socials[i].url.as_str(), true);
            assert(views(issues@) =~= after_nav + social_url_issues(socials@.take(i + 1)));
            i = i + 1;
        }
        assert(socials@.take(socials.len() as int) =~= socials@);
    }

    fn validate_publication_urls(&self, issues: &mut Vec<String>)
        ensures
            views(final(issues)@) == views(old(issues)@) + publication_url_issues(
                self.publications.items@,
            ),
    {
        let ghost after_social = views(issues@);
        let items = &self.publications.items;
        let mut i: usize = 0;
        while i < items.len()
            invariant
                i <= items.len(),
                views(issues@) == after_social + publication_url_issues(items@.take(i as int)),
            decreases items.len() - i,
        {
            assert(items@.take(i + 1).drop_last() =~= items@.take(i as int));
            let ghost start = views(issues@);
            let field = indexed_field("publications.items[", i, "].image_url");
            validate_link(issues, field.as_slice(), items[i].image_url.as_str(), false);
            let field = indexed_field("publications.items[", i, "].pdf_url");
            validate_optional_link(issues, field.as_slice(), items[i].pdf_url.as_str());
            let field = indexed_field("publications.items[", i, "].code_url");
            validate_optional_link(issues, field.as_slice(), items[i].code_url.as_str());
            assert(views(issues@) =~= start + publication_url_issue(i as int, items@[i as int]));
            assert(views(issues@) =~= after_social + publication_url_issues(items@.take(i + 1)));
            i = i + 1;
        }
        assert(items@.take(items.len() as int) =~= items@);
    }

    fn validate_teaching_urls(&self, issues: &mut Vec<String>)
        ensures
            views(final(issues)@) == views(old(issues)@) + teaching_url_issues(
                self.teaching.items@,
            ),
    {
        let ghost after_pubs = views(issues@);
        let courses = &self.teaching.items;
        let mut i: usize = 0;
        while i < courses.len()
            invariant
                i <= courses.len(),
                views(issues@) == after_pubs + teaching_url_issues(courses@.take(i as int)),
            decreases courses.len() - i,
        {
            assert(courses@.take(i + 1).drop_last() =~= courses@.take(i as int));
            let field = indexed_field("teaching.items[", i, "].materials_url");
            validate_optional_link(issues, field.as_slice(), courses[i].materials_url.as_str());
            assert(views(issues@) =~= after_pubs + teaching_url_issues(courses@.take(i + 1)));
            i = i + 1;
        }
        assert(courses@.take(courses.len() as int) =~= courses@);
    }

    fn validate_identifiers(&self, issues: &mut Vec<String>)
        ensures
            views(final(issues)@) == views(old(issues)@) + identifier_issues(*self),
    {
        let mut ids: Vec<&str> = Vec::new();
        let mut i: usize = 0;
        while i < self.news.items.len()
            invariant
                i <= self.news.items.len(),
                ids@.len() == i,
                forall|k: int| 0 <= k < i ==> (#[trigger] ids@[k])@ == self.news.items@[k].id@,
            decreases self.news.items.len() - i,
        {
            ids.push(self.news.items[i].id.as_str());
            i = i + 1;
        }
        assert(Seq::new(ids@.len(), |k: int| ids@[k]@) =~= news_ids(self.news.items@));
        validate_unique_ids(issues, "news.items", &ids);

        let mut ids: Vec<&str> = Vec::new();
        let mut i: usize = 0;
        while i < self.publications.items.len()
            invariant
                i <= self.publications.items.len(),
                ids@.len() == i,
                forall|k: int|
                    0 <= k < i ==> (#[trigger] ids@[k])@ == self.publications.items@[k].id@,
            decreases self.publications.items.len() - i,
        {
            ids.push(self.publications.items[i].id.as_str());
            i = i + 1;
        }
        assert(Seq::new(ids@.len(), |k: int| ids@[k]@) =~= publication_ids(
            self.publications.items@,
        ));
        validate_unique_ids(issues, "publications.items", &ids);

        let mut ids: Vec<&str> = Vec::new();
        let mut i: usize = 0;
        while i < self.teaching.items.len()
            invariant
                i <= self.teaching.items.len(),
                ids@.len() == i,
                forall|k: int| 0 <= k < i ==> (#[trigger] ids@[k])@ == self.teaching.items@[k].id@,
            decreases self.teaching.items.len() - i,
        {
            ids.push(self.teaching.items[i].id.as_str());
            i = i + 1;
        }
        assert(Seq::new(ids@.len(), |k: int| ids@[k]@) =~= teaching_ids(self.teaching.items@));
        validate_unique_ids(issues, "teaching.items", &ids);

        let mut names: Vec<Vec<char>> = Vec::new();
        let mut i: usize = 0;
        while i < self.news.tag_styles.len()
            invariant
                i <= self.news.tag_styles.len(),
                list_views(names@) == tag_names(*self).take(i as int),
            decreases self.news.tag_styles.len() - i,
        {
            let ghost before = list_views(names@);
            let name = chars_of(self.news.tag_styles[i].name.as_str());
            names.push(name);
            assert(list_views(names@) =~= before.push(self.news.tag_styles@[i as int].name@));
            assert(tag_names(*self).take(i + 1) =~= tag_names(*self).take(i as int).push(
                self.news.tag_styles@[i as int].name@,
            ));
            i = i + 1;
        }
        assert(tag_names(*self).take(self.news.tag_styles.len() as int) =~= tag_names(*self));
        let ghost mid = views(issues@);
        let items = &self.news.items;
        let mut i: usize = 0;
        while i < items.len()
            invariant
                i <= items.len(),
                list_views(names@) == tag_names(*self),
                views(issues@) == mid + tag_issues(items@.take(i as int), tag_names(*self)),
            decreases items.len() - i,
        {
            assert(items@.take(i + 1).drop_last() =~= items@.take(i as int));
            let tag = chars_of(items[i].tag.as_str());
            if !contains_chars(&names, tag.as_slice()) {
                let mut m = indexed_field("news.items[", i, "].tag `");
                push_all(&mut m, tag.as_slice());
                push_str(&mut m, "` has no configured tag style");
                push_issue(issues, m.as_slice());
            }
            assert(views(issues@) =~= mid + tag_issues(items@.take(i + 1), tag_names(*self)));
            i = i + 1;
        }
        assert(items@.take(items.len() as int) =~= items@);
        assert(views(issues@) =~= views(old(issues)@) + identifier_issues(*self));
    }

    fn validate_ranges(&self, issues: &mut Vec<String>)
        ensures
            views(final(issues)@) == views(old(issues)@) + range_issues(*self),
    {
        self.validate_range_checks(issues);
        self.validate_durations(issues);
        self.validate_factors(issues);
        assert(views(issues@) =~= views(old(issues)@) + range_issues(*self));
    }

    fn validate_range_checks(&self, issues: &mut Vec<String>)
        ensures
            views(final(issues)@) == views(old(issues)@) + conditional_issues(range_checks(*self)),
    {
        let h = &self.hero;
        let a = &self.activity;
        let b = &self.background;
        let t = &a.level_thresholds;
        let checks: [(bool, &str); 12] = [
            (!(-23 <= h.timezone_offset_hours && h.timezone_offset_hours <= 23), "hero.timezone_offset_hours must be between -23 and 23"),
            (h.working_hours_start > 23, "hero.working_hours_start must be between 0 and 23"),
            (!(1 <= h.working_hours_end && h.working_hours_end <= 24), "hero.working_hours_end must be between 1 and 24"),
            (h.working_hours_start >= h.working_hours_end, "hero working hour start must be before end"),
            (!(1 <= a.weeks && a.weeks <= 53), "activity.weeks must be between 1 and 53"),
            (!(1 <= a.days && a.days <= 7), "activity.days must be between 1 and 7"),
            (a.months.len() < 2, "activity.months must contain at least two labels"),
            (a.day_labels.len() == 0, "activity.day_labels must not be empty"),
            (!(t[0] < t[1] && t[1] < t[2] && t[2] < t[3]), "activity.level_thresholds must be strictly increasing"),
            (a.level_colors.len() != 5, "activity.level_colors must contain exactly five levels"),
            (b.blinking_grid_min_cells > b.blinking_grid_max_cells, "background.blinking_grid_min_cells must not exceed max_cells"),
            (b.blinking_grid_cell_size_px == 0, "background.blinking_grid_cell_size_px must be positive"),
        ];
        let ghost spec_checks = Seq::new(12, |k: int| (checks@[k].0, checks@[k].1@));
        assert(spec_checks =~= range_checks(*self));
        let mut i: usize = 0;
        while i < 12
            invariant
                i <= 12,
                spec_checks == Seq::new(12, |k: int| (checks@[k].0, checks@[k].1@)),
                views(issues@) == views(old(issues)@) + conditional_issues(spec_checks.take(i as int)),
            decreases 12 - i,
        {
            assert(spec_checks.take(i + 1).drop_last() =~= spec_checks.take(i as int));
            let (failed, msg) = checks[i];
            check_condition(issues, failed, msg);
            assert(views(issues@) =~= views(old(issues)@) + conditional_issues(spec_checks.take(i + 1)));
            i = i + 1;
        }
        assert(spec_checks.take(12) =~= spec_checks);
    }

    fn validate_durations(&self, issues: &mut Vec<String>)
        ensures
            views(final(issues)@) == views(old(issues)@) + duration_issues(durations(*self)),
    {
        let ghost after_checks = views(issues@);
        let m = &self.animation;
        let ds: [(&str, u32); 9] = [
            ("animation.hero_image_duration_ms", m.hero_image_duration_ms),
            ("animation.hero_content_delay_ms", m.hero_content_delay_ms),
            ("animation.section_duration_ms", m.section_duration_ms),
            ("animation.news_item_duration_ms", m.news_item_duration_ms),
            ("animation.item_stagger_ms", m.item_stagger_ms),
            ("animation.heatmap_cell_duration_ms", m.heatmap_cell_duration_ms),
            ("animation.heatmap_cell_stagger_ms", m.heatmap_cell_stagger_ms),
            ("animation.theme_transition_ms", m.theme_transition_ms),
            ("animation.image_transition_ms", m.image_transition_ms),
        ];
        let ghost spec_ds = Seq::new(9, |k: int| (ds@[k].0@, ds@[k].1));
        assert(spec_ds =~= durations(*self));
        let mut i: usize = 0;
        while i < 9
            invariant
                i <= 9,
                spec_ds == Seq::new(9, |k: int| (ds@[k].0@, ds@[k].1)),
                views(issues@) == after_checks + duration_issues(spec_ds.take(i as int)),
            decreases 9 - i,
        {
            assert(spec_ds.take(i + 1).drop_last() =~= spec_ds.take(i as int));
            let (field, ms) = ds[i];
            check_duration(issues, field, ms);
            assert(views(issues@) =~= after_checks + duration_issues(spec_ds.take(i + 1)));
            i = i + 1;
        }
        assert(spec_ds.take(9) =~= spec_ds);
    }

    fn validate_factors(&self, issues: &mut Vec<String>)
        ensures
            views(final(issues)@) == views(old(issues)@) + factor_issues(*self),
    {
        let m = &self.animation;
        let ghost after_durations = views(issues@);
        let lift = m.hover_lift_px_bits;
        check_condition(
            issues,
            (lift / 8388608) % 256 == 255 || (lift >= 2147483648 && lift % 2147483648 != 0),
            "animation.hover_lift_px must be finite and non-negative",
        );
        let scale = m.heatmap_hover_scale_bits;
        check_condition(
            issues,
            (scale / 8388608) % 256 == 255 || (scale >= 2147483648 || scale % 2147483648 == 0),
            "animation.heatmap_hover_scale must be finite and positive",
        );
        assert(views(issues@) =~= after_durations + factor_issues(*self));
    }

    fn validate_footer_template(&self, issues: &mut Vec<String>)
        ensures
            views(final(issues)@) == views(old(issues)@) + footer_issues(*self),
    {
        let found = placeholder_list(self.footer.text_template.as_str());
        let required = ["year", "owner", "powered_by", "hosted_by"];
        let mut i: usize = 0;
        let ghost start = views(issues@);
        let ghost f = list_views(found@);
        while i < 4
            invariant
                i <= 4,
                f == list_views(found@),
                required@.len() == 4,
                required@[0]@ == "year"@,
                required@[1]@ == "owner"@,
                required@[2]@ == "powered_by"@,
                required@[3]@ == "hosted_by"@,
                views(issues@) == start + missing_prefix(f, i as int),
            decreases 4 - i,
        {
            let name = chars_of(required[i]);
            if !contains_chars(&found, name.as_slice()) {
                let mut m = chars_of("footer.text_template must include `{");
                push_all(&mut m, name.as_slice());
                push_str(&mut m, "}`");
                push_issue(issues, m.as_slice());
            }
            assert(views(issues@) =~= start + missing_prefix(f, i + 1));
            i = i + 1;
        }
        let ghost mid = views(issues@);
        let mut j: usize = 0;
        while j < found.len()
            invariant
                j <= found.len(),
                f == list_views(found@),
                required@.len() == 4,
                required@[0]@ == "year"@,
                required@[1]@ == "owner"@,
                required@[2]@ == "powered_by"@,
                required@[3]@ == "hosted_by"@,
                views(issues@) == mid + unknown_placeholder_issues(f.take(j as int)),
            decreases found.len() - j,
        {
            assert(f.take(j + 1).drop_last() =~= f.take(j as int));
            let mut known = false;
            let mut k: usize = 0;
            while k < 4
                invariant
                    k <= 4,
                    j < found.len(),
                    required@.len() == 4,
                    known == exists|q: int| 0 <= q < k && required@[q]@ == found@[j as int]@,
                decreases 4 - k,
            {
                let name = chars_of(required[k]);
                if chars_equal(name.as_slice(), found[j].as_slice()) {
                    known = true;
                }
                k = k + 1;
            }
            assert(known == required_placeholders().contains(f[j as int])) by {
                if known {
                    let q = choose|q: int| 0 <= q < 4 && required@[q]@ == found@[j as int]@;
                    assert(required_placeholders()[q] == f[j as int]);
                }
                if required_placeholders().contains(f[j as int]) {
                    let q = choose|q: int| 0 <= q < 4 && required_placeholders()[q] == f[j as int];
                    assert(required@[q]@ == found@[j as int]@);
                }
            }
            if !known {
                let mut m = chars_of("footer.text_template contains unknown placeholder `{");
                push_all(&mut m, found[j].as_slice());
                push_str(&mut m, "}`");
                push_issue(issues, m.as_slice());
            }
            assert(views(issues@) =~= mid + unknown_placeholder_issues(f.take(j + 1)));
            j = j + 1;
        }
        assert(f.take(found.len() as int) =~= f);
        assert(missing_prefix(f, 4) =~= missing_placeholder_issue(f, "year"@)
            + missing_placeholder_issue(f, "owner"@) + missing_placeholder_issue(f, "powered_by"@)
            + missing_placeholder_issue(f, "hosted_by"@)) by {
            reveal_with_fuel(missing_prefix, 5);
            assert(required_placeholders()[0] == "year"@);
            assert(required_placeholders()[1] == "owner"@);
            assert(required_placeholders()[2] == "powered_by"@);
            assert(required_placeholders()[3] == "hosted_by"@);
        }
        assert(views(issues@) =~= views(old(issues)@) + footer_issues(*self));
    }
}

/// The missing-placeholder issues for the first `n` required placeholders.
pub open spec fn missing_prefix(found: Seq<Seq<char>>, n: int) -> Seq<Seq<char>>
    decreases n,
{
    if n <= 0 {
        seq![]
    } else {
        missing_prefix(found, n - 1) + missing_placeholder_issue(
            found,
            required_placeholders()[n - 1],
        )
    }
}

pub proof fn lemma_add_new_contains(acc: Seq<Seq<char>>, s: Seq<Seq<char>>, x: Seq<char>)
    ensures
        add_new(acc, s).contains(x) <==> (acc.contains(x) || s.contains(x)),
    decreases s.len(),
{
    if s.len() > 0 {
        let next = if acc.contains(s[0]) {
            acc
        } else {
            acc.push(s[0])
        };
        lemma_add_new_contains(next, s.skip(1), x);
        if s.contains(x) && !acc.contains(x) {
            let k = choose|k: int| 0 <= k < s.len() && s[k] == x;
            if k == 0 {
                if !acc.contains(s[0]) {
                    assert(next[next.len() - 1] == x);
                }
            } else {
                assert(s.skip(1)[k - 1] == x);
            }
        }
        if s.skip(1).contains(x) {
            let k = choose|k: int| 0 <= k < s.skip(1).len() && s.skip(1)[k] == x;
            assert(s[k + 1] == x);
        }
        if next.contains(x) && !acc.contains(x) {
            let k = choose|k: int| 0 <= k < next.len() && next[k] == x;
            assert(s[0] == x);
        }
        if acc.contains(x) {
            let k = choose|k: int| 0 <= k < acc.len() && acc[k] == x;
            assert(next[k] == x);
        }
    }
}

pub proof fn lemma_unknown_free(found: Seq<Seq<char>>)
    ensures
        unknown_placeholder_issues(found).len() == 0 ==> forall|k: int|
            0 <= k < found.len() ==> required_placeholders().contains(#[trigger] found[k]),
    decreases found.len(),
{
    if found.len() > 0 {
        lemma_unknown_free(found.drop_last());
        if unknown_placeholder_issues(found).len() == 0 {
            assert forall|k: int| 0 <= k < found.len() implies required_placeholders().contains(
                #[trigger] found[k],
            ) by {
                if k < found.len() - 1 {
                    assert(found.drop_last()[k] == found[k]);
                }
            }
        }
    }
}

/// A valid configuration's footer template uses each of the four supported
/// placeholders, and every placeholder it uses is one of them.
pub proof fn law_valid_footer_template(c: SiteConfig)
    requires
        config_issues(c).len() == 0,
    ensures
        forall|k: int|
            0 <= k < 4 ==> placeholder_scan(c.footer.text_template@).contains(
                #[trigger] required_placeholders()[k],
            ),
        forall|k: int|
            0 <= k < placeholder_scan(c.footer.text_template@).len() ==> required_placeholders().contains(
                #[trigger] placeholder_scan(c.footer.text_template@)[k],
            ),
{
    let scan = placeholder_scan(c.footer.text_template@);
    let found = distinct(scan);
    assert(footer_issues(c).len() == 0);
    lemma_unknown_free(found);
    assert forall|k: int| 0 <= k < 4 implies scan.contains(#[trigger] required_placeholders()[k]) by {
        let name = required_placeholders()[k];
        assert(found.contains(name));
        lemma_add_new_contains(seq![], scan, name);
    }
    assert forall|k: int| 0 <= k < scan.len() implies required_placeholders().contains(
        #[trigger] scan[k],
    ) by {
        lemma_add_new_contains(seq![], scan, scan[k]);
        assert(found.contains(scan[k]));
        let j = choose|j: int| 0 <= j < found.len() && found[j] == scan[k];
        assert(required_placeholders().contains(found[j]));
    }
}

/// With no issue raised, no check in the list failed.
proof fn lemma_no_conditional_issue(checks: Seq<(bool, Seq<char>)>)
    requires
        conditional_issues(checks).len() == 0,
    ensures
        forall|k: int| 0 <= k < checks.len() ==> !(#[trigger] checks[k]).0,
    decreases checks.len(),
{
    if checks.len() > 0 {
        lemma_no_conditional_issue(checks.drop_last());
        assert forall|k: int| 0 <= k < checks.len() implies !(#[trigger] checks[k]).0 by {
            if k < checks.len() - 1 {
                assert(checks[k] == checks.drop_last()[k]);
            }
        }
    }
}

/// With no issue raised, no duration exceeds one minute.
proof fn lemma_no_duration_issue(durations: Seq<(Seq<char>, u32)>)
    requires
        duration_issues(durations).len() == 0,
    ensures
        forall|k: int| 0 <= k < durations.len() ==> (#[trigger] durations[k]).1 <= 60000,
    decreases durations.len(),
{
    if durations.len() > 0 {
        lemma_no_duration_issue(durations.drop_last());
        assert forall|k: int| 0 <= k < durations.len() implies (#[trigger] durations[k]).1
            <= 60000 by {
            if k < durations.len() - 1 {
                assert(durations[k] == durations.drop_last()[k]);
            }
        }
    }
}

/// A configuration that passes validation has every numeric setting in its
/// range: a timezone offset of at most 23 hours either way, a working
/// window inside the day that starts before it ends, one to 53 weeks of
/// one to seven days, at least two month labels and one day label, strictly
/// increasing level thresholds with exactly five colours, a positive grid
/// cell size with a minimum cell count no larger than the maximum, and no
/// animation timing above one minute.
pub proof fn law_valid_settings_are_in_range(c: SiteConfig)
    requires
        config_issues(c).len() == 0,
    ensures
        -23 <= c.hero.timezone_offset_hours <= 23,
        c.hero.working_hours_start < c.hero.working_hours_end <= 24,
        1 <= c.activity.weeks <= 53,
        1 <= c.activity.days <= 7,
        c.activity.months@.len() >= 2,
        c.activity.day_labels@.len() >= 1,
        forall|i: int|
            0 <= i < 3 ==> c.activity.level_thresholds@[i]
                < #[trigger] c.activity.level_thresholds@[i + 1],
        c.activity.level_colors@.len() == 5,
        c.background.blinking_grid_min_cells <= c.background.blinking_grid_max_cells,
        c.background.blinking_grid_cell_size_px > 0,
        c.animation.hero_image_duration_ms <= 60000,
        c.animation.hero_content_delay_ms <= 60000,
        c.animation.section_duration_ms <= 60000,
        c.animation.news_item_duration_ms <= 60000,
        c.animation.item_stagger_ms <= 60000,
        c.animation.heatmap_cell_duration_ms <= 60000,
        c.animation.heatmap_cell_stagger_ms <= 60000,
        c.animation.theme_transition_ms <= 60000,
        c.animation.image_transition_ms <= 60000,
{
    assert(range_issues(c).len() == 0);
    lemma_no_conditional_issue(range_checks(c));
    lemma_no_duration_issue(durations(c));
    let checks = range_checks(c);
    let ds = durations(c);
    assert(!checks[0].0 && !checks[1].0 && !checks[2].0 && !checks[3].0 && !checks[4].0);
    assert(!checks[5].0 && !checks[6].0 && !checks[7].0 && !checks[8].0 && !checks[9].0);
    assert(!checks[10].0 && !checks[11].0);
    assert(ds[0].1 <= 60000 && ds[1].1 <= 60000 && ds[2].1 <= 60000 && ds[3].1 <= 60000);
    assert(ds[4].1 <= 60000 && ds[5].1 <= 60000 && ds[6].1 <= 60000 && ds[7].1 <= 60000);
    assert(ds[8].1 <= 60000);
}

} // verus!
