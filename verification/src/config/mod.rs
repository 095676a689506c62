//! The typed site configuration: every piece of content, every label, link,
//! timing and colour that the site renders, with the cross-field rules that a
//! configuration must satisfy before a page is generated from it.
use vstd::prelude::*;

use crate::text::{
    chars_of, push_all, push_signed_decimal, push_str, replace, replace_exec, signed_decimal,
    string_of, trim_char, trim_char_exec, trim_start_char,
};

pub mod validate;

pub use validate::{allowed_url_scheme, template_placeholders};

verus! {

/// Why a site configuration was rejected.
#[derive(Debug, Clone, PartialEq, Eq)]
pub enum ConfigError {
    /// The TOML source could not be read into the configuration types.
    Parse(String),
    /// The configuration was read but breaks cross-field rules; the message
    /// lists every issue, one per line.
    Validation(String),
}

impl ConfigError {
    /// The human-readable description of the error.
    pub fn to_string(&self) -> (r: String)
        ensures
            r@ == match self {
                ConfigError::Parse(m) => "failed to parse site configuration: "@ + m@,
                ConfigError::Validation(m) => "invalid site configuration:\n"@ + m@,
            },
    {
        let mut out: Vec<char> = Vec::new();
        match self {
            ConfigError::Parse(m) => {
                push_str(&mut out, "failed to parse site configuration: ");
                push_str(&mut out, m.as_str());
            },
            ConfigError::Validation(m) => {
                push_str(&mut out, "invalid site configuration:\n");
                push_str(&mut out, m.as_str());
            },
        }
        string_of(out.as_slice())
    }
}

/// The complete site configuration.
#[derive(Debug, Clone, PartialEq)]
pub struct SiteConfig {
    pub site: SiteMetaConfig,
    pub navbar: NavbarConfig,
    pub hero: HeroConfig,
    pub news: NewsConfig,
    pub publications: PublicationsConfig,
    pub teaching: TeachingConfig,
    pub activity: ActivityConfig,
    pub background: BackgroundConfig,
    pub scroll_to_top: ScrollToTopConfig,
    pub footer: FooterConfig,
    pub animation: AnimationConfig,
    pub design: DesignConfig,
}

/// Page-level metadata.
#[derive(Debug, Clone, PartialEq, Eq)]
pub struct SiteMetaConfig {
    pub title: String,
    pub description: String,
    pub language: String,
    pub canonical_url: String,
    pub favicon_url: String,
    pub social_image_url: String,
    pub social_image_alt: String,
    pub social_card: String,
    pub robots: String,
    pub google_site_verification: String,
    pub skip_to_content_label: String,
    pub default_theme: ThemeChoice,
    pub theme_storage_key: String,
    pub base_path: String,
}

/// A colour-scheme choice.
#[derive(Debug, Clone, Copy, PartialEq, Eq, Structural)]
pub enum ThemeChoice {
    System,
    Light,
    Dark,
}

impl ThemeChoice {
    /// The lower-case name used in configuration and markup.
    pub fn as_str(self) -> (r: &'static str)
        ensures
            r@ == theme_name(self),
    {
        match self {
            ThemeChoice::System => "system",
            ThemeChoice::Light => "light",
            ThemeChoice::Dark => "dark",
        }
    }

    /// The theme a toggle switches to: dark becomes light, anything else
    /// becomes dark.
    pub fn toggled(self) -> (r: ThemeChoice)
        ensures
            r == toggled_theme(self),
    {
        match self {
            ThemeChoice::Dark => ThemeChoice::Light,
            ThemeChoice::System | ThemeChoice::Light => ThemeChoice::Dark,
        }
    }
}

/// The name of a theme choice.
pub open spec fn theme_name(t: ThemeChoice) -> Seq<char> {
    match t {
        ThemeChoice::System => "system"@,
        ThemeChoice::Light => "light"@,
        ThemeChoice::Dark => "dark"@,
    }
}

/// The theme that a toggle switches to.
pub open spec fn toggled_theme(t: ThemeChoice) -> ThemeChoice {
    match t {
        ThemeChoice::Dark => ThemeChoice::Light,
        _ => ThemeChoice::Dark,
    }
}

/// Toggling never lands on `System`, and two toggles from an explicit
/// light or dark choice return to it.
pub proof fn law_toggle_alternates(t: ThemeChoice)
    ensures
        toggled_theme(t) != ThemeChoice::System,
        t != ThemeChoice::System ==> toggled_theme(toggled_theme(t)) == t,
        toggled_theme(toggled_theme(toggled_theme(t))) == toggled_theme(t),
{
}

/// The navigation bar.
#[derive(Debug, Clone, PartialEq, Eq)]
pub struct NavbarConfig {
    pub brand: String,
    pub brand_url: String,
    pub cv_label: String,
    pub cv_url: String,
    pub show_cv: bool,
    pub theme_toggle_label: String,
    pub primary_navigation_label: String,
    pub mobile_menu_open_label: String,
    pub mobile_menu_close_label: String,
    pub links: Vec<NavLink>,
}

/// One navigation link.
#[derive(Debug, Clone, PartialEq, Eq)]
pub struct NavLink {
    pub name: String,
    pub href: String,
}

/// The profile section.
#[derive(Debug, Clone, PartialEq)]
pub struct HeroConfig {
    pub anchor: String,
    pub about_anchor: String,
    pub first_name: String,
    pub last_name: String,
    pub role: String,
    pub location: String,
    pub company: String,
    pub bio: String,
    pub bio_italic_phrases: Vec<String>,
    pub bio_links: Vec<HeroBioLink>,
    pub image_url: String,
    pub image_alt: String,
    pub interests_title: String,
    pub timezone_offset_hours: i8,
    pub working_hours_start: u8,
    pub working_hours_end: u8,
    pub available_title: String,
    pub offline_title: String,
    pub interests: Vec<HeroInterest>,
    pub social_links: Vec<HeroSocialLink>,
}

/// A phrase of the biography rendered as a link.
#[derive(Debug, PartialEq, Eq)]
pub struct HeroBioLink {
    pub text: String,
    pub url: String,
}

/// A research interest.
#[derive(Debug, Clone, PartialEq, Eq)]
pub struct HeroInterest {
    pub name: String,
}

/// A social profile link.
#[derive(Debug, Clone, PartialEq, Eq)]
pub struct HeroSocialLink {
    pub platform: String,
    pub icon: String,
    pub url: String,
    pub username: String,
}

/// The news timeline.
#[derive(Debug, Clone, PartialEq, Eq)]
pub struct NewsConfig {
    pub anchor: String,
    pub heading: String,
    pub items: Vec<NewsItem>,
    pub tag_styles: Vec<TagStyle>,
}

/// One news entry.
#[derive(Debug, Clone, PartialEq, Eq)]
pub struct NewsItem {
    pub id: String,
    pub date: String,
    pub title: String,
    pub description: String,
    pub tag: String,
    pub links: Vec<NewsItemLink>,
}

/// A phrase of a news description rendered as a link.
#[derive(Debug, PartialEq, Eq)]
pub struct NewsItemLink {
    pub text: String,
    pub url: String,
}

/// The colours of a news tag.
#[derive(Debug, Clone, PartialEq, Eq)]
pub struct TagStyle {
    pub name: String,
    pub light_background: String,
    pub light_text: String,
    pub dark_background: String,
    pub dark_text: String,
}

/// The research output section.
#[derive(Debug, Clone, PartialEq)]
pub struct PublicationsConfig {
    pub anchor: String,
    pub heading: String,
    pub subtitle: String,
    pub total_label: String,
    pub total_value: String,
    pub citations_label: String,
    pub citations_value: String,
    pub output_heading: String,
    pub output_range: String,
    pub papers_label: String,
    pub pdf_label: String,
    pub code_label: String,
    pub highlight_author: String,
    pub stats: Vec<PublicationStat>,
    pub items: Vec<PublicationItem>,
}

/// Publications in one year.
#[derive(Debug, Clone, PartialEq, Eq)]
pub struct PublicationStat {
    pub year: u16,
    pub count: u16,
}

/// One publication.
#[derive(Debug, Clone, PartialEq)]
pub struct PublicationItem {
    pub id: String,
    pub title: String,
    pub venue: String,
    pub year: u16,
    pub authors: Vec<String>,
    pub description: String,
    pub tags: Vec<String>,
    pub image_url: String,
    pub image_alt: String,
    pub pdf_url: String,
    pub code_url: String,
}

/// The teaching section.
#[derive(Debug, Clone, PartialEq, Eq)]
pub struct TeachingConfig {
    pub anchor: String,
    pub heading: String,
    pub semester_prefix: String,
    pub items: Vec<TeachingItem>,
}

/// One course.
#[derive(Debug, Clone, PartialEq, Eq)]
pub struct TeachingItem {
    pub id: String,
    pub code: String,
    pub title: String,
    pub semester: String,
    pub description: String,
    pub materials_url: String,
}

/// The contribution heatmap.
#[derive(Debug, Clone, PartialEq)]
pub struct ActivityConfig {
    pub anchor: String,
    pub heading: String,
    pub less_label: String,
    pub more_label: String,
    pub level_title_prefix: String,
    pub weeks: u8,
    pub days: u8,
    pub months: Vec<String>,
    pub day_labels: Vec<String>,
    pub seed_week_multiplier: u32,
    pub seed_day_multiplier: u32,
    pub seed_cross_multiplier: u32,
    pub seed_offset: u32,
    pub level_thresholds: [u8; 4],
    pub level_colors: Vec<ActivityColor>,
}

/// A heatmap level colour in both themes.
#[derive(Debug, Clone, PartialEq, Eq)]
pub struct ActivityColor {
    pub light: String,
    pub dark: String,
}

/// The decorative background.
#[derive(Debug, Clone, PartialEq)]
pub struct BackgroundConfig {
    pub pointer_glow_size_px: u16,
    pub pointer_glow_blur_px: u16,
    pub pointer_glow_color: String,
    pub pointer_glow_fade: String,
    pub blinking_grid_enabled: bool,
    pub blinking_grid_cell_size_px: u16,
    pub blinking_grid_min_cells: u8,
    pub blinking_grid_max_cells: u8,
    pub blinking_grid_interval_ms: u32,
    pub blinking_grid_duration_ms: u32,
}

/// The scroll-to-top control.
#[derive(Debug, Clone, PartialEq, Eq)]
pub struct ScrollToTopConfig {
    pub title: String,
    pub threshold_px: u32,
    pub behavior: ScrollBehavior,
}

/// How the window scrolls back to the top.
#[derive(Debug, Clone, Copy, PartialEq, Eq, Structural)]
pub enum ScrollBehavior {
    Auto,
    Smooth,
}

/// The footer.
#[derive(Debug, Clone, PartialEq, Eq)]
pub struct FooterConfig {
    pub owner: String,
    pub powered_by: String,
    pub hosted_by: String,
    pub year_mode: FooterYearMode,
    pub fixed_year: i32,
    pub text_template: String,
}

/// Which year the footer shows.
#[derive(Debug, Clone, Copy, PartialEq, Eq, Structural)]
pub enum FooterYearMode {
    /// The year the site was built.
    Build,
    /// The configured `fixed_year`.
    Fixed,
}

/// Motion settings. The two size factors are stored as the IEEE-754 bit
/// patterns of their `f32` values (`f32::to_bits`).
#[derive(Debug, Clone, PartialEq)]
pub struct AnimationConfig {
    pub enabled: bool,
    pub respect_reduced_motion: bool,
    pub entrance_easing: String,
    pub hero_image_duration_ms: u32,
    pub hero_content_delay_ms: u32,
    pub section_duration_ms: u32,
    pub news_item_duration_ms: u32,
    pub item_stagger_ms: u32,
    pub heatmap_cell_duration_ms: u32,
    pub heatmap_cell_stagger_ms: u32,
    pub theme_transition_ms: u32,
    pub image_transition_ms: u32,
    pub hover_lift_px_bits: u32,
    pub heatmap_hover_scale_bits: u32,
}

/// Theme colours.
#[derive(Debug, Clone, PartialEq, Eq)]
pub struct DesignConfig {
    pub primary: String,
    pub primary_dark: String,
    pub secondary: String,
    pub light_background: String,
    pub dark_background: String,
    pub light_text: String,
    pub dark_text: String,
    pub light_card: String,
    pub dark_card: String,
}

/// The six section anchors, in page order: hero, about, news,
/// publications, teaching, activity.
pub open spec fn anchor_views(c: SiteConfig) -> Seq<Seq<char>> {
    seq![
        c.hero.anchor@,
        c.hero.about_anchor@,
        c.news.anchor@,
        c.publications.anchor@,
        c.teaching.anchor@,
        c.activity.anchor@,
    ]
}

/// The year the footer shows for a build year.
pub open spec fn footer_year_of(f: FooterConfig, build_year: i32) -> i32 {
    match f.year_mode {
        FooterYearMode::Build => build_year,
        FooterYearMode::Fixed => f.fixed_year,
    }
}

/// The footer template with `{year}`, `{owner}`, `{powered_by}` and
/// `{hosted_by}` replaced, in that order.
pub open spec fn footer_text_of(f: FooterConfig, build_year: i32) -> Seq<char> {
    replace(
        replace(
            replace(
                replace(
                    f.text_template@,
                    "{year}"@,
                    signed_decimal(footer_year_of(f, build_year) as int),
                ),
                "{owner}"@,
                f.owner@,
            ),
            "{powered_by}"@,
            f.powered_by@,
        ),
        "{hosted_by}"@,
        f.hosted_by@,
    )
}

impl SiteConfig {
    /// The six section anchors, in page order.
    pub fn anchor_ids(&self) -> (r: [&str; 6])
        ensures
            forall|i: int| 0 <= i < 6 ==> (#[trigger] r@[i])@ == anchor_views(*self)[i],
    {
        [
            self.hero.anchor.as_str(),
            self.hero.about_anchor.as_str(),
            self.news.anchor.as_str(),
            self.publications.anchor.as_str(),
            self.teaching.anchor.as_str(),
            self.activity.anchor.as_str(),
        ]
    }

    /// The year shown in the footer: the build year or the fixed year.
    pub fn footer_year(&self, build_year: i32) -> (r: i32)
        ensures
            r == footer_year_of(self.footer, build_year),
    {
        match self.footer.year_mode {
            FooterYearMode::Build => build_year,
            FooterYearMode::Fixed => self.footer.fixed_year,
        }
    }

    /// The footer text: the template with its four placeholders filled in.
    pub fn footer_text(&self, build_year: i32) -> (r: String)
        ensures
            r@ == footer_text_of(self.footer, build_year),
    {
        let year = self.footer_year(build_year);
        let mut year_text: Vec<char> = Vec::new();
        push_signed_decimal(&mut year_text, year as i64);
        proof {
            reveal_strlit("{year}");
            reveal_strlit("{owner}");
            reveal_strlit("{powered_by}");
            reveal_strlit("{hosted_by}");
        }
        let t0 = chars_of(self.footer.text_template.as_str());
        let t1 = replace_placeholder(t0.as_slice(), "{year}", year_text.as_slice());
        let owner = chars_of(self.footer.owner.as_str());
        let t2 = replace_placeholder(t1.as_slice(), "{owner}", owner.as_slice());
        let powered = chars_of(self.footer.powered_by.as_str());
        let t3 = replace_placeholder(t2.as_slice(), "{powered_by}", powered.as_slice());
        let hosted = chars_of(self.footer.hosted_by.as_str());
        let t4 = replace_placeholder(t3.as_slice(), "{hosted_by}", hosted.as_slice());
        string_of(t4.as_slice())
    }
}

/// Replaces every occurrence of the non-empty literal `pattern` in `s`.
fn replace_placeholder(s: &[char], pattern: &str, value: &[char]) -> (r: Vec<char>)
    requires
        pattern@.len() > 0,
    ensures
        r@ == replace(s@, pattern@, value@),
{
    let p = chars_of(pattern);
    replace_exec(s, p.as_slice(), value)
}

/// A site path under the configured base path: `/base/path`, `/path` when
/// the base is empty, `/base/` when the path is empty.
pub open spec fn joined_path(base_path: Seq<char>, path: Seq<char>) -> Seq<char> {
    let base = trim_char(base_path, '/');
    let relative = trim_start_char(path, '/');
    if base.len() == 0 {
        seq!['/'] + relative
    } else if relative.len() == 0 {
        seq!['/'] + base + seq!['/']
    } else {
        seq!['/'] + base + seq!['/'] + relative
    }
}

/// Joins a site path onto the configured base path, ignoring slashes
/// around the base and before the path.
pub fn join_base_path(base_path: &str, path: &str) -> (r: String)
    ensures
        r@ == joined_path(base_path@, path@),
{
    let base_chars = chars_of(base_path);
    let base = trim_char_exec(base_chars.as_slice(), '/');
    let path_chars = chars_of(path);
    let mut start: usize = 0;
    assert(path@.skip(0) =~= path@);
    while start < path_chars.len() && path_chars[start] == '/'
        invariant
            start <= path_chars.len(),
            path_chars@ == path@,
            trim_start_char(path@, '/') == trim_start_char(path@.skip(start as int), '/'),
        decreases path_chars.len() - start,
    {
        assert(path@.skip(start as int).skip(1) == path@.skip(start + 1));
        start = start + 1;
    }
    let mut out: Vec<char> = Vec::new();
    out.push('/');
    push_all(&mut out, base.as_slice());
    if base.len() > 0 {
        out.push('/');
    }
    let ghost rest = path@.skip(start as int);
    assert(trim_start_char(rest, '/') == rest);
    let mut i = start;
    while i < path_chars.len()
        invariant
            start <= i <= path_chars.len(),
            path_chars@ == path@,
            out@ == (if base@.len() > 0 {
                seq!['/'] + base@ + seq!['/']
            } else {
                seq!['/']
            }) + path@.subrange(start as int, i as int),
        decreases path_chars.len() - i,
    {
        out.push(path_chars[i]);
        i = i + 1;
    }
    assert(path@.subrange(start as int, path@.len() as int) == rest);
    assert(out@ =~= joined_path(base_path@, path@));
    string_of(out.as_slice())
}

/// A lone base path and the empty relative path agree on the site root:
/// joining any base with the empty path gives `/` or `/base/`, and leading
/// slashes on the relative path never matter.
pub proof fn law_join_ignores_leading_slashes(base_path: Seq<char>, path: Seq<char>)
    ensures
        joined_path(base_path, seq!['/'] + path) == joined_path(base_path, path),
        joined_path(base_path, seq![]).len() > 0,
        joined_path(base_path, seq![])[0] == '/',
        joined_path(base_path, seq![]).last() == '/',
{
    let p = seq!['/'] + path;
    assert(p.len() > 0 && p[0] == '/');
    assert(p.skip(1) =~= path);
    assert(trim_start_char(seq![], '/') == Seq::<char>::empty());
}

impl Clone for HeroBioLink {
    fn clone(&self) -> (r: Self)
        ensures
            r == *self,
    {
        HeroBioLink { text: self.text.clone(), url: self.url.clone() }
    }
}

impl Clone for NewsItemLink {
    fn clone(&self) -> (r: Self)
        ensures
            r == *self,
    {
        NewsItemLink { text: self.text.clone(), url: self.url.clone() }
    }
}

} // verus!
