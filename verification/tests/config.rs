use arcademic_rust::config::{
    allowed_url_scheme, join_base_path, template_placeholders, ActivityColor, ActivityConfig,
    AnimationConfig, BackgroundConfig, ConfigError, DesignConfig, FooterConfig, FooterYearMode,
    HeroBioLink, HeroConfig, HeroInterest, HeroSocialLink, NavLink, NavbarConfig, NewsConfig,
    NewsItem, PublicationItem, PublicationStat, PublicationsConfig, ScrollBehavior,
    ScrollToTopConfig, SiteConfig, SiteMetaConfig, TagStyle, TeachingConfig, TeachingItem,
    ThemeChoice,
};
use arcademic_rust::components::hero::{localized_bio_link_texts, localized_italic_phrases};
use arcademic_rust::localization::{Catalog, Locale};
use arcademic_rust::finalize::{
    body_theme_variables, configured_values, design_variables, finalize_index,
    element_edits, normalized_root_reference, pages_404_document, pages_404_meta,
    pages_root, verify_configured_content,
};

fn s(text: &str) -> String {
    text.to_owned()
}

fn production_config() -> SiteConfig {
    SiteConfig {
        site: SiteMetaConfig {
            title: s("Tony Stark Academic Profile"),
            description: s(
                "Academic profile, research output, teaching, and activity for Tony Stark.",
            ),
            language: s("en"),
            canonical_url: s("https://example.com/"),
            favicon_url: s("/assets/favicon.png"),
            social_image_url: s("https://example.com/social-card.jpg"),
            social_image_alt: s("Tony Stark Academic Profile"),
            social_card: s("summary_large_image"),
            robots: s("index, follow"),
            google_site_verification: s("verification-token"),
            skip_to_content_label: s("Skip to main content"),
            default_theme: ThemeChoice::System,
            theme_storage_key: s("arcademic-color-mode"),
            base_path: s(""),
        },
        navbar: NavbarConfig {
            brand: s("Tony Stark"),
            brand_url: s("#home"),
            cv_label: s("CV"),
            cv_url: s("/cv.pdf"),
            show_cv: true,
            theme_toggle_label: s("Toggle theme"),
            primary_navigation_label: s("Primary navigation"),
            mobile_menu_open_label: s("Open menu"),
            mobile_menu_close_label: s("Close menu"),
            links: vec![
                NavLink { name: s("Home"), href: s("#home") },
                NavLink { name: s("About"), href: s("#about") },
                NavLink { name: s("News"), href: s("#news") },
                NavLink { name: s("Publications"), href: s("#publications") },
                NavLink { name: s("Teaching"), href: s("#teaching") },
                NavLink { name: s("Activity"), href: s("#activity") },
            ],
        },
        hero: HeroConfig {
            anchor: s("home"),
            about_anchor: s("about"),
            first_name: s("Tony"),
            last_name: s("Stark"),
            role: s("Chief Engineer"),
            location: s("Malibu, California"),
            company: s("Stark Industries"),
            bio: s("Builds arc reactors at Stark Industries."),
            bio_italic_phrases: vec![s("Stark Industries")],
            bio_links: vec![HeroBioLink {
                text: s("arc reactors"),
                url: s("https://example.com/reactor"),
            }],
            image_url: s("/assets/profile-photo.jpg"),
            image_alt: s("Portrait of Tony Stark"),
            interests_title: s("Interests"),
            timezone_offset_hours: -8,
            working_hours_start: 9,
            working_hours_end: 18,
            available_title: s("Available"),
            offline_title: s("Offline"),
            interests: vec![
                HeroInterest { name: s("Clean energy") },
                HeroInterest { name: s("Robotics") },
            ],
            social_links: vec![
                HeroSocialLink {
                    platform: s("GitHub"),
                    icon: s("github"),
                    url: s("https://github.com/tony"),
                    username: s("tony"),
                },
                HeroSocialLink {
                    platform: s("Email"),
                    icon: s("mail"),
                    url: s("mailto:tony@example.com"),
                    username: s("tony@example.com"),
                },
            ],
        },
        news: NewsConfig {
            anchor: s("news"),
            heading: s("News"),
            items: vec![
                NewsItem {
                    id: s("1"),
                    date: s("Aug 2026"),
                    title: s("Reactor upgrade"),
                    description: s("The new reactor is online."),
                    tag: s("Industry"),
                    links: vec![],
                },
                NewsItem {
                    id: s("2"),
                    date: s("Jul 2026"),
                    title: s("Guest lecture"),
                    description: s("A lecture on flight systems."),
                    tag: s("Education"),
                    links: vec![],
                },
            ],
            tag_styles: vec![
                TagStyle {
                    name: s("Education"),
                    light_background: s("#dbeafe"),
                    light_text: s("#1e40af"),
                    dark_background: s("#1e3a8a66"),
                    dark_text: s("#bfdbfe"),
                },
                TagStyle {
                    name: s("Industry"),
                    light_background: s("#f3e8ff"),
                    light_text: s("#6b21a8"),
                    dark_background: s("#581c8766"),
                    dark_text: s("#e9d5ff"),
                },
            ],
        },
        publications: PublicationsConfig {
            anchor: s("publications"),
            heading: s("Research"),
            subtitle: s("Selected work"),
            total_label: s("Total"),
            total_value: s("42"),
            citations_label: s("Citations"),
            citations_value: s("1000"),
            output_heading: s("Output"),
            output_range: s("2022-2026"),
            papers_label: s("papers"),
            pdf_label: s("PDF"),
            code_label: s("Code"),
            highlight_author: s("T. Stark"),
            stats: vec![
                PublicationStat { year: 2025, count: 4 },
                PublicationStat { year: 2026, count: 7 },
            ],
            items: (1..=3)
                .map(|index| PublicationItem {
                    id: format!("p{index}"),
                    title: format!("Paper {index}"),
                    venue: s("Journal of Reactors"),
                    year: 2026,
                    authors: vec![s("T. Stark"), s("P. Potts")],
                    description: format!("Description {index}."),
                    tags: vec![s("Energy")],
                    image_url: s("https://images.unsplash.com/photo-1"),
                    image_alt: format!("Figure {index}"),
                    pdf_url: if index == 1 { s("") } else { s("/papers/p.pdf") },
                    code_url: s("https://github.com/tony/code"),
                })
                .collect(),
        },
        teaching: TeachingConfig {
            anchor: s("teaching"),
            heading: s("Teaching"),
            semester_prefix: s("Semester"),
            items: (1..=4)
                .map(|index| TeachingItem {
                    id: format!("t{index}"),
                    code: format!("ENG-{index}01"),
                    title: format!("Course {index}"),
                    semester: s("Fall 2026"),
                    description: format!("Course description {index}."),
                    materials_url: if index == 4 { s("") } else { s("https://example.com/course") },
                })
                .collect(),
        },
        activity: ActivityConfig {
            anchor: s("activity"),
            heading: s("Activity"),
            less_label: s("Less"),
            more_label: s("More"),
            level_title_prefix: s("Level"),
            weeks: 52,
            days: 7,
            months: vec![s("Jan"), s("Feb"), s("Mar")],
            day_labels: vec![s("Mon"), s("Wed"), s("Fri")],
            seed_week_multiplier: 17,
            seed_day_multiplier: 31,
            seed_cross_multiplier: 7,
            seed_offset: 13,
            level_thresholds: [20, 40, 60, 80],
            level_colors: (0..5)
                .map(|level| ActivityColor {
                    light: format!("#l{level}"),
                    dark: format!("#d{level}"),
                })
                .collect(),
        },
        background: BackgroundConfig {
            pointer_glow_size_px: 900,
            pointer_glow_blur_px: 60,
            pointer_glow_color: s("rgba(34, 211, 238, 0.12)"),
            pointer_glow_fade: s("transparent"),
            blinking_grid_enabled: true,
            blinking_grid_cell_size_px: 40,
            blinking_grid_min_cells: 6,
            blinking_grid_max_cells: 10,
            blinking_grid_interval_ms: 800,
            blinking_grid_duration_ms: 3000,
        },
        scroll_to_top: ScrollToTopConfig {
            title: s("Back to top"),
            threshold_px: 300,
            behavior: ScrollBehavior::Smooth,
        },
        footer: FooterConfig {
            owner: s("Tony Stark"),
            powered_by: s("Arc Reactor Core"),
            hosted_by: s("Jarvis"),
            year_mode: FooterYearMode::Build,
            fixed_year: 2026,
            text_template: s(
                "© Copyright {year} {owner}. Powered by {powered_by}. Hosted by {hosted_by}.",
            ),
        },
        animation: AnimationConfig {
            enabled: true,
            respect_reduced_motion: true,
            entrance_easing: s("cubic-bezier(0.16, 1, 0.3, 1)"),
            hero_image_duration_ms: 900,
            hero_content_delay_ms: 200,
            section_duration_ms: 1200,
            news_item_duration_ms: 700,
            item_stagger_ms: 120,
            heatmap_cell_duration_ms: 300,
            heatmap_cell_stagger_ms: 6,
            theme_transition_ms: 300,
            image_transition_ms: 500,
            hover_lift_px_bits: 4.0f32.to_bits(),
            heatmap_hover_scale_bits: 1.3f32.to_bits(),
        },
        design: DesignConfig {
            primary: s("#06b6d4"),
            primary_dark: s("#0891b2"),
            secondary: s("#6366f1"),
            light_background: s("#f8fafc"),
            dark_background: s("#020617"),
            light_text: s("#0f172a"),
            dark_text: s("#e2e8f0"),
            light_card: s("rgba(255,255,255,0.7)"),
            dark_card: s("rgba(15,23,42,0.7)"),
        },
    }
}

fn validation_message(config: &SiteConfig) -> String {
    config.validate().expect_err("configuration must fail").to_string()
}

#[test]
fn production_configuration_is_valid() {
    let config = production_config();
    config.validate().expect("production config");
    assert_eq!(config.hero.first_name, "Tony");
    assert_eq!(config.publications.items.len(), 3);
    assert_eq!(config.teaching.items.len(), 4);
}

#[test]
fn duplicate_ids_are_rejected() {
    let mut config = production_config();
    config.news.items[1].id = s("1");
    let error = config.validate().expect_err("duplicate id must fail");
    assert!(
        error
            .to_string()
            .contains("news.items contains duplicate id `1`")
    );
}

#[test]
fn unknown_navigation_anchor_is_rejected() {
    let mut config = production_config();
    config.navbar.links[2].href = s("#missing");
    let error = config.validate().expect_err("unknown anchor must fail");
    assert!(
        error
            .to_string()
            .contains("targets unknown anchor `missing`")
    );
}

#[test]
fn duplicate_section_anchors_are_rejected() {
    let mut config = production_config();
    config.publications.anchor = s("news");
    let error = config.validate().expect_err("duplicate anchor must fail");
    assert!(
        error
            .to_string()
            .contains("duplicate section anchor `news`")
    );
}

#[test]
fn invalid_url_scheme_is_rejected() {
    let mut config = production_config();
    config.site.canonical_url = s("javascript:alert(1)");
    let error = config.validate().expect_err("invalid URL must fail");
    assert!(error.to_string().contains("site.canonical_url"));
}

#[test]
fn invalid_ranges_are_rejected() {
    let mut config = production_config();
    config.hero.working_hours_start = 19;
    let error = config.validate().expect_err("hour range must fail");
    assert!(
        error
            .to_string()
            .contains("working hour start must be before end")
    );
}

#[test]
fn invalid_activity_dimensions_are_rejected() {
    let mut config = production_config();
    config.activity.weeks = 0;
    let error = config.validate().expect_err("grid dimension must fail");
    assert!(
        error
            .to_string()
            .contains("activity.weeks must be between 1 and 53")
    );
}

#[test]
fn invalid_animation_duration_is_rejected() {
    let mut config = production_config();
    config.animation.section_duration_ms = 60001;
    let error = config.validate().expect_err("duration must fail");
    assert!(
        error
            .to_string()
            .contains("animation.section_duration_ms must not exceed 60000")
    );
}

#[test]
fn footer_template_is_checked_and_rendered() {
    let config = production_config();
    config.validate().expect("production config");
    assert_eq!(
        config.footer_text(2034),
        "© Copyright 2034 Tony Stark. Powered by Arc Reactor Core. Hosted by Jarvis."
    );

    let mut config = production_config();
    config.footer.text_template = config.footer.text_template.replace("{hosted_by}", "{mystery}");
    let error = config.validate().expect_err("placeholder must fail");
    assert!(
        error
            .to_string()
            .contains("unknown placeholder `{mystery}`")
    );
}

#[test]
fn base_path_joining_is_deterministic() {
    assert_eq!(join_base_path("", "/assets/main.css"), "/assets/main.css");
    assert_eq!(
        join_base_path("/arcademic-rust/", "/assets/main.css"),
        "/arcademic-rust/assets/main.css"
    );
    assert_eq!(join_base_path("arcademic-rust", ""), "/arcademic-rust/");
}

#[test]
fn theme_toggle_has_a_deterministic_initial_transition() {
    assert_eq!(ThemeChoice::System.toggled(), ThemeChoice::Dark);
    assert_eq!(ThemeChoice::Light.toggled(), ThemeChoice::Dark);
    assert_eq!(ThemeChoice::Dark.toggled(), ThemeChoice::Light);
}

#[test]
fn theme_names_and_double_toggle() {
    assert_eq!(ThemeChoice::System.as_str(), "system");
    assert_eq!(ThemeChoice::Light.as_str(), "light");
    assert_eq!(ThemeChoice::Dark.as_str(), "dark");
    for theme in [ThemeChoice::Light, ThemeChoice::Dark] {
        assert_eq!(theme.toggled().toggled(), theme);
    }
    assert_ne!(ThemeChoice::System.toggled(), ThemeChoice::System);
}

#[test]
fn validation_lists_every_issue_in_rule_order() {
    let mut config = production_config();
    config.site.title = s("  ");
    config.hero.anchor = s("bad anchor");
    config.news.items[0].id = s(" ");
    config.news.items[1].tag = s("Sports");
    config.hero.timezone_offset_hours = 24;
    config.footer.text_template = s("{year} {owner} {powered_by}");
    assert_eq!(
        validation_message(&config),
        "invalid site configuration:\n\
         - site.title must not be empty\n\
         - section anchor `bad anchor` is invalid\n\
         - navbar.links[0].href targets unknown anchor `home`\n\
         - news.items contains an empty id\n\
         - news.items[1].tag `Sports` has no configured tag style\n\
         - hero.timezone_offset_hours must be between -23 and 23\n\
         - footer.text_template must include `{hosted_by}`"
    );
}

#[test]
fn url_rules_distinguish_paths_fragments_and_schemes() {
    let mut config = production_config();
    config.site.favicon_url = s("#icon");
    config.navbar.cv_url = s("mailto:tony@example.com");
    config.hero.social_links[0].url = s("/relative");
    config.publications.items[1].pdf_url = s("ftp://example.com/p.pdf");
    config.teaching.items[0].materials_url = s("#materials");
    assert_eq!(
        validation_message(&config),
        "invalid site configuration:\n\
         - site.favicon_url must use an allowed absolute URL scheme\n\
         - hero.social_links[0].url must use an allowed absolute URL scheme\n\
         - publications.items[1].pdf_url must use an allowed absolute URL scheme"
    );
    let mut config = production_config();
    config.site.canonical_url = s("mailto:tony@example.com");
    assert!(validation_message(&config).contains("site.canonical_url must use"));
}

#[test]
fn parsed_schemes_are_checked_against_the_allowed_list() {
    assert!(allowed_url_scheme(&Some(s("https")), false));
    assert!(allowed_url_scheme(&Some(s("http")), false));
    assert!(!allowed_url_scheme(&Some(s("mailto")), false));
    assert!(allowed_url_scheme(&Some(s("mailto")), true));
    assert!(!allowed_url_scheme(&Some(s("javascript")), true));
    assert!(!allowed_url_scheme(&None, true));
}

#[test]
fn range_rules_cover_every_setting() {
    let mut config = production_config();
    config.hero.working_hours_start = 24;
    config.hero.working_hours_end = 0;
    config.activity.days = 8;
    config.activity.months = vec![s("Jan")];
    config.activity.day_labels = vec![];
    config.activity.level_thresholds = [10, 10, 20, 30];
    config.activity.level_colors.pop();
    config.background.blinking_grid_min_cells = 11;
    config.background.blinking_grid_cell_size_px = 0;
    config.animation.image_transition_ms = 70000;
    config.animation.hover_lift_px_bits = (-1.0f32).to_bits();
    config.animation.heatmap_hover_scale_bits = f32::NAN.to_bits();
    assert_eq!(
        validation_message(&config),
        "invalid site configuration:\n\
         - hero.working_hours_start must be between 0 and 23\n\
         - hero.working_hours_end must be between 1 and 24\n\
         - hero working hour start must be before end\n\
         - activity.days must be between 1 and 7\n\
         - activity.months must contain at least two labels\n\
         - activity.day_labels must not be empty\n\
         - activity.level_thresholds must be strictly increasing\n\
         - activity.level_colors must contain exactly five levels\n\
         - background.blinking_grid_min_cells must not exceed max_cells\n\
         - background.blinking_grid_cell_size_px must be positive\n\
         - animation.image_transition_ms must not exceed 60000\n\
         - animation.hover_lift_px must be finite and non-negative\n\
         - animation.heatmap_hover_scale must be finite and positive"
    );
    let mut config = production_config();
    config.animation.hover_lift_px_bits = (-0.0f32).to_bits();
    config.animation.heatmap_hover_scale_bits = 0.0f32.to_bits();
    assert_eq!(
        validation_message(&config),
        "invalid site configuration:\n\
         - animation.heatmap_hover_scale must be finite and positive"
    );
    let mut config = production_config();
    config.animation.hover_lift_px_bits = f32::INFINITY.to_bits();
    assert!(validation_message(&config).contains("hover_lift_px"));
}

#[test]
fn anchors_and_ids_must_be_unique() {
    let mut config = production_config();
    config.teaching.items[2].id = s("t1");
    config.publications.items[0].id = s("");
    config.activity.anchor = s("");
    assert_eq!(
        validation_message(&config),
        "invalid site configuration:\n\
         - section anchor `` is invalid\n\
         - navbar.links[5].href targets unknown anchor `activity`\n\
         - publications.items contains an empty id\n\
         - teaching.items contains duplicate id `t1`"
    );
}

#[test]
fn placeholders_are_listed_once_in_order() {
    assert_eq!(
        template_placeholders("{a} and {b} then {a} {unclosed"),
        vec![s("a"), s("b")]
    );
    assert_eq!(template_placeholders("no placeholders"), Vec::<String>::new());
    assert_eq!(template_placeholders("{}{x}"), vec![s(""), s("x")]);
}

#[test]
fn fixed_footer_year_ignores_the_build_year() {
    let mut config = production_config();
    config.footer.year_mode = FooterYearMode::Fixed;
    config.footer.fixed_year = 2020;
    assert_eq!(config.footer_year(2034), 2020);
    assert_eq!(
        config.footer_text(2034),
        "© Copyright 2020 Tony Stark. Powered by Arc Reactor Core. Hosted by Jarvis."
    );
    config.footer.fixed_year = -5;
    assert!(config.footer_text(0).contains("Copyright -5 Tony"));
    assert_eq!(
        config.anchor_ids(),
        ["home", "about", "news", "publications", "teaching", "activity"]
    );
}

#[test]
fn error_descriptions_name_their_kind() {
    assert_eq!(
        ConfigError::Parse(s("missing field `description`")).to_string(),
        "failed to parse site configuration: missing field `description`"
    );
    assert_eq!(
        ConfigError::Validation(s("- x")).to_string(),
        "invalid site configuration:\n- x"
    );
}

#[test]
fn pages_root_matches_an_empty_join() {
    for base in ["", "/", "arcademic-rust", "/arcademic-rust/", "//a//"] {
        assert_eq!(pages_root(base), join_base_path(base, ""));
    }
    assert_eq!(pages_root("/arcademic-rust/"), "/arcademic-rust/");
    assert_eq!(pages_root(""), "/");
}

#[test]
fn pages_404_meta_refreshes_to_the_root() {
    assert_eq!(
        pages_404_meta("/arcademic-rust/"),
        "<meta http-equiv=\"refresh\" content=\"0; url=/arcademic-rust/\">"
    );
    assert_eq!(
        pages_404_meta("a&b\"<c>"),
        "<meta http-equiv=\"refresh\" content=\"0; url=/a&amp;b&quot;&lt;c&gt;/\">"
    );
}

#[test]
fn root_references_are_normalized() {
    assert_eq!(
        normalized_root_reference("/./assets/main.css").as_deref(),
        Some("/assets/main.css")
    );
    assert_eq!(normalized_root_reference("/assets/main.css"), None);
    assert_eq!(normalized_root_reference("./x"), None);
}

#[test]
fn body_theme_variables_use_the_design_colours() {
    let config = production_config();
    assert_eq!(
        body_theme_variables(&config),
        "--light-bg: #f8fafc; --dark-bg: #020617; --light-text: #0f172a; --dark-text: #e2e8f0;"
    );
}

#[test]
fn configured_values_cover_every_repeated_collection() {
    let config = production_config();
    let values = configured_values(&config, config.footer.fixed_year);
    for item in &config.news.items {
        assert!(values.contains(&item.title));
    }
    for item in &config.publications.items {
        assert!(values.contains(&item.title));
    }
    for item in &config.teaching.items {
        assert!(values.contains(&item.title));
    }
    assert!(values.iter().all(|value| !value.is_empty()));
    assert_eq!(values[0], "Tony Stark Academic Profile");
    assert!(values.contains(&s("2026")));
    assert!(values.contains(&s("7")));
}

#[test]
fn content_verifier_reports_the_missing_value() {
    let config = production_config();
    let error = verify_configured_content(
        "<html><body></body></html>",
        "",
        &config,
        config.footer.fixed_year,
    )
    .expect_err("empty page must fail");
    assert!(error.contains(&config.site.title));
}

#[test]
fn content_verifier_decodes_entities_and_checks_the_base_path() {
    let config = production_config();
    let year = config.footer.fixed_year;
    let values = configured_values(&config, year);
    let body = values.join(" | ").replace('&', "&amp;").replace('©', "&copy;");
    let page = format!(
        "<html><head><link href=\"/arcademic-rust/assets/main.css\"></head>\
         <body><script src=\"/arcademic-rust/main.js\"></script>{body}</body></html>"
    );
    assert_eq!(verify_configured_content(&page, "", &config, year), Ok(()));
    assert_eq!(
        verify_configured_content(&page, "/arcademic-rust/", &config, year),
        Ok(())
    );
    assert_eq!(
        verify_configured_content(&page, "other", &config, year),
        Err(s("generated assets do not use base path /other/"))
    );
}

#[test]
fn biography_phrases_follow_the_locale() {
    let config = production_config();
    let catalog = Catalog::from_json(
        r#"{"hero.bio_italic.cuhk": "香港中文大学", "hero.bio_link.1.text": "导师"}"#,
    )
    .expect("catalog");
    assert_eq!(
        localized_italic_phrases(&catalog, Locale::English, &config.hero),
        config.hero.bio_italic_phrases
    );
    assert_eq!(
        localized_italic_phrases(&catalog, Locale::ChineseSimplified, &config.hero),
        vec![s("香港中文大学"), s(""), s("")]
    );
    let english = localized_bio_link_texts(&catalog, Locale::English, &config.hero);
    assert_eq!(
        english,
        config
            .hero
            .bio_links
            .iter()
            .map(|link| link.text.clone())
            .collect::<Vec<_>>()
    );
    let chinese = localized_bio_link_texts(&catalog, Locale::ChineseSimplified, &config.hero);
    assert_eq!(chinese.len(), config.hero.bio_links.len());
    assert_eq!(chinese[0], "导师");
}

#[test]
fn element_edits_follow_the_tag_and_the_references() {
    let set = vec![
        (s("html"), s("lang"), s("en")),
        (s("body"), s("style"), s("--light-bg: white;")),
    ];
    let normalize = vec![s("href"), s("src")];
    let append = vec![(s("head"), s("<meta>"))];
    assert_eq!(
        element_edits(&set, &normalize, &append, "html", vec![None, None]),
        (vec![(s("lang"), s("en"))], vec![])
    );
    assert_eq!(
        element_edits(&set, &normalize, &append, "body", vec![None, None]),
        (vec![(s("style"), s("--light-bg: white;"))], vec![])
    );
    assert_eq!(
        element_edits(&set, &normalize, &append, "a", vec![Some(s("/./x.css")), Some(s("/y.js"))]),
        (vec![(s("href"), s("/x.css"))], vec![])
    );
    assert_eq!(
        element_edits(&set, &normalize, &append, "img", vec![None, Some(s("/./a.png"))]),
        (vec![(s("src"), s("/a.png"))], vec![])
    );
    assert_eq!(
        element_edits(&set, &normalize, &append, "head", vec![]),
        (vec![], vec![s("<meta>")])
    );
    assert_eq!(element_edits(&set, &normalize, &append, "p", vec![]), (vec![], vec![]));
}

#[test]
fn finalized_index_is_rewritten_and_verified() {
    let config = production_config();
    let year = config.footer.fixed_year;
    let body = configured_values(&config, year)
        .join(" | ")
        .replace('&', "&amp;")
        .replace('©', "&copy;");
    let source = format!(
        "<html><head><link href=\"/./assets/main.css\"></head>\
         <body><img src=\"/./a.png\">{body}</body></html>"
    );
    let page = finalize_index(&source, "", &config, year).expect("finalized page");
    assert!(page.starts_with("<html lang=\"en\">"));
    assert!(page.contains(&format!("<body style=\"{}\">", body_theme_variables(&config))));
    assert!(page.contains("href=\"/assets/main.css\""));
    assert!(page.contains("src=\"/a.png\""));
    assert!(!page.contains("/./"));

    let error = finalize_index("<html><body></body></html>", "", &config, year)
        .expect_err("empty page must fail");
    assert!(error.contains(&config.site.title));
}

#[test]
fn pages_404_document_keeps_the_content_and_refreshes_to_the_root() {
    let page = pages_404_document(
        "<html><head></head><body><p>Hello</p></body></html>",
        "/arcademic-rust/",
    )
    .expect("404 page");
    assert_eq!(
        page,
        "<html><head><meta http-equiv=\"refresh\" content=\"0; url=/arcademic-rust/\"></head>\
         <body data-pages-404=\"true\"><p>Hello</p></body></html>"
    );
}

#[test]
fn design_variables_list_colours_timings_and_factors() {
    let config = production_config();
    let style = design_variables(&config, "4", "1.15");
    assert!(style.starts_with(&format!("--primary: {};", config.design.primary)));
    assert!(style.contains(&format!(
        " --theme-duration: {}ms;",
        config.animation.theme_transition_ms
    )));
    assert!(style.contains(" --hover-lift: 4px;"));
    assert!(style.ends_with(" --heatmap-hover-scale: 1.15;"));
}
