use arcademic_rust::components::hero::{
    bio_link_key, bio_segments, interest_key, BioSegment,
};
use arcademic_rust::components::navbar::navigation_key;
use arcademic_rust::components::news::{
    description_segments, localized_link_texts, news_key, news_link_key, tag_css_variables,
    tag_style, DescriptionSegment,
};
use arcademic_rust::config::{HeroBioLink, NewsConfig, NewsItem, NewsItemLink, TagStyle};
use arcademic_rust::localization::{Catalog, Locale};

#[test]
fn biography_segments_preserve_text_and_emphasis_order() {
    let bio = "Study at Alpha Institute and Beta Lab.";
    let phrases = vec!["Beta Lab".to_owned(), "Alpha Institute".to_owned()];

    let segments = bio_segments(bio, &phrases, &[]);

    assert_eq!(
        segments,
        vec![
            BioSegment {
                text: "Study at ".to_owned(),
                italic: false,
                link: None,
            },
            BioSegment {
                text: "Alpha Institute".to_owned(),
                italic: true,
                link: None,
            },
            BioSegment {
                text: " and ".to_owned(),
                italic: false,
                link: None,
            },
            BioSegment {
                text: "Beta Lab".to_owned(),
                italic: true,
                link: None,
            },
            BioSegment {
                text: ".".to_owned(),
                italic: false,
                link: None,
            },
        ]
    );
    assert_eq!(
        segments
            .iter()
            .map(|segment| segment.text.as_str())
            .collect::<String>(),
        bio
    );
}

#[test]
fn biography_segments_link_advisor_names() {
    let bio = "Advised by Prof. Junhua Zhao and Prof. Jianwei Huang.";
    let first = HeroBioLink {
        text: "Prof. Junhua Zhao".to_owned(),
        url: "https://www.zhaojunhua.org/".to_owned(),
    };
    let second = HeroBioLink {
        text: "Prof. Jianwei Huang".to_owned(),
        url: "https://jianwei.cuhk.edu.cn/".to_owned(),
    };
    let links = vec![(first.text.clone(), &first), (second.text.clone(), &second)];

    let segments = bio_segments(bio, &[], &links);

    assert_eq!(
        segments
            .iter()
            .filter(|segment| segment.link.is_some())
            .map(|segment| segment.text.as_str())
            .collect::<Vec<_>>(),
        vec!["Prof. Junhua Zhao", "Prof. Jianwei Huang"]
    );
    assert_eq!(
        segments
            .iter()
            .map(|segment| segment.link.is_some())
            .collect::<Vec<_>>(),
        vec![false, true, false, true, false]
    );
}

#[test]
fn description_segments_link_configured_names_in_order() {
    let first = NewsItemLink {
        text: "Prof. Junhua Zhao".to_owned(),
        url: "https://www.zhaojunhua.org/".to_owned(),
    };
    let second = NewsItemLink {
        text: "Prof. Jianwei Huang".to_owned(),
        url: "https://jianwei.cuhk.edu.cn/".to_owned(),
    };
    let description = "Advised by Prof. Junhua Zhao and Prof. Jianwei Huang.";
    let links = vec![(first.text.clone(), &first), (second.text.clone(), &second)];

    let segments = description_segments(description, &links);

    assert_eq!(
        segments,
        vec![
            DescriptionSegment {
                text: "Advised by ".to_owned(),
                link: None,
            },
            DescriptionSegment {
                text: first.text.clone(),
                link: Some(first),
            },
            DescriptionSegment {
                text: " and ".to_owned(),
                link: None,
            },
            DescriptionSegment {
                text: second.text.clone(),
                link: Some(second),
            },
            DescriptionSegment {
                text: ".".to_owned(),
                link: None,
            },
        ]
    );
}

fn palette(name: &str, light: &str, dark: &str) -> TagStyle {
    TagStyle {
        name: name.to_owned(),
        light_background: light.to_owned(),
        light_text: "#1e293b".to_owned(),
        dark_background: dark.to_owned(),
        dark_text: "#e2e8f0".to_owned(),
    }
}

fn news_palettes() -> NewsConfig {
    NewsConfig {
        anchor: "experience".to_owned(),
        heading: "News".to_owned(),
        items: vec![],
        tag_styles: vec![
            palette("Education", "#dbeafe", "#1e3a8a66"),
            palette("Industry", "#f3e8ff", "#581c8766"),
        ],
    }
}

#[test]
fn configured_tag_uses_its_own_palette() {
    let config = news_palettes();
    let style = tag_style(&config, "Industry");
    assert!(style.contains("#f3e8ff"));
    assert!(style.contains("#581c8766"));
}

#[test]
fn unknown_tag_falls_back_to_the_first_palette() {
    let config = news_palettes();
    assert_eq!(tag_style(&config, "Unknown"), tag_style(&config, "Education"));
}

#[test]
fn tag_palette_is_written_as_css_variables() {
    let style = palette("Education", "#dbeafe", "#1e3a8a66");
    assert_eq!(
        tag_css_variables(&style),
        "--tag-bg: #dbeafe; --tag-text: #1e293b; --tag-dark-bg: #1e3a8a66; --tag-dark-text: #e2e8f0;"
    );
    let empty = NewsConfig {
        anchor: "n".to_owned(),
        heading: "N".to_owned(),
        items: vec![],
        tag_styles: vec![],
    };
    assert_eq!(tag_style(&empty, "Education"), "");
}

#[test]
fn earliest_then_longest_phrase_wins() {
    let short = NewsItemLink {
        text: "Beta".to_owned(),
        url: "https://b.example/".to_owned(),
    };
    let long = NewsItemLink {
        text: "Beta Lab".to_owned(),
        url: "https://lab.example/".to_owned(),
    };
    let empty = NewsItemLink {
        text: String::new(),
        url: "https://nothing.example/".to_owned(),
    };
    let links = vec![
        (short.text.clone(), &short),
        (String::new(), &empty),
        (long.text.clone(), &long),
    ];
    let segments = description_segments("At Beta Lab, Beta.", &links);
    let texts = segments
        .iter()
        .map(|segment| segment.text.as_str())
        .collect::<Vec<_>>();
    assert_eq!(texts, vec!["At ", "Beta Lab", ", ", "Beta", "."]);
    assert_eq!(segments[1].link, Some(long.clone()));
    assert_eq!(segments[3].link, Some(short.clone()));
    assert_eq!(texts.concat(), "At Beta Lab, Beta.");
    assert!(description_segments("", &links).is_empty());
    assert_eq!(
        description_segments("plain", &[]),
        vec![DescriptionSegment {
            text: "plain".to_owned(),
            link: None,
        }]
    );
}

#[test]
fn biography_links_win_over_equal_emphasis() {
    let link = HeroBioLink {
        text: "Alpha".to_owned(),
        url: "https://alpha.example/".to_owned(),
    };
    let phrases = vec!["Alpha".to_owned()];
    let links = vec![(link.text.clone(), &link)];
    let segments = bio_segments("Alpha", &phrases, &links);
    assert_eq!(
        segments,
        vec![BioSegment {
            text: "Alpha".to_owned(),
            italic: false,
            link: Some(link.clone()),
        }]
    );
}

#[test]
fn translation_keys_count_items_from_one() {
    assert_eq!(news_key(0, "title"), "news.item.1.title");
    assert_eq!(news_key(11, "date"), "news.item.12.date");
    assert_eq!(news_link_key(3, 1), "news.item.4.link.2.text");
    assert_eq!(bio_link_key(0), "hero.bio_link.1.text");
    assert_eq!(interest_key(0), "hero.interest.ai_science");
    assert_eq!(interest_key(4), "hero.interest.quantum");
    assert_eq!(interest_key(5), "hero.interest.unknown");
    assert_eq!(navigation_key("#about"), "navbar.about");
    assert_eq!(navigation_key("#experience"), "navbar.experience");
    assert_eq!(navigation_key("https://example.com"), "navbar.unknown");
}

#[test]
fn news_link_texts_are_translated_by_position() {
    let item = NewsItem {
        id: "launch".to_owned(),
        date: "Aug 2026".to_owned(),
        title: "Launch".to_owned(),
        description: "With Alpha Lab and Beta Lab.".to_owned(),
        tag: "News".to_owned(),
        links: vec![
            NewsItemLink {
                text: "Alpha Lab".to_owned(),
                url: "https://alpha.example".to_owned(),
            },
            NewsItemLink {
                text: "Beta Lab".to_owned(),
                url: "https://beta.example".to_owned(),
            },
        ],
    };
    let catalog =
        Catalog::from_json(r#"{"news.item.4.link.2.text": "贝塔实验室"}"#).expect("catalog");
    assert_eq!(
        localized_link_texts(&catalog, Locale::English, 3, &item),
        vec!["Alpha Lab".to_owned(), "Beta Lab".to_owned()]
    );
    assert_eq!(
        localized_link_texts(&catalog, Locale::ChineseSimplified, 3, &item),
        vec!["Alpha Lab".to_owned(), "贝塔实验室".to_owned()]
    );
}
