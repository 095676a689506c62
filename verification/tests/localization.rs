use arcademic_rust::localization::{
    locale_from_languages, translate, translate_template, Catalog, Locale,
};

fn chinese_catalog() -> Catalog {
    Catalog::from_json(
        r#"{"activity.total_template": "过去一年共 {total} 次贡献", "navbar.home": "主页"}"#,
    )
    .expect("catalog")
}

#[test]
fn language_negotiation_uses_the_first_supported_browser_language() {
    assert_eq!(
        locale_from_languages(&["zh-Hans-CN", "en-US"]),
        Locale::ChineseSimplified
    );
    assert_eq!(locale_from_languages(&["en-GB", "zh-CN"]), Locale::English);
    assert_eq!(locale_from_languages(&["fr-FR"]), Locale::English);
}

#[test]
fn templates_replace_named_values_and_keep_english_fallbacks() {
    let catalog = chinese_catalog();
    assert_eq!(
        translate_template(
            &catalog,
            Locale::ChineseSimplified,
            "activity.total_template",
            "{total} contributions",
            &[("total", "12")],
        ),
        "过去一年共 12 次贡献"
    );
    assert_eq!(
        translate(&catalog, Locale::English, "missing", "English fallback"),
        "English fallback"
    );
}

#[test]
fn language_tags_match_without_regard_to_case() {
    assert_eq!(locale_from_languages(&["ZH"]), Locale::ChineseSimplified);
    assert_eq!(locale_from_languages(&["Zh-tw"]), Locale::ChineseSimplified);
    assert_eq!(locale_from_languages(&["zhx", "EN"]), Locale::English);
    assert_eq!(locale_from_languages(&["zhx", "de", "zh"]), Locale::ChineseSimplified);
    assert_eq!(locale_from_languages(&[]), Locale::English);
    assert_eq!(Locale::default(), Locale::English);
}

#[test]
fn html_language_names_each_locale() {
    assert_eq!(Locale::English.html_language(), "en");
    assert_eq!(Locale::ChineseSimplified.html_language(), "zh-CN");
}

#[test]
fn chinese_falls_back_to_english_for_missing_keys() {
    let catalog = chinese_catalog();
    assert_eq!(
        translate(&catalog, Locale::ChineseSimplified, "navbar.home", "Home"),
        "主页"
    );
    assert_eq!(
        translate(&catalog, Locale::ChineseSimplified, "navbar.about", "About"),
        "About"
    );
    assert_eq!(catalog.get("navbar.home").as_deref(), Some("主页"));
    assert_eq!(catalog.get("navbar.about"), None);
    assert_eq!(
        translate(&Catalog::empty(), Locale::ChineseSimplified, "navbar.home", "Home"),
        "Home"
    );
}

#[test]
fn templates_fill_every_named_placeholder_in_order() {
    let catalog = Catalog::empty();
    assert_eq!(
        translate_template(
            &catalog,
            Locale::English,
            "k",
            "{platform} link: {username} ({platform})",
            &[("platform", "GitHub"), ("username", "tony")],
        ),
        "GitHub link: tony (GitHub)"
    );
    assert_eq!(
        translate_template(&catalog, Locale::English, "k", "{total} items", &[]),
        "{total} items"
    );
}

#[test]
fn malformed_catalogs_are_rejected() {
    assert!(Catalog::from_json("not json").is_none());
    assert!(Catalog::from_json(r#"{"a": 1}"#).is_none());
    assert!(Catalog::from_json("{}").is_some());
}
