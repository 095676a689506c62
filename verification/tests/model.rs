use arcademic_rust::components::model::{
    image_srcset, is_external_link, is_working_hour, publication_action_kind, unsplash_with_width,
    url_origin, PublicationActionKind,
};

#[test]
fn working_hours_include_start_and_exclude_end() {
    assert!(is_working_hour(1, 8, 9, 18));
    assert!(is_working_hour(9, 8, 9, 18));
    assert!(!is_working_hour(10, 8, 9, 18));
    assert!(!is_working_hour(0, 8, 9, 18));
}

#[test]
fn working_hours_wrap_timezone_across_midnight() {
    assert!(is_working_hour(23, 10, 9, 18));
    assert!(!is_working_hour(2, -8, 9, 18));
}

#[test]
fn unsplash_sources_receive_responsive_parameters() {
    let source = "https://images.unsplash.com/photo-1?q=80&w=800";
    let result = unsplash_with_width(source, 576);
    let parsed = url::Url::parse(&result).expect("generated URL");
    let pairs = parsed
        .query_pairs()
        .collect::<std::collections::HashMap<_, _>>();
    assert_eq!(pairs.get("w").expect("width").as_ref(), "576");
    assert_eq!(pairs.get("q").expect("quality").as_ref(), "75");
    assert_eq!(pairs.get("fit").expect("fit").as_ref(), "crop");
}

#[test]
fn non_unsplash_sources_are_unchanged() {
    let source = "/assets/profile.jpg";
    assert_eq!(unsplash_with_width(source, 576), source);
}

#[test]
fn url_origin_keeps_only_scheme_and_host() {
    assert_eq!(
        url_origin("https://images.example.com/path?q=1").as_deref(),
        Some("https://images.example.com")
    );
    assert_eq!(url_origin("/assets/profile.jpg"), None);
}

#[test]
fn link_classification_distinguishes_external_targets() {
    assert!(is_external_link("https://example.com/paper.pdf"));
    assert!(is_external_link("http://localhost/code"));
    assert!(!is_external_link("/papers/local.pdf"));
    assert!(!is_external_link("#publication"));
}

#[test]
fn publication_actions_cover_disabled_internal_and_external_states() {
    assert_eq!(publication_action_kind(""), PublicationActionKind::Disabled);
    assert_eq!(
        publication_action_kind("/papers/local.pdf"),
        PublicationActionKind::Internal
    );
    assert_eq!(
        publication_action_kind("https://example.com/code"),
        PublicationActionKind::External
    );
}

#[test]
fn working_hours_repeat_every_day_and_follow_the_offset() {
    for hour in -30..30 {
        for offset in [-23i8, -8, 0, 5, 23] {
            let today = is_working_hour(hour, offset, 9, 18);
            assert_eq!(today, is_working_hour(hour + 24, offset, 9, 18));
            assert_eq!(today, is_working_hour(hour + i32::from(offset), 0, 9, 18));
        }
    }
}

#[test]
fn unsplash_source_without_query_gets_a_question_mark() {
    assert_eq!(
        unsplash_with_width("https://images.unsplash.com/photo-2", 320),
        "https://images.unsplash.com/photo-2?auto=format&fit=crop&q=75&w=320"
    );
    assert_eq!(
        unsplash_with_width("https://images.unsplash.com/photo-2?x=1", 0),
        "https://images.unsplash.com/photo-2?x=1&auto=format&fit=crop&q=75&w=0"
    );
}

#[test]
fn srcset_lists_every_width_in_order() {
    assert_eq!(
        image_srcset("https://images.unsplash.com/p", &[320, 576]),
        "https://images.unsplash.com/p?auto=format&fit=crop&q=75&w=320 320w, \
         https://images.unsplash.com/p?auto=format&fit=crop&q=75&w=576 576w"
    );
    assert_eq!(image_srcset("/local.jpg", &[800]), "/local.jpg 800w");
    assert_eq!(image_srcset("/local.jpg", &[]), "");
}

#[test]
fn url_origin_rejects_other_schemes_and_empty_hosts() {
    assert_eq!(url_origin("ftp://example.com/file"), None);
    assert_eq!(url_origin("https:///path"), None);
    assert_eq!(url_origin("https://"), None);
    assert_eq!(
        url_origin("http://example.com?q=1").as_deref(),
        Some("http://example.com")
    );
    let origin = url_origin("https://a.example/b/c").expect("origin");
    assert_eq!(url_origin(&origin), Some(origin.clone()));
}
