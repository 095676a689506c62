use arcademic_rust::components::activity::{
    day_label, fallback_month_labels, heatmap_delay, heatmap_level, localized_month,
    month_labels, month_name, week_columns,
    normalize_cells, placeholder_cells, GithubContribution,
};
use arcademic_rust::components::background::{advance_blinking_grid, GridCell};
use arcademic_rust::config::{ActivityColor, ActivityConfig};
use arcademic_rust::localization::{Catalog, Locale};

fn cell(date: &str) -> GithubContribution {
    GithubContribution {
        date: date.to_owned(),
        count: 0,
        level: 0,
    }
}

#[test]
fn contribution_cells_are_padded_and_trimmed_to_the_visible_year() {
    let one = GithubContribution {
        date: "2026-08-29".to_owned(),
        count: 3,
        level: 2,
    };
    let padded = normalize_cells(vec![one.clone()], 3);
    assert_eq!(padded.len(), 3);
    assert_eq!(padded[2], one);

    let trimmed = normalize_cells(vec![one.clone(), one.clone(), one.clone()], 2);
    assert_eq!(trimmed, vec![one.clone(), one]);
}

#[test]
fn live_month_labels_follow_calendar_boundaries() {
    let weeks = vec![
        vec![GithubContribution {
            date: "2026-07-26".to_owned(),
            count: 0,
            level: 0,
        }],
        vec![GithubContribution {
            date: "2026-08-01".to_owned(),
            count: 0,
            level: 0,
        }],
    ];
    assert_eq!(month_labels(&weeks, &[]), vec!["", "Aug"]);
}

#[test]
fn padding_cells_are_empty_and_lead_the_grid() {
    let cells = placeholder_cells(2);
    assert_eq!(cells, vec![cell(""), cell("")]);
    let recent = cell("2026-01-02");
    let padded = normalize_cells(vec![recent.clone()], 4);
    assert_eq!(padded, vec![cell(""), cell(""), cell(""), recent]);
    assert!(normalize_cells(vec![], 0).is_empty());
}

#[test]
fn month_labels_are_thinned_when_crowded() {
    let weeks = vec![
        vec![cell("2026-06-28")],
        vec![cell("2026-07-01")],
        vec![cell("2026-07-08")],
        vec![cell("2026-07-15")],
        vec![cell("2026-07-22")],
        vec![cell("2026-08-01")],
    ];
    assert_eq!(month_labels(&weeks, &[]), vec!["", "Jul", "", "", "", "Aug"]);
    let weeks = vec![vec![cell("2026-06-28")], vec![cell("2026-06-30")], vec![cell("2026-07-07")]];
    assert_eq!(month_labels(&weeks, &[]), vec!["Jun", "", ""]);
}

#[test]
fn undated_grids_spread_the_configured_labels() {
    let labels = vec!["Jan".to_owned(), "Jul".to_owned(), "Dec".to_owned()];
    assert_eq!(
        fallback_month_labels(5, &labels),
        vec!["Jan", "", "Jul", "", "Dec"]
    );
    let weeks = vec![vec![cell("")], vec![cell("")], vec![cell("")]];
    assert_eq!(month_labels(&weeks, &labels), vec!["Jan", "Jul", "Dec"]);
    assert_eq!(fallback_month_labels(2, &[]), vec!["", ""]);
    assert_eq!(fallback_month_labels(1, &labels), vec!["Dec"]);
}

#[test]
fn month_names_and_translations() {
    assert_eq!(month_name("08"), "Aug");
    assert_eq!(month_name("12"), "Dec");
    assert_eq!(month_name("13"), "");
    assert_eq!(month_name("8"), "");
    let catalog = Catalog::from_json(r#"{"activity.month.08": "8月", "activity.day.mon": "一"}"#)
        .expect("catalog");
    assert_eq!(localized_month(&catalog, Locale::ChineseSimplified, "Aug"), "8月");
    assert_eq!(localized_month(&catalog, Locale::ChineseSimplified, "Sep"), "Sep");
    assert_eq!(localized_month(&catalog, Locale::English, "Aug"), "Aug");
    assert_eq!(localized_month(&catalog, Locale::ChineseSimplified, ""), "");

    let config = ActivityConfig {
        anchor: "activity".to_owned(),
        heading: "Activity".to_owned(),
        less_label: "Less".to_owned(),
        more_label: "More".to_owned(),
        level_title_prefix: "Level".to_owned(),
        weeks: 52,
        days: 7,
        months: vec!["Jan".to_owned(), "Dec".to_owned()],
        day_labels: vec!["Mon".to_owned(), "Wed".to_owned()],
        seed_week_multiplier: 17,
        seed_day_multiplier: 31,
        seed_cross_multiplier: 7,
        seed_offset: 13,
        level_thresholds: [20, 40, 60, 80],
        level_colors: vec![ActivityColor {
            light: "#fff".to_owned(),
            dark: "#000".to_owned(),
        }],
    };
    assert_eq!(day_label(&config, &catalog, Locale::English, 1), "Mon");
    assert_eq!(day_label(&config, &catalog, Locale::ChineseSimplified, 1), "一");
    assert_eq!(day_label(&config, &catalog, Locale::English, 3), "Wed");
    assert_eq!(day_label(&config, &catalog, Locale::English, 5), "");
    assert_eq!(day_label(&config, &catalog, Locale::English, 0), "");
}

#[test]
fn blinking_grid_keeps_the_most_recent_cells() {
    let cells = vec![
        GridCell { id: 1, x: 0, y: 0 },
        GridCell { id: 2, x: 1, y: 1 },
    ];
    let (next, id) = advance_blinking_grid(&cells, 3, false, false, 4, 5, 2);
    assert_eq!(next, vec![GridCell { id: 2, x: 1, y: 1 }, GridCell { id: 3, x: 4, y: 5 }]);
    assert_eq!(id, 4);
    let (next, id) = advance_blinking_grid(&cells, u64::MAX, false, false, 0, 0, 10);
    assert_eq!(next.len(), 3);
    assert_eq!(id, 0);
}

#[test]
fn heatmap_levels_are_capped_at_the_last_colour() {
    assert_eq!(heatmap_level(0, 5), 0);
    assert_eq!(heatmap_level(3, 5), 3);
    assert_eq!(heatmap_level(4, 5), 4);
    assert_eq!(heatmap_level(9, 5), 4);
    assert_eq!(heatmap_level(2, 0), 0);
}

#[test]
fn heatmap_delays_saturate() {
    assert_eq!(heatmap_delay(0, 12), 0);
    assert_eq!(heatmap_delay(7, 12), 84);
    assert_eq!(heatmap_delay(400_000_000, 20), u32::MAX);
    assert_eq!(heatmap_delay(usize::MAX, 1), u32::MAX);
    assert_eq!(heatmap_delay(usize::MAX, 0), 0);
}

#[test]
fn cells_are_split_into_week_columns() {
    let cells = (1..=8)
        .map(|day| cell(&format!("2026-08-0{day}")))
        .collect::<Vec<_>>();
    let weeks = week_columns(&cells, 3);
    assert_eq!(weeks.len(), 3);
    assert_eq!(weeks[0], cells[0..3].to_vec());
    assert_eq!(weeks[1], cells[3..6].to_vec());
    assert_eq!(weeks[2], cells[6..8].to_vec());
    assert_eq!(week_columns(&cells, 8), vec![cells.clone()]);
    assert!(week_columns(&Vec::new(), 7).is_empty());
}

#[test]
fn blinking_grid_rests_while_hidden_or_dark() {
    let cells = vec![GridCell { id: 1, x: 0, y: 0 }];
    assert_eq!(advance_blinking_grid(&cells, 7, true, false, 4, 5, 3), (cells.clone(), 7));
    assert_eq!(advance_blinking_grid(&cells, 7, false, true, 4, 5, 3), (cells.clone(), 7));
    let (next, id) = advance_blinking_grid(&cells, 7, false, false, 4, 5, 3);
    assert_eq!(next.len(), 2);
    assert_eq!(id, 8);
}
