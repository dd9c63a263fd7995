use report_manager::models::SqlValue;
use report_manager::seed::{
    format_chinese_date, sample_menu_id, sample_week_offsets, sample_week_statement, seed_navigation_statements,
    week_dates_statement, SEED_MENU_SQL, SEED_SETTING_SQL,
};

#[test]
fn navigation_seed_has_five_menus_then_every_setting() {
    let stmts = seed_navigation_statements();
    assert_eq!(stmts.len(), 15);
    assert!(stmts[..5].iter().all(|s| s.sql == SEED_MENU_SQL));
    assert!(stmts[5..].iter().all(|s| s.sql == SEED_SETTING_SQL));
    assert_eq!(stmts[0].params[0], SqlValue::Text("home".to_string()));
    assert_eq!(stmts[0].params[1], SqlValue::Text("首页".to_string()));
    assert_eq!(stmts[0].params[4], SqlValue::Integer(1));
    assert_eq!(stmts[3].params[1], SqlValue::Text("例会记录".to_string()));
    assert_eq!(stmts[4].params[3], SqlValue::Integer(4));
    assert_eq!(stmts[10].params, vec![SqlValue::Text("menu_action_order".to_string()), SqlValue::Text("[\"visibility\",\"period\",\"rename\",\"icon\",\"delete\"]".to_string())]);
    assert_eq!(stmts[13].params, vec![SqlValue::Text("editor_font_scale".to_string()), SqlValue::Text("1".to_string())]);
    assert_eq!(stmts[14].params, vec![SqlValue::Text("editor_mode".to_string()), SqlValue::Text("wysiwyg".to_string())]);
}

#[test]
fn twenty_week_offsets() {
    let offsets = sample_week_offsets();
    assert_eq!(offsets.len(), 20);
    assert_eq!(offsets[0], "-0 days");
    assert_eq!(offsets[1], "-7 days");
    assert_eq!(offsets[19], "-133 days");
    let s = week_dates_statement("2026-08-03", "-7 days");
    assert_eq!(s.params.len(), 2);
}

#[test]
fn dates_are_written_in_chinese() {
    assert_eq!(format_chinese_date("2026-08-03"), "2026年8月3日");
    assert_eq!(format_chinese_date("2026-12-10"), "2026年12月10日");
    assert_eq!(format_chinese_date("2026-1-5-extra"), "2026年1月5日");
}

#[test]
fn sample_week_title_and_id() {
    let s = sample_week_statement("2026-08-03", "2026-08-09", "32", "weekly");
    let title = SqlValue::Text("2026年8月3日 - 2026年8月9日，第32周".to_string());
    assert_eq!(
        s.params,
        vec![
            SqlValue::Text("management-weekly-2026-08-03".to_string()),
            SqlValue::Text("2026-08-03".to_string()),
            title.clone(),
            title,
            SqlValue::Text("weekly".to_string()),
        ]
    );
    let s = sample_week_statement("2025-12-29", "2026-01-04", "01", "m1");
    assert_eq!(s.params[2], SqlValue::Text("2025年12月29日 - 2026年1月4日，第1周".to_string()));
    let s = sample_week_statement("2025-12-29", "2026-01-04", "", "m1");
    assert_eq!(s.params[2], SqlValue::Text("2025年12月29日 - 2026年1月4日，第0周".to_string()));
}

#[test]
fn samples_go_to_the_found_menu_or_weekly() {
    assert_eq!(sample_menu_id(Some("m7".to_string())), "m7");
    assert_eq!(sample_menu_id(None), "weekly");
}
