use report_manager::models::{AppPreferences, NavigationMenu, SqlStatement, SqlValue};
use report_manager::preferences::{
    preferences_from_settings, save_preferences_statements, setting_key_at, setting_lookup_statement,
    MOVE_SETTINGS_MENU_SQL, RELEASE_MENU_ORDERS_SQL, RESTORE_UNLISTED_MENUS_SQL, SETTING_COUNT,
    UPDATE_HOME_MENU_SQL, UPDATE_MENU_SQL, UPDATE_SETTINGS_MENU_SQL, UPSERT_SETTING_SQL,
};

fn menu(id: &str, order: i64) -> NavigationMenu {
    NavigationMenu {
        id: id.to_string(),
        label: format!("{id}-label"),
        icon_svg: "<svg/>".to_string(),
        sort_order: order,
        is_system: id == "home" || id == "settings",
        is_hidden: id == "meeting",
        report_period: "week".to_string(),
    }
}

fn prefs(menus: Vec<NavigationMenu>) -> AppPreferences {
    AppPreferences {
        sidebar_collapsed: true,
        default_page_id: "daily".to_string(),
        week_start: "sunday".to_string(),
        export_directory: "/tmp/out".to_string(),
        minimize_to_tray: false,
        default_report_load_count: 0,
        refresh_report_load_count: 250,
        editor_font_scale: "1.25".to_string(),
        editor_mode: "ir".to_string(),
        menu_action_order: vec!["icon".to_string(), "bogus".to_string()],
        menus,
    }
}

fn text(s: &str) -> SqlValue {
    SqlValue::Text(s.to_string())
}

fn setting_value(stmts: &[SqlStatement], key: &str) -> String {
    for s in stmts {
        if s.sql == UPSERT_SETTING_SQL && s.params[0] == text(key) {
            if let SqlValue::Text(v) = &s.params[1] {
                return v.clone();
            }
        }
    }
    panic!("no write of {key}");
}

#[test]
fn nothing_stored_reads_as_defaults() {
    let values: Vec<Option<String>> = vec![None; SETTING_COUNT];
    let p = preferences_from_settings(&values, vec![]);
    assert!(!p.sidebar_collapsed);
    assert_eq!(p.default_page_id, "home");
    assert_eq!(p.week_start, "monday");
    assert_eq!(p.export_directory, "");
    assert!(p.minimize_to_tray);
    assert_eq!(p.default_report_load_count, 15);
    assert_eq!(p.refresh_report_load_count, 15);
    assert_eq!(p.editor_font_scale, "1");
    assert_eq!(p.editor_mode, "wysiwyg");
    assert_eq!(p.menu_action_order, vec!["visibility", "period", "rename", "icon", "delete"]);
}

#[test]
fn stored_values_are_read_as_typed_values() {
    let mut values: Vec<Option<String>> = vec![None; SETTING_COUNT];
    values[0] = Some("true".to_string());
    values[4] = Some("yes".to_string());
    values[6] = Some("30".to_string());
    values[7] = Some("lots".to_string());
    values[5] = Some("[\"delete\"]".to_string());
    let p = preferences_from_settings(&values, vec![menu("home", 0)]);
    assert!(p.sidebar_collapsed);
    assert!(!p.minimize_to_tray);
    assert_eq!(p.default_report_load_count, 30);
    assert_eq!(p.refresh_report_load_count, 15);
    assert_eq!(p.menu_action_order, vec!["delete", "visibility", "period", "rename", "icon"]);
    assert_eq!(p.menus.len(), 1);
}

#[test]
fn setting_keys_and_lookup() {
    assert_eq!(setting_key_at(0), "sidebar_collapsed");
    assert_eq!(setting_key_at(5), "menu_action_order");
    assert_eq!(setting_key_at(9), "editor_mode");
    let s = setting_lookup_statement("week_start");
    assert_eq!(s.params, vec![text("week_start")]);
}

#[test]
fn saving_clamps_counts_and_makes_the_action_order_whole() {
    let stmts = save_preferences_statements(&prefs(vec![])).expect("encodes");
    assert_eq!(setting_value(&stmts, "sidebar_collapsed"), "true");
    assert_eq!(setting_value(&stmts, "minimize_to_tray"), "false");
    assert_eq!(setting_value(&stmts, "default_report_load_count"), "1");
    assert_eq!(setting_value(&stmts, "refresh_report_load_count"), "100");
    assert_eq!(setting_value(&stmts, "editor_font_scale"), "1.25");
    assert_eq!(
        setting_value(&stmts, "menu_action_order"),
        "[\"icon\",\"visibility\",\"period\",\"rename\",\"delete\"]"
    );
    assert_eq!(setting_value(&stmts, "editor_mode"), "ir");
    assert_eq!(stmts.len(), 13);
    assert_eq!(stmts[10].sql, RELEASE_MENU_ORDERS_SQL);
    assert!(stmts[10].params.is_empty());
    assert_eq!(stmts[11].sql, RESTORE_UNLISTED_MENUS_SQL);
    assert_eq!(stmts[11].params, vec![SqlValue::Integer(1)]);
    assert_eq!(stmts[12].sql, MOVE_SETTINGS_MENU_SQL);
    assert_eq!(stmts[12].params, vec![SqlValue::Integer(1)]);
}

#[test]
fn saved_settings_read_back() {
    let p = prefs(vec![]);
    let stmts = save_preferences_statements(&p).expect("encodes");
    let mut values: Vec<Option<String>> = vec![None; SETTING_COUNT];
    for (i, v) in values.iter_mut().enumerate() {
        *v = Some(setting_value(&stmts, setting_key_at(i)));
    }
    let back = preferences_from_settings(&values, vec![]);
    assert_eq!(back.sidebar_collapsed, p.sidebar_collapsed);
    assert_eq!(back.default_page_id, p.default_page_id);
    assert_eq!(back.week_start, p.week_start);
    assert_eq!(back.export_directory, p.export_directory);
    assert_eq!(back.minimize_to_tray, p.minimize_to_tray);
    assert_eq!(back.default_report_load_count, 1);
    assert_eq!(back.refresh_report_load_count, 100);
    assert_eq!(back.editor_font_scale, p.editor_font_scale);
    assert_eq!(back.editor_mode, "ir");
    assert_eq!(back.menu_action_order, vec!["icon", "visibility", "period", "rename", "delete"]);
}

#[test]
fn menus_are_numbered_in_list_order_with_settings_last() {
    let menus = vec![
        menu("home", 0),
        menu("weekly", 2),
        menu("custom", 5),
        menu("settings", 6),
        menu("meeting", 3),
        menu("daily", 1),
    ];
    let stmts = save_preferences_statements(&prefs(menus)).expect("encodes");
    let menu_stmts = &stmts[11..];
    assert_eq!(menu_stmts.len(), 7);
    assert_eq!(menu_stmts[0].sql, UPDATE_HOME_MENU_SQL);
    assert_eq!(menu_stmts[0].params, vec![text("home-label"), text("<svg/>")]);
    let expect = [("weekly", 1, false), ("custom", 2, false), ("meeting", 3, true), ("daily", 4, false)];
    for (k, (id, order, hidden)) in expect.iter().enumerate() {
        let s = &menu_stmts[k + 1];
        assert_eq!(s.sql, UPDATE_MENU_SQL);
        assert_eq!(s.params[2], SqlValue::Boolean(*hidden));
        assert_eq!(s.params[4], SqlValue::Integer(*order));
        assert_eq!(s.params[5], text(id));
    }
    assert_eq!(menu_stmts[5].sql, RESTORE_UNLISTED_MENUS_SQL);
    assert_eq!(menu_stmts[5].params, vec![SqlValue::Integer(5)]);
    assert_eq!(menu_stmts[6].sql, UPDATE_SETTINGS_MENU_SQL);
    assert_eq!(menu_stmts[6].params, vec![text("settings-label"), text("<svg/>"), SqlValue::Integer(5)]);
}

#[test]
fn editor_mode_is_kept_to_the_known_modes() {
    let mut values: Vec<Option<String>> = vec![None; SETTING_COUNT];
    values[9] = Some("sv".to_string());
    assert_eq!(preferences_from_settings(&values, vec![]).editor_mode, "sv");
    values[9] = Some("markdown".to_string());
    assert_eq!(preferences_from_settings(&values, vec![]).editor_mode, "wysiwyg");
    let mut p = prefs(vec![]);
    p.editor_mode = "source".to_string();
    let stmts = save_preferences_statements(&p).expect("encodes");
    assert_eq!(setting_value(&stmts, "editor_mode"), "wysiwyg");
}
