use report_manager::menus::{
    create_menu_statements, delete_menu_after_count, delete_menu_check, max_menu_order_statement,
    COUNT_MENU_REPORTS_SQL, DELETE_MENU_SQL, INSERT_MENU_SQL, MOVE_SETTINGS_DOWN_SQL,
};
use report_manager::models::{NavigationMenu, SqlValue};
use report_manager::preferences::{list_menus_statement, MenuRow};

#[test]
fn fixed_menus_cannot_be_deleted() {
    assert_eq!(delete_menu_check("home").unwrap_err(), "首页和设置不能删除。");
    assert_eq!(delete_menu_check("settings").unwrap_err(), "首页和设置不能删除。");
    let s = delete_menu_check("custom-1").expect("custom menus may go");
    assert_eq!(s.sql, COUNT_MENU_REPORTS_SQL);
    assert_eq!(s.params, vec![SqlValue::Text("custom-1".to_string())]);
}

#[test]
fn menus_with_reports_stay() {
    assert_eq!(delete_menu_after_count("weekly", 20).unwrap_err(), "该菜单中仍有报告，无法删除。");
    let s = delete_menu_after_count("custom-1", 0).expect("empty menu goes");
    assert_eq!(s.sql, DELETE_MENU_SQL);
}

#[test]
fn a_new_menu_goes_after_the_last_and_settings_moves_down() {
    let m = NavigationMenu {
        id: "custom-1".to_string(),
        label: "项目".to_string(),
        icon_svg: "<svg/>".to_string(),
        sort_order: 0,
        is_system: true,
        is_hidden: true,
        report_period: "month".to_string(),
    };
    let stmts = create_menu_statements(&m, 3);
    assert_eq!(stmts.len(), 2);
    assert_eq!(stmts[0].sql, MOVE_SETTINGS_DOWN_SQL);
    assert_eq!(stmts[1].sql, INSERT_MENU_SQL);
    assert_eq!(stmts[1].params[3], SqlValue::Integer(4));
    assert_eq!(stmts[1].params[4], SqlValue::Boolean(true));
    assert!(max_menu_order_statement().params.is_empty());
    assert!(list_menus_statement().params.is_empty());
}

#[test]
fn menu_rows_read_flags_from_numbers() {
    let m = NavigationMenu::from_row(MenuRow {
        id: "daily".to_string(),
        label: "日报".to_string(),
        icon_svg: "<svg/>".to_string(),
        sort_order: 1,
        is_system: 0,
        is_hidden: 2,
        report_period: "day".to_string(),
    });
    assert!(!m.is_system);
    assert!(m.is_hidden);
    assert_eq!(m.sort_order, 1);
}
