//! Runs the statements that the library plans against a real SQLite store.

use report_manager::menus::{delete_menu_after_count, delete_menu_check};
use report_manager::models::{AppPreferences, NavigationMenu, Record, RecordQuery, SqlStatement, SqlValue};
use report_manager::preferences::{
    list_menus_statement, preferences_from_settings, save_preferences_statements, setting_key_at,
    setting_lookup_statement, MenuRow, SETTING_COUNT,
};
use report_manager::records::{delete_record_statement, get_record_statement, save_record_statement, RecordRow};
use report_manager::schema::{is_duplicate_column_error, ADD_MENU_VISIBILITY_SQL, ADD_RECORD_MENU_SQL, CREATE_TABLES_SQL};
use report_manager::search::list_records_statement;
use report_manager::seed::{
    current_week_start_statement, management_menu_statement, sample_menu_id, sample_week_offsets,
    sample_week_statement, seed_navigation_statements, week_dates_statement,
};
use rusqlite::{params_from_iter, types::Value, Connection, OptionalExtension};

fn values(stmt: &SqlStatement) -> Vec<Value> {
    stmt.params
        .iter()
        .map(|p| match p {
            SqlValue::Text(s) => Value::Text(s.clone()),
            SqlValue::Integer(i) => Value::Integer(*i),
            SqlValue::Boolean(b) => Value::Integer(i64::from(*b)),
        })
        .collect()
}

fn execute(conn: &Connection, stmt: &SqlStatement) {
    conn.execute(&stmt.sql, params_from_iter(values(stmt))).expect("execute");
}

fn tolerate_duplicate_column(conn: &Connection, sql: &str) {
    if let Err(error) = conn.execute_batch(sql) {
        assert!(is_duplicate_column_error(&error.to_string()), "{error}");
    }
}

fn open() -> Connection {
    let conn = Connection::open_in_memory().expect("open");
    for _ in 0..2 {
        conn.execute_batch(CREATE_TABLES_SQL).expect("tables");
        tolerate_duplicate_column(&conn, ADD_RECORD_MENU_SQL);
        tolerate_duplicate_column(&conn, ADD_MENU_VISIBILITY_SQL);
        for stmt in seed_navigation_statements() {
            execute(&conn, &stmt);
        }
        let found: Option<String> = conn
            .query_row(&management_menu_statement().sql, [], |row| row.get(0))
            .optional()
            .expect("menu");
        let menu_id = sample_menu_id(found);
        let week_start: String = conn
            .query_row(&current_week_start_statement().sql, [], |row| row.get(0))
            .expect("week start");
        for offset in sample_week_offsets() {
            let dates = week_dates_statement(&week_start, &offset);
            let (start, end, week): (String, String, String) = conn
                .query_row(&dates.sql, params_from_iter(values(&dates)), |row| {
                    Ok((row.get(0)?, row.get(1)?, row.get(2)?))
                })
                .expect("dates");
            execute(&conn, &sample_week_statement(&start, &end, &week, &menu_id));
        }
    }
    conn
}

fn read_record(row: &rusqlite::Row<'_>) -> rusqlite::Result<Record> {
    Ok(Record::from_row(RecordRow {
        id: row.get(0)?,
        record_type: row.get(1)?,
        record_date: row.get(2)?,
        title: row.get(3)?,
        content: row.get(4)?,
        tags: row.get(5)?,
        metadata: row.get(6)?,
        status: row.get(7)?,
        created_at: row.get(8)?,
        updated_at: row.get(9)?,
        menu_id: row.get(10)?,
    }))
}

fn list(conn: &Connection, query: RecordQuery) -> Vec<Record> {
    let stmt = list_records_statement(&query);
    let mut prepared = conn.prepare(&stmt.sql).expect("prepare");
    let rows = prepared
        .query_map(params_from_iter(values(&stmt)), read_record)
        .expect("query")
        .collect::<Result<Vec<_>, _>>()
        .expect("rows");
    rows
}

fn get(conn: &Connection, id: &str) -> Option<Record> {
    let stmt = get_record_statement(id);
    conn.query_row(&stmt.sql, params_from_iter(values(&stmt)), read_record)
        .optional()
        .expect("get")
}

fn weekly_query(limit: u32, offset: u32) -> RecordQuery {
    RecordQuery {
        menu_id: Some("weekly".to_string()),
        record_type: None,
        keyword: None,
        date_from: None,
        date_to: None,
        tags: None,
        limit: Some(limit),
        offset: Some(offset),
    }
}

#[test]
fn seeds_and_pages_twenty_weekly_reports() {
    let conn = open();
    let first_page = list(&conn, weekly_query(15, 0));
    let second_page = list(&conn, weekly_query(15, 15));
    assert_eq!(first_page.len(), 15);
    assert_eq!(second_page.len(), 5);
    assert!(first_page[0].content.contains("，第"));
    assert!(first_page[0].record_date > first_page[1].record_date);
}

#[test]
fn saves_and_searches_markdown_content() {
    let conn = open();
    let mut record = list(&conn, weekly_query(1, 0)).remove(0);
    record.content = "## 已完成\n\n- 分页查询".to_string();
    record.updated_at = "2026-08-22T12:00:00Z".to_string();
    execute(&conn, &save_record_statement(&record).expect("save record"));
    let mut query = weekly_query(15, 0);
    query.keyword = Some("分页查询".to_string());
    let matches = list(&conn, query);
    assert_eq!(matches.len(), 1);
    assert!(matches[0].content.starts_with("## 已完成"));
}

#[test]
fn deletes_a_saved_record() {
    let conn = open();
    let id = list(&conn, weekly_query(1, 0)).remove(0).id;
    execute(&conn, &delete_record_statement(&id));
    assert!(get(&conn, &id).is_none());
}

#[test]
fn a_menu_with_reports_is_not_deleted() {
    let conn = open();
    let count_stmt = delete_menu_check("weekly").expect("not fixed");
    let reports: i64 = conn
        .query_row(&count_stmt.sql, params_from_iter(values(&count_stmt)), |row| row.get(0))
        .expect("count");
    assert_eq!(reports, 20);
    assert!(delete_menu_after_count("weekly", reports).is_err());
}

fn read_menu(row: &rusqlite::Row<'_>) -> rusqlite::Result<NavigationMenu> {
    Ok(NavigationMenu::from_row(MenuRow {
        id: row.get(0)?,
        label: row.get(1)?,
        icon_svg: row.get(2)?,
        sort_order: row.get(3)?,
        is_system: row.get(4)?,
        is_hidden: row.get(5)?,
        report_period: row.get(6)?,
    }))
}

fn load_preferences(conn: &Connection) -> AppPreferences {
    let mut stored = Vec::new();
    for i in 0..SETTING_COUNT {
        let stmt = setting_lookup_statement(setting_key_at(i));
        let value: Option<String> = conn
            .query_row(&stmt.sql, params_from_iter(values(&stmt)), |row| row.get(0))
            .optional()
            .expect("setting");
        stored.push(value);
    }
    let stmt = list_menus_statement();
    let mut prepared = conn.prepare(&stmt.sql).expect("prepare");
    let menus = prepared
        .query_map(params_from_iter(values(&stmt)), read_menu)
        .expect("query")
        .collect::<Result<Vec<_>, _>>()
        .expect("menus");
    preferences_from_settings(&stored, menus)
}

fn save_preferences(conn: &mut Connection, prefs: &AppPreferences) -> AppPreferences {
    let stmts = save_preferences_statements(prefs).expect("statements");
    let tx = conn.transaction().expect("transaction");
    for stmt in &stmts {
        execute(&tx, stmt);
    }
    tx.commit().expect("commit");
    load_preferences(conn)
}

fn ids(prefs: &AppPreferences) -> Vec<String> {
    prefs.menus.iter().map(|m| m.id.clone()).collect()
}

#[test]
fn a_menu_left_out_of_a_save_stays_between_home_and_settings() {
    let mut conn = open();
    let mut prefs = load_preferences(&conn);
    assert_eq!(ids(&prefs), vec!["home", "daily", "weekly", "meeting", "settings"]);
    prefs.menus.retain(|m| m.id != "meeting");
    let saved = save_preferences(&mut conn, &prefs);
    assert_eq!(ids(&saved), vec!["home", "daily", "weekly", "meeting", "settings"]);
    assert!(saved.menus.iter().all(|m| m.sort_order >= 0));
    prefs.menus = vec![prefs.menus[2].clone(), prefs.menus[0].clone()];
    let saved = save_preferences(&mut conn, &prefs);
    assert_eq!(ids(&saved), vec!["home", "weekly", "daily", "meeting", "settings"]);
}

#[test]
fn a_reordered_menu_list_reads_back_in_that_order() {
    let mut conn = open();
    let mut prefs = load_preferences(&conn);
    prefs.menus.reverse();
    prefs.editor_mode = "sv".to_string();
    let saved = save_preferences(&mut conn, &prefs);
    assert_eq!(ids(&saved), vec!["home", "meeting", "weekly", "daily", "settings"]);
    let orders: Vec<i64> = saved.menus.iter().map(|m| m.sort_order).collect();
    assert_eq!(orders, vec![0, 1, 2, 3, 4]);
    assert_eq!(saved.editor_mode, "sv");
}

#[test]
fn saved_metadata_reads_back() {
    let conn = open();
    let mut record = list(&conn, weekly_query(1, 0)).remove(0);
    record.metadata = serde_json::from_str("{\"mood\":\"good\",\"items\":[1,2,\"三\"]}").expect("json");
    execute(&conn, &save_record_statement(&record).expect("save record"));
    let back = get(&conn, &record.id).expect("stored");
    assert_eq!(back.metadata, record.metadata);
}

fn try_save_preferences(conn: &mut Connection, prefs: &AppPreferences) -> Result<(), rusqlite::Error> {
    let stmts = save_preferences_statements(prefs).expect("statements");
    let tx = conn.transaction()?;
    for stmt in &stmts {
        tx.execute(&stmt.sql, params_from_iter(values(stmt)))?;
    }
    tx.commit()
}

fn orders(prefs: &AppPreferences) -> Vec<i64> {
    prefs.menus.iter().map(|m| m.sort_order).collect()
}

#[test]
fn a_list_that_counts_past_settings_is_refused_and_rolled_back() {
    let mut conn = open();
    let stored = load_preferences(&conn);
    let mut prefs = stored.clone();
    let daily = prefs.menus[1].clone();
    prefs.menus = vec![prefs.menus[0].clone(), daily.clone(), daily, prefs.menus[2].clone(), prefs.menus[3].clone()];
    prefs.menus[1].label = "changed".to_string();
    assert!(try_save_preferences(&mut conn, &prefs).is_err());
    let after = load_preferences(&conn);
    assert_eq!(ids(&after), ids(&stored));
    assert_eq!(orders(&after), vec![0, 1, 2, 3, 4]);
    assert_eq!(after.menus[1].label, stored.menus[1].label);
}

#[test]
fn an_unknown_menu_in_the_list_counts_like_the_others() {
    let mut conn = open();
    let stored = load_preferences(&conn);
    let mut ghost = stored.menus[1].clone();
    ghost.id = "ghost".to_string();
    let mut prefs = stored.clone();
    prefs.menus.insert(1, ghost.clone());
    assert!(try_save_preferences(&mut conn, &prefs).is_err());
    let mut prefs = stored.clone();
    prefs.menus.push(ghost);
    let saved = save_preferences(&mut conn, &prefs);
    assert_eq!(ids(&saved), vec!["home", "daily", "weekly", "meeting", "settings"]);
    assert_eq!(orders(&saved), vec![0, 1, 2, 3, 5]);
}

#[test]
fn saved_menu_fields_read_back() {
    let mut conn = open();
    let mut prefs = load_preferences(&conn);
    for menu in prefs.menus.iter_mut() {
        menu.label = format!("{}!", menu.label);
        menu.icon_svg = format!("<svg id=\"{}\"/>", menu.id);
        menu.is_hidden = true;
        menu.report_period = "month".to_string();
    }
    let saved = save_preferences(&mut conn, &prefs);
    for (menu, back) in prefs.menus.iter().zip(saved.menus.iter()) {
        assert_eq!(back.id, menu.id);
        assert_eq!(back.label, menu.label);
        assert_eq!(back.icon_svg, menu.icon_svg);
        let fixed = menu.id == "home" || menu.id == "settings";
        assert_eq!(back.is_hidden, !fixed);
        if !fixed {
            assert_eq!(back.report_period, "month");
        }
    }
}
