use report_manager::models::{RecordQuery, RecordType, SqlValue};
use report_manager::search::list_records_statement;

fn weekly_query(limit: u32, offset: u32) -> RecordQuery {
    RecordQuery {
        menu_id: Some("weekly".to_string()),
        record_type: None,
        keyword: None,
        date_from: None,
        date_to: None,
        tags: None,
        limit: Some(limit),
        offset: Some(offset),
    }
}

const BASE: &str = "SELECT id, type, record_date, title, content, tags, metadata, status, created_at, updated_at, menu_id FROM records WHERE 1 = 1";
const PAGE: &str = " ORDER BY record_date DESC, updated_at DESC LIMIT ? OFFSET ?";

#[test]
fn menu_page_query() {
    let s = list_records_statement(&weekly_query(15, 15));
    assert_eq!(s.sql, format!("{BASE} AND menu_id = ?{PAGE}"));
    assert_eq!(
        s.params,
        vec![SqlValue::Text("weekly".to_string()), SqlValue::Integer(15), SqlValue::Integer(15)]
    );
}

#[test]
fn keyword_is_trimmed_and_matched_in_three_columns() {
    let mut q = weekly_query(15, 0);
    q.keyword = Some("  分页查询 ".to_string());
    let s = list_records_statement(&q);
    assert_eq!(s.sql, format!("{BASE} AND menu_id = ? AND (title LIKE ? OR content LIKE ? OR tags LIKE ?){PAGE}"));
    let p = SqlValue::Text("%分页查询%".to_string());
    assert_eq!(s.params[1..4].to_vec(), vec![p.clone(), p.clone(), p]);
}

#[test]
fn blank_filters_are_ignored() {
    let q = RecordQuery {
        menu_id: None,
        record_type: None,
        keyword: Some("   ".to_string()),
        date_from: Some(String::new()),
        date_to: Some(String::new()),
        tags: Some(vec![" ".to_string(), String::new()]),
        limit: None,
        offset: None,
    };
    let s = list_records_statement(&q);
    assert_eq!(s.sql, format!("{BASE}{PAGE}"));
    assert_eq!(s.params, vec![SqlValue::Integer(15), SqlValue::Integer(0)]);
}

#[test]
fn every_filter_in_order() {
    let q = RecordQuery {
        menu_id: Some("daily".to_string()),
        record_type: Some(RecordType::Meeting),
        keyword: Some("x".to_string()),
        date_from: Some("2026-01-01".to_string()),
        date_to: Some("2026-12-31".to_string()),
        tags: Some(vec![" 计划 ".to_string(), "  ".to_string(), "risk".to_string()]),
        limit: Some(500),
        offset: Some(3),
    };
    let s = list_records_statement(&q);
    assert_eq!(
        s.sql,
        format!("{BASE} AND menu_id = ? AND type = ? AND (title LIKE ? OR content LIKE ? OR tags LIKE ?) AND record_date >= ? AND record_date <= ? AND tags LIKE ? AND tags LIKE ?{PAGE}")
    );
    let t = |s: &str| SqlValue::Text(s.to_string());
    assert_eq!(
        s.params,
        vec![
            t("daily"),
            t("meeting"),
            t("%x%"),
            t("%x%"),
            t("%x%"),
            t("2026-01-01"),
            t("2026-12-31"),
            t("%计划%"),
            t("%risk%"),
            SqlValue::Integer(100),
            SqlValue::Integer(3),
        ]
    );
}

#[test]
fn page_size_is_kept_within_one_and_one_hundred() {
    let s = list_records_statement(&weekly_query(0, 0));
    assert_eq!(s.params[1], SqlValue::Integer(1));
    let s = list_records_statement(&weekly_query(100, 0));
    assert_eq!(s.params[1], SqlValue::Integer(100));
    let s = list_records_statement(&weekly_query(101, 0));
    assert_eq!(s.params[1], SqlValue::Integer(100));
}
