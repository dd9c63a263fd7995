use report_manager::models::{Record, RecordStatus, RecordType, SqlValue};
use report_manager::records::{
    delete_record_statement, get_record_statement, save_record_statement, saved_record_result, RecordRow,
    DELETE_RECORD_SQL, GET_RECORD_SQL, UPSERT_RECORD_SQL,
};

fn text(s: &str) -> SqlValue {
    SqlValue::Text(s.to_string())
}

fn sample_record() -> Record {
    Record {
        id: "management-weekly-2026-08-03".to_string(),
        record_type: RecordType::Weekly,
        record_date: "2026-08-03".to_string(),
        title: "2026年8月3日 - 2026年8月9日，第32周".to_string(),
        content: "## 已完成\n\n- 分页查询".to_string(),
        tags: vec!["计划".to_string(), "say \"hi\"".to_string()],
        metadata: serde_json::from_str("{\"mood\":\"ok\"}").unwrap(),
        status: RecordStatus::Saved,
        created_at: "2026-08-01T08:00:00Z".to_string(),
        updated_at: "2026-08-22T12:00:00Z".to_string(),
        menu_id: "weekly".to_string(),
    }
}

#[test]
fn type_and_status_names_round_trip() {
    for t in [RecordType::Daily, RecordType::Weekly, RecordType::Meeting] {
        assert_eq!(RecordType::from_stored_name(t.stored_name()), t);
    }
    for s in [RecordStatus::Draft, RecordStatus::Saved] {
        assert_eq!(RecordStatus::from_stored_name(s.stored_name()), s);
    }
    assert_eq!(RecordType::from_stored_name("unknown"), RecordType::Daily);
    assert_eq!(RecordStatus::from_stored_name("SAVED"), RecordStatus::Draft);
}

#[test]
fn save_statement_binds_every_column() {
    let record = sample_record();
    let stmt = save_record_statement(&record).expect("tags encode");
    assert_eq!(stmt.sql, UPSERT_RECORD_SQL);
    assert_eq!(stmt.params.len(), 11);
    assert_eq!(stmt.params[0], text("management-weekly-2026-08-03"));
    assert_eq!(stmt.params[1], text("weekly"));
    assert_eq!(stmt.params[5], text("[\"计划\",\"say \\\"hi\\\"\"]"));
    assert_eq!(stmt.params[6], text("{\"mood\":\"ok\"}"));
    assert_eq!(stmt.params[7], text("saved"));
    assert_eq!(stmt.params[10], text("weekly"));
}

#[test]
fn a_saved_record_reads_back_as_itself() {
    let record = sample_record();
    let stmt = save_record_statement(&record).expect("tags encode");
    let col = |i: usize| match &stmt.params[i] {
        SqlValue::Text(s) => s.clone(),
        other => panic!("unexpected {:?}", other),
    };
    let row = RecordRow {
        id: col(0),
        record_type: col(1),
        record_date: col(2),
        title: col(3),
        content: col(4),
        tags: col(5),
        metadata: col(6),
        status: col(7),
        created_at: col(8),
        updated_at: col(9),
        menu_id: col(10),
    };
    let back = Record::from_row(row);
    assert_eq!(back.id, record.id);
    assert_eq!(back.record_type, record.record_type);
    assert_eq!(back.content, record.content);
    assert_eq!(back.tags, record.tags);
    assert_eq!(back.metadata, record.metadata);
    assert_eq!(back.status, record.status);
    assert_eq!(back.updated_at, record.updated_at);
}

#[test]
fn malformed_tags_and_metadata_read_as_empty() {
    let row = RecordRow {
        id: "r1".to_string(),
        record_type: "meeting".to_string(),
        record_date: "2026-01-02".to_string(),
        title: "t".to_string(),
        content: "c".to_string(),
        tags: "oops".to_string(),
        metadata: "{".to_string(),
        status: "draft".to_string(),
        created_at: "a".to_string(),
        updated_at: "b".to_string(),
        menu_id: "meeting".to_string(),
    };
    let r = Record::from_row(row);
    assert_eq!(r.record_type, RecordType::Meeting);
    assert!(r.tags.is_empty());
    assert_eq!(r.metadata, serde_json::Value::Null);
    assert_eq!(r.status, RecordStatus::Draft);
}

#[test]
fn missing_record_after_save_is_an_error() {
    let err = saved_record_result(None).unwrap_err();
    assert_eq!(err, "保存后无法读取报告。");
    assert!(saved_record_result(Some(sample_record())).is_ok());
}

#[test]
fn get_and_delete_statements_bind_the_id() {
    let g = get_record_statement("r9");
    assert_eq!(g.sql, GET_RECORD_SQL);
    assert_eq!(g.params, vec![text("r9")]);
    let d = delete_record_statement("r9");
    assert_eq!(d.sql, DELETE_RECORD_SQL);
    assert_eq!(d.params, vec![text("r9")]);
}

#[test]
fn tags_are_stored_as_escaped_json_strings() {
    let mut record = sample_record();
    record.tags = vec!["a\"b\\c".to_string(), "\n\t\u{1}\u{1f}\u{8}\u{c}\r".to_string(), "周".to_string()];
    let s = save_record_statement(&record).expect("encodes");
    assert_eq!(s.params[5], text("[\"a\\\"b\\\\c\",\"\\n\\t\\u0001\\u001f\\b\\f\\r\",\"周\"]"));
    record.tags = vec![];
    let s = save_record_statement(&record).expect("encodes");
    assert_eq!(s.params[5], text("[]"));
}
