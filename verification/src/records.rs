//! How records are written to and read from the `records` table.

use vstd::prelude::*;
use crate::json::{json_value_or_null, json_value_text, metadata_to_text, string_list_from_text, string_list_or_empty, string_list_to_json, metadata_from_text, json_of_string_list, json_error_text};
use crate::models::{Record, RecordView, RecordStatus, RecordType, SqlStatement, SqlValue, SqlValueView, StatementView, stmt};
use crate::text::same_text;

verus! {

/// The stored name of a record type.
pub open spec fn record_type_name(t: RecordType) -> Seq<char> {
    match t {
        RecordType::Daily => "daily"@,
        RecordType::Weekly => "weekly"@,
        RecordType::Meeting => "meeting"@,
    }
}

/// The record type that a stored name stands for; unknown names read as daily.
pub open spec fn record_type_from_name(name: Seq<char>) -> RecordType {
    if name == "weekly"@ {
        RecordType::Weekly
    } else if name == "meeting"@ {
        RecordType::Meeting
    } else {
        RecordType::Daily
    }
}

/// The stored name of a record status.
pub open spec fn record_status_name(s: RecordStatus) -> Seq<char> {
    match s {
        RecordStatus::Draft => "draft"@,
        RecordStatus::Saved => "saved"@,
    }
}

/// The status that a stored name stands for; anything but `saved` is a draft.
pub open spec fn record_status_from_name(name: Seq<char>) -> RecordStatus {
    if name == "saved"@ {
        RecordStatus::Saved
    } else {
        RecordStatus::Draft
    }
}

impl RecordType {
    /// The name under which the type is stored.
    pub fn stored_name(&self) -> (r: &'static str)
        ensures
            r@ == record_type_name(*self),
    {
        match self {
            RecordType::Daily => "daily",
            RecordType::Weekly => "weekly",
            RecordType::Meeting => "meeting",
        }
    }

    /// Reads a stored type name: `weekly` and `meeting` are recognised, any
    /// other text is a daily report.
    pub fn from_stored_name(name: &str) -> (r: RecordType)
        ensures
            r == record_type_from_name(name@),
    {
        if same_text(name, "weekly") {
            RecordType::Weekly
        } else if same_text(name, "meeting") {
            RecordType::Meeting
        } else {
            RecordType::Daily
        }
    }
}

impl RecordStatus {
    /// The name under which the status is stored.
    pub fn stored_name(&self) -> (r: &'static str)
        ensures
            r@ == record_status_name(*self),
    {
        match self {
            RecordStatus::Draft => "draft",
            RecordStatus::Saved => "saved",
        }
    }

    /// Reads a stored status name: only `saved` is a saved record.
    pub fn from_stored_name(name: &str) -> (r: RecordStatus)
        ensures
            r == record_status_from_name(name@),
    {
        if same_text(name, "saved") {
            RecordStatus::Saved
        } else {
            RecordStatus::Draft
        }
    }
}

/// Reading back the stored name of a record type gives the type again.
pub proof fn lemma_record_type_name_round_trip(t: RecordType)
    ensures
        record_type_from_name(record_type_name(t)) == t,
{
    reveal_strlit("daily");
    reveal_strlit("weekly");
    reveal_strlit("meeting");
    assert("daily"@[0] != "weekly"@[0]);
    assert("daily"@[0] != "meeting"@[0]);
    assert("meeting"@[0] != "weekly"@[0]);
}

/// Reading back the stored name of a record status gives the status again.
pub proof fn lemma_record_status_name_round_trip(s: RecordStatus)
    ensures
        record_status_from_name(record_status_name(s)) == s,
{
    reveal_strlit("draft");
    reveal_strlit("saved");
    assert("draft"@[0] != "saved"@[0]);
}

/// The columns of one row of the `records` table, as text.
#[derive(Debug, Clone)]
pub struct RecordRow {
    pub id: String,
    pub record_type: String,
    pub record_date: String,
    pub title: String,
    pub content: String,
    pub tags: String,
    pub metadata: String,
    pub status: String,
    pub created_at: String,
    pub updated_at: String,
    pub menu_id: String,
}

/// The columns of a stored row, as contracts see them.
pub struct RecordRowView {
    pub id: Seq<char>,
    pub record_type: Seq<char>,
    pub record_date: Seq<char>,
    pub title: Seq<char>,
    pub content: Seq<char>,
    pub tags: Seq<char>,
    pub metadata: Seq<char>,
    pub status: Seq<char>,
    pub created_at: Seq<char>,
    pub updated_at: Seq<char>,
    pub menu_id: Seq<char>,
}

impl View for RecordRow {
    type V = RecordRowView;

    open spec fn view(&self) -> RecordRowView {
        RecordRowView {
            id: self.id@,
            record_type: self.record_type@,
            record_date: self.record_date@,
            title: self.title@,
            content: self.content@,
            tags: self.tags@,
            metadata: self.metadata@,
            status: self.status@,
            created_at: self.created_at@,
            updated_at: self.updated_at@,
            menu_id: self.menu_id@,
        }
    }
}

/// Everything of a record but its metadata, which the library only carries.
pub struct RecordFields {
    pub id: Seq<char>,
    pub record_type: RecordType,
    pub record_date: Seq<char>,
    pub title: Seq<char>,
    pub content: Seq<char>,
    pub tags: Seq<Seq<char>>,
    pub status: RecordStatus,
    pub created_at: Seq<char>,
    pub updated_at: Seq<char>,
    pub menu_id: Seq<char>,
}

/// The fields of a record.
pub open spec fn fields_of(r: RecordView) -> RecordFields {
    RecordFields {
        id: r.id,
        record_type: r.record_type,
        record_date: r.record_date,
        title: r.title,
        content: r.content,
        tags: r.tags,
        status: r.status,
        created_at: r.created_at,
        updated_at: r.updated_at,
        menu_id: r.menu_id,
    }
}

/// The fields that a stored row reads as: unknown type names read as daily,
/// any status but `saved` as a draft, and tags that are not a JSON list of
/// strings as no tags.
pub open spec fn decoded_fields(row: RecordRowView) -> RecordFields {
    RecordFields {
        id: row.id,
        record_type: record_type_from_name(row.record_type),
        record_date: row.record_date,
        title: row.title,
        content: row.content,
        tags: string_list_or_empty(row.tags),
        status: record_status_from_name(row.status),
        created_at: row.created_at,
        updated_at: row.updated_at,
        menu_id: row.menu_id,
    }
}

/// The row that saving a record writes, with its tags encoded as `tags_json`
/// and its metadata as `metadata_text`.
pub open spec fn stored_row(r: RecordView, tags_json: Seq<char>, metadata_text: Seq<char>) -> RecordRowView {
    RecordRowView {
        id: r.id,
        record_type: record_type_name(r.record_type),
        record_date: r.record_date,
        title: r.title,
        content: r.content,
        tags: tags_json,
        metadata: metadata_text,
        status: record_status_name(r.status),
        created_at: r.created_at,
        updated_at: r.updated_at,
        menu_id: r.menu_id,
    }
}

impl Record {
    /// The record that a stored row describes, as [`decoded_fields`] says;
    /// its metadata is the JSON value of the stored text, or `null` when the
    /// text is not JSON.
    pub fn from_row(row: RecordRow) -> (r: Record)
        ensures
            fields_of(r@) == decoded_fields(row@),
            r.metadata == json_value_or_null(row.metadata@),
    {
        let ghost row_view = row@;
        let record_type = RecordType::from_stored_name(row.record_type.as_str());
        let status = RecordStatus::from_stored_name(row.status.as_str());
        let tags = string_list_from_text(row.tags.as_str());
        let metadata = metadata_from_text(row.metadata.as_str());
        let r = Record {
            id: row.id,
            record_type,
            record_date: row.record_date,
            title: row.title,
            content: row.content,
            tags,
            metadata,
            status,
            created_at: row.created_at,
            updated_at: row.updated_at,
            menu_id: row.menu_id,
        };
        assert(fields_of(r@) =~= decoded_fields(row_view));
        r
    }
}

/// A saved record reads back as itself: the row that saving writes, read
/// back, gives every field of the record again, provided the stored tags text
/// reads back as the tags (which [`save_record_statement`] ensures).
pub proof fn lemma_saved_record_reads_back(r: RecordView, tags_json: Seq<char>, metadata_text: Seq<char>)
    requires
        string_list_or_empty(tags_json) == r.tags,
    ensures
        decoded_fields(stored_row(r, tags_json, metadata_text)) == fields_of(r),
{
    lemma_record_type_name_round_trip(r.record_type);
    lemma_record_status_name_round_trip(r.status);
}

pub const UPSERT_RECORD_SQL: &'static str = "INSERT INTO records (id, type, record_date, title, content, tags, metadata, status, created_at, updated_at, menu_id) VALUES (?1, ?2, ?3, ?4, ?5, ?6, ?7, ?8, ?9, ?10, ?11) ON CONFLICT(id) DO UPDATE SET type=excluded.type, record_date=excluded.record_date, title=excluded.title, content=excluded.content, tags=excluded.tags, metadata=excluded.metadata, status=excluded.status, updated_at=excluded.updated_at, menu_id=excluded.menu_id";

pub const GET_RECORD_SQL: &'static str = "SELECT id, type, record_date, title, content, tags, metadata, status, created_at, updated_at, menu_id FROM records WHERE id = ?1";

pub const DELETE_RECORD_SQL: &'static str = "DELETE FROM records WHERE id = ?1";

/// The statement that inserts a record, or replaces every column but
/// `created_at` of the record with the same id.
pub open spec fn save_record_stmt(r: RecordView, tags_json: Seq<char>, metadata_text: Seq<char>) -> StatementView {
    let row = stored_row(r, tags_json, metadata_text);
    stmt(
        UPSERT_RECORD_SQL@,
        seq![
            SqlValueView::Text(row.id),
            SqlValueView::Text(row.record_type),
            SqlValueView::Text(row.record_date),
            SqlValueView::Text(row.title),
            SqlValueView::Text(row.content),
            SqlValueView::Text(row.tags),
            SqlValueView::Text(row.metadata),
            SqlValueView::Text(row.status),
            SqlValueView::Text(row.created_at),
            SqlValueView::Text(row.updated_at),
            SqlValueView::Text(row.menu_id),
        ],
    )
}

/// The text of a placeholder value (empty for any other value).
pub open spec fn param_text(v: SqlValueView) -> Seq<char> {
    match v {
        SqlValueView::Text(t) => t,
        _ => Seq::empty(),
    }
}

/// The row that an insert into `records` stores when its placeholders are
/// `ps`, taken in the order of the columns that [`UPSERT_RECORD_SQL`] names:
/// id, type, record date, title, content, tags, metadata, status, created,
/// updated, menu.
pub open spec fn row_of_columns(ps: Seq<SqlValueView>) -> RecordRowView {
    RecordRowView {
        id: param_text(ps[0]),
        record_type: param_text(ps[1]),
        record_date: param_text(ps[2]),
        title: param_text(ps[3]),
        content: param_text(ps[4]),
        tags: param_text(ps[5]),
        metadata: param_text(ps[6]),
        status: param_text(ps[7]),
        created_at: param_text(ps[8]),
        updated_at: param_text(ps[9]),
        menu_id: param_text(ps[10]),
    }
}

/// Saving a record stores the record itself: the save statement binds one
/// text to each of the eleven columns, and the row those texts make, read
/// back, gives every field of the record again (its id, type, date, title,
/// content, tags, status, times and menu), with the tags and metadata stored
/// as the given texts; provided the tags text reads back as the tags (which
/// [`save_record_statement`] ensures).
pub proof fn lemma_save_statement_stores_the_record(r: RecordView, tags_json: Seq<char>, metadata_text: Seq<char>)
    requires
        string_list_or_empty(tags_json) == r.tags,
    ensures
        save_record_stmt(r, tags_json, metadata_text).params.len() == 11,
        forall|k: int|
            0 <= k < 11 ==> #[trigger] save_record_stmt(r, tags_json, metadata_text).params[k] is Text,
        decoded_fields(row_of_columns(save_record_stmt(r, tags_json, metadata_text).params)) == fields_of(r),
        row_of_columns(save_record_stmt(r, tags_json, metadata_text).params).tags == tags_json,
        row_of_columns(save_record_stmt(r, tags_json, metadata_text).params).metadata == metadata_text,
{
    lemma_record_type_name_round_trip(r.record_type);
    lemma_record_status_name_round_trip(r.status);
    let ps = save_record_stmt(r, tags_json, metadata_text).params;
    assert(decoded_fields(row_of_columns(ps)) =~= fields_of(r));
}

fn text_value(s: &str) -> (v: SqlValue)
    ensures
        v@ == SqlValueView::Text(s@),
{
    SqlValue::Text(String::from_str(s))
}

/// The statement that saves `record`, with its tags already encoded as
/// `tags_json` and its metadata as `metadata_text`.
pub fn save_record_statement_with(record: &Record, tags_json: String, metadata_text: String) -> (s: SqlStatement)
    ensures
        s@ == save_record_stmt(record@, tags_json@, metadata_text@),
{
    let mut params: Vec<SqlValue> = Vec::new();
    params.push(text_value(record.id.as_str()));
    params.push(text_value(record.record_type.stored_name()));
    params.push(text_value(record.record_date.as_str()));
    params.push(text_value(record.title.as_str()));
    params.push(text_value(record.content.as_str()));
    params.push(SqlValue::Text(tags_json));
    params.push(SqlValue::Text(metadata_text));
    params.push(text_value(record.status.stored_name()));
    params.push(text_value(record.created_at.as_str()));
    params.push(text_value(record.updated_at.as_str()));
    params.push(text_value(record.menu_id.as_str()));
    let s = SqlStatement { sql: String::from_str(UPSERT_RECORD_SQL), params };
    assert(s@.params =~= save_record_stmt(record@, tags_json@, metadata_text@).params);
    s
}

/// The statement that saves `record`: its tags are stored as JSON text, which
/// reads back as the same tags, and its metadata as the JSON text that
/// serde_json writes for the value. Encoding a list of tags does not fail, so the statement always
/// comes back.
pub fn save_record_statement(record: &Record) -> (r: Result<SqlStatement, String>)
    ensures
        r is Ok,
        r matches Ok(s) ==> s@ == save_record_stmt(
            record@,
            json_of_string_list(record@.tags),
            json_value_text(record.metadata),
        ),
        r is Ok ==> string_list_or_empty(json_of_string_list(record@.tags)) == record@.tags,
{
    match string_list_to_json(&record.tags) {
        Ok(tags_json) => {
            let metadata_text = metadata_to_text(&record.metadata);
            Ok(save_record_statement_with(record, tags_json, metadata_text))
        },
        Err(error) => Err(json_error_text(&error)),
    }
}

/// The record that was read back after a save, or the error that the save
/// reports when it could not be read back.
pub fn saved_record_result(found: Option<Record>) -> (r: Result<Record, String>)
    ensures
        match found {
            Some(rec) => r matches Ok(x) && x@ == rec@,
            None => r matches Err(msg) && msg@ == "保存后无法读取报告。"@,
        },
{
    match found {
        Some(rec) => Ok(rec),
        None => Err(String::from_str("保存后无法读取报告。")),
    }
}

/// The statement that reads the record with the given id.
pub fn get_record_statement(id: &str) -> (s: SqlStatement)
    ensures
        s@ == stmt(GET_RECORD_SQL@, seq![SqlValueView::Text(id@)]),
{
    let mut params: Vec<SqlValue> = Vec::new();
    params.push(text_value(id));
    let s = SqlStatement { sql: String::from_str(GET_RECORD_SQL), params };
    assert(s@.params =~= seq![SqlValueView::Text(id@)]);
    s
}

/// The statement that removes the record with the given id.
pub fn delete_record_statement(id: &str) -> (s: SqlStatement)
    ensures
        s@ == stmt(DELETE_RECORD_SQL@, seq![SqlValueView::Text(id@)]),
{
    let mut params: Vec<SqlValue> = Vec::new();
    params.push(text_value(id));
    let s = SqlStatement { sql: String::from_str(DELETE_RECORD_SQL), params };
    assert(s@.params =~= seq![SqlValueView::Text(id@)]);
    s
}

} // verus!
