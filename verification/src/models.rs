//! The data the report manager stores and exchanges, with the mathematical
//! views that contracts speak of.

use vstd::prelude::*;

verus! {

/// The JSON document attached to a record as free-form metadata.
#[verifier::external_type_specification]
#[verifier::external_body]
pub struct ExJsonValue(serde_json::Value);

/// The error that serde_json reports.
#[verifier::external_type_specification]
#[verifier::external_body]
pub struct ExJsonError(serde_json::Error);

/// The kind of a work record.
#[derive(Debug, Clone, Copy, PartialEq, Eq, Structural)]
pub enum RecordType {
    Daily,
    Weekly,
    Meeting,
}

/// Whether a record is still a draft.
#[derive(Debug, Clone, Copy, PartialEq, Eq, Structural)]
pub enum RecordStatus {
    Draft,
    Saved,
}

/// One daily report, weekly report or meeting note.
#[derive(Debug)]
pub struct Record {
    pub id: String,
    pub record_type: RecordType,
    pub record_date: String,
    pub title: String,
    pub content: String,
    pub tags: Vec<String>,
    pub metadata: serde_json::Value,
    pub status: RecordStatus,
    pub created_at: String,
    pub updated_at: String,
    pub menu_id: String,
}

/// What a record is, as contracts see it.
pub struct RecordView {
    pub id: Seq<char>,
    pub record_type: RecordType,
    pub record_date: Seq<char>,
    pub title: Seq<char>,
    pub content: Seq<char>,
    pub tags: Seq<Seq<char>>,
    pub metadata: serde_json::Value,
    pub status: RecordStatus,
    pub created_at: Seq<char>,
    pub updated_at: Seq<char>,
    pub menu_id: Seq<char>,
}

impl View for Record {
    type V = RecordView;

    open spec fn view(&self) -> RecordView {
        RecordView {
            id: self.id@,
            record_type: self.record_type,
            record_date: self.record_date@,
            title: self.title@,
            content: self.content@,
            tags: self.tags.deep_view(),
            metadata: self.metadata,
            status: self.status,
            created_at: self.created_at@,
            updated_at: self.updated_at@,
            menu_id: self.menu_id@,
        }
    }
}

/// A search over the stored records; every filter is optional.
#[derive(Debug, Clone)]
pub struct RecordQuery {
    pub menu_id: Option<String>,
    pub record_type: Option<RecordType>,
    pub keyword: Option<String>,
    pub date_from: Option<String>,
    pub date_to: Option<String>,
    pub tags: Option<Vec<String>>,
    pub limit: Option<u32>,
    pub offset: Option<u32>,
}

pub struct RecordQueryView {
    pub menu_id: Option<Seq<char>>,
    pub record_type: Option<RecordType>,
    pub keyword: Option<Seq<char>>,
    pub date_from: Option<Seq<char>>,
    pub date_to: Option<Seq<char>>,
    pub tags: Option<Seq<Seq<char>>>,
    pub limit: Option<u32>,
    pub offset: Option<u32>,
}

impl View for RecordQuery {
    type V = RecordQueryView;

    open spec fn view(&self) -> RecordQueryView {
        RecordQueryView {
            menu_id: self.menu_id.deep_view(),
            record_type: self.record_type,
            keyword: self.keyword.deep_view(),
            date_from: self.date_from.deep_view(),
            date_to: self.date_to.deep_view(),
            tags: self.tags.deep_view(),
            limit: self.limit,
            offset: self.offset,
        }
    }
}

/// A user-visible navigation entry. `is_system` protects the fixed Home and
/// Settings entries from changes that would make the application unusable.
#[derive(Debug, Clone)]
pub struct NavigationMenu {
    pub id: String,
    pub label: String,
    pub icon_svg: String,
    pub sort_order: i64,
    pub is_system: bool,
    pub is_hidden: bool,
    pub report_period: String,
}

pub struct MenuView {
    pub id: Seq<char>,
    pub label: Seq<char>,
    pub icon_svg: Seq<char>,
    pub sort_order: i64,
    pub is_system: bool,
    pub is_hidden: bool,
    pub report_period: Seq<char>,
}

impl View for NavigationMenu {
    type V = MenuView;

    open spec fn view(&self) -> MenuView {
        MenuView {
            id: self.id@,
            label: self.label@,
            icon_svg: self.icon_svg@,
            sort_order: self.sort_order,
            is_system: self.is_system,
            is_hidden: self.is_hidden,
            report_period: self.report_period@,
        }
    }
}

/// The views of a list of menus.
pub open spec fn menus_view(menus: Seq<NavigationMenu>) -> Seq<MenuView> {
    menus.map_values(|m: NavigationMenu| m@)
}

/// The user's preferences. The editor font scale is kept as the decimal text
/// that is stored; the desktop shell reads it as a number.
#[derive(Debug, Clone)]
pub struct AppPreferences {
    pub sidebar_collapsed: bool,
    pub default_page_id: String,
    pub week_start: String,
    pub export_directory: String,
    pub minimize_to_tray: bool,
    pub default_report_load_count: u32,
    pub refresh_report_load_count: u32,
    pub editor_font_scale: String,
    /// Editor display mode: `wysiwyg`, `ir` or `sv`.
    pub editor_mode: String,
    /// Display order for the per-menu action buttons in Menu Management.
    pub menu_action_order: Vec<String>,
    pub menus: Vec<NavigationMenu>,
}

pub struct PreferencesView {
    pub sidebar_collapsed: bool,
    pub default_page_id: Seq<char>,
    pub week_start: Seq<char>,
    pub export_directory: Seq<char>,
    pub minimize_to_tray: bool,
    pub default_report_load_count: u32,
    pub refresh_report_load_count: u32,
    pub editor_font_scale: Seq<char>,
    pub editor_mode: Seq<char>,
    pub menu_action_order: Seq<Seq<char>>,
    pub menus: Seq<MenuView>,
}

impl View for AppPreferences {
    type V = PreferencesView;

    open spec fn view(&self) -> PreferencesView {
        PreferencesView {
            sidebar_collapsed: self.sidebar_collapsed,
            default_page_id: self.default_page_id@,
            week_start: self.week_start@,
            export_directory: self.export_directory@,
            minimize_to_tray: self.minimize_to_tray,
            default_report_load_count: self.default_report_load_count,
            refresh_report_load_count: self.refresh_report_load_count,
            editor_font_scale: self.editor_font_scale@,
            editor_mode: self.editor_mode@,
            menu_action_order: self.menu_action_order.deep_view(),
            menus: menus_view(self.menus@),
        }
    }
}

/// A value bound to a `?` placeholder of a statement.
#[derive(Debug, Clone, PartialEq, Eq)]
pub enum SqlValue {
    Text(String),
    Integer(i64),
    Boolean(bool),
}

pub enum SqlValueView {
    Text(Seq<char>),
    Integer(i64),
    Boolean(bool),
}

impl View for SqlValue {
    type V = SqlValueView;

    open spec fn view(&self) -> SqlValueView {
        match self {
            SqlValue::Text(s) => SqlValueView::Text(s@),
            SqlValue::Integer(i) => SqlValueView::Integer(*i),
            SqlValue::Boolean(b) => SqlValueView::Boolean(*b),
        }
    }
}

/// One SQL statement with the values of its placeholders, in order.
#[derive(Debug, Clone, PartialEq, Eq)]
pub struct SqlStatement {
    pub sql: String,
    pub params: Vec<SqlValue>,
}

pub struct StatementView {
    pub sql: Seq<char>,
    pub params: Seq<SqlValueView>,
}

impl View for SqlStatement {
    type V = StatementView;

    open spec fn view(&self) -> StatementView {
        StatementView { sql: self.sql@, params: self.params@.map_values(|p: SqlValue| p@) }
    }
}

/// The views of a list of statements.
pub open spec fn statements_view(stmts: Seq<SqlStatement>) -> Seq<StatementView> {
    stmts.map_values(|s: SqlStatement| s@)
}

/// A statement from its text and placeholder values.
pub open spec fn stmt(sql: Seq<char>, params: Seq<SqlValueView>) -> StatementView {
    StatementView { sql, params }
}

} // verus!
