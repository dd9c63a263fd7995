//! Opening the store: which failures of the schema migrations are expected.

use vstd::prelude::*;
use crate::text::{contains, contains_text};

verus! {

/// The tables of the store and the indexes that searches use.
pub const CREATE_TABLES_SQL: &'static str = "CREATE TABLE IF NOT EXISTS records (id TEXT PRIMARY KEY, type TEXT NOT NULL, record_date TEXT NOT NULL, title TEXT NOT NULL DEFAULT '', content TEXT NOT NULL DEFAULT '', tags TEXT NOT NULL DEFAULT '[]', metadata TEXT NOT NULL DEFAULT '{}', status TEXT NOT NULL DEFAULT 'draft', created_at TEXT NOT NULL, updated_at TEXT NOT NULL); CREATE INDEX IF NOT EXISTS idx_records_type ON records (type); CREATE INDEX IF NOT EXISTS idx_records_record_date ON records (record_date); CREATE INDEX IF NOT EXISTS idx_records_updated_at ON records (updated_at); CREATE TABLE IF NOT EXISTS navigation_menus (id TEXT PRIMARY KEY, label TEXT NOT NULL, icon_svg TEXT NOT NULL, sort_order INTEGER NOT NULL, is_system INTEGER NOT NULL DEFAULT 0); CREATE UNIQUE INDEX IF NOT EXISTS idx_navigation_menus_sort_order ON navigation_menus (sort_order); CREATE TABLE IF NOT EXISTS app_settings (key TEXT PRIMARY KEY, value TEXT NOT NULL);";

/// Adds the menu that each record belongs to; fails with a duplicate column
/// once the column exists.
pub const ADD_RECORD_MENU_SQL: &'static str = "ALTER TABLE records ADD COLUMN menu_id TEXT NOT NULL DEFAULT 'daily';";

/// Adds the visibility and the report period of each menu; fails with a
/// duplicate column once the columns exist.
pub const ADD_MENU_VISIBILITY_SQL: &'static str = "ALTER TABLE navigation_menus ADD COLUMN is_hidden INTEGER NOT NULL DEFAULT 0; ALTER TABLE navigation_menus ADD COLUMN report_period TEXT NOT NULL DEFAULT 'week';";

/// The text by which SQLite reports a column that a migration adds twice.
pub const DUPLICATE_COLUMN_TEXT: &'static str = "duplicate column name";

/// Whether a failure of a column-adding migration only says that the column
/// exists already, which is expected on every start after the first: the
/// message contains "duplicate column name". Every other failure is reported.
pub fn is_duplicate_column_error(message: &str) -> (r: bool)
    ensures
        r == contains_text(message@, DUPLICATE_COLUMN_TEXT@),
{
    contains(message, DUPLICATE_COLUMN_TEXT)
}

} // verus!
