//! Adding and removing navigation menus. Home and Settings are fixed: they
//! cannot be removed, and a menu that still holds reports stays.

use vstd::prelude::*;
use crate::models::{NavigationMenu, MenuView, SqlStatement, SqlValue, SqlValueView, StatementView, statements_view, stmt};
use crate::text::same_text;
use crate::preferences::{flag_param, int_param, text_param};

verus! {

pub const MAX_MENU_ORDER_SQL: &'static str = "SELECT COALESCE(MAX(sort_order), 0) FROM navigation_menus WHERE id <> 'settings'";

pub const MOVE_SETTINGS_DOWN_SQL: &'static str = "UPDATE navigation_menus SET sort_order = sort_order + 1 WHERE id = 'settings'";

pub const INSERT_MENU_SQL: &'static str = "INSERT INTO navigation_menus (id, label, icon_svg, sort_order, is_system, is_hidden, report_period) VALUES (?1, ?2, ?3, ?4, 0, ?5, ?6)";

pub const COUNT_MENU_REPORTS_SQL: &'static str = "SELECT COUNT(*) FROM records WHERE menu_id = ?1";

pub const DELETE_MENU_SQL: &'static str = "DELETE FROM navigation_menus WHERE id = ?1 AND is_system = 0";

/// The message given when Home or Settings is to be deleted.
pub open spec fn fixed_menu_message() -> Seq<char> {
    "首页和设置不能删除。"@
}

/// The message given when a menu that still holds reports is to be deleted.
pub open spec fn menu_in_use_message() -> Seq<char> {
    "该菜单中仍有报告，无法删除。"@
}

/// The statement that reads the largest order of any menu but Settings (0
/// when there is none).
pub fn max_menu_order_statement() -> (s: SqlStatement)
    ensures
        s@ == stmt(MAX_MENU_ORDER_SQL@, Seq::empty()),
{
    let params: Vec<SqlValue> = Vec::new();
    let s = SqlStatement { sql: String::from_str(MAX_MENU_ORDER_SQL), params };
    assert(s@.params =~= Seq::<SqlValueView>::empty());
    s
}

/// What adding `m` writes when the largest order of a menu other than Settings
/// is `max_order`: Settings moves one down, and the new menu, never a system
/// menu, takes the order just after `max_order`.
pub open spec fn create_menu_plan(m: MenuView, max_order: i64) -> Seq<StatementView> {
    seq![
        stmt(MOVE_SETTINGS_DOWN_SQL@, Seq::empty()),
        stmt(
            INSERT_MENU_SQL@,
            seq![
                SqlValueView::Text(m.id),
                SqlValueView::Text(m.label),
                SqlValueView::Text(m.icon_svg),
                SqlValueView::Integer((max_order + 1) as i64),
                SqlValueView::Boolean(m.is_hidden),
                SqlValueView::Text(m.report_period),
            ],
        ),
    ]
}

/// The menu that the insert `s` stores, read back: its placeholders in the
/// order of the columns that [`INSERT_MENU_SQL`] names (id, label, icon,
/// order, hidden flag, report period), and never a system menu.
pub open spec fn inserted_menu(s: StatementView) -> MenuView {
    MenuView {
        id: text_param(s, 0),
        label: text_param(s, 1),
        icon_svg: text_param(s, 2),
        sort_order: int_param(s, 3) as i64,
        is_system: false,
        is_hidden: flag_param(s, 4),
        report_period: text_param(s, 5),
    }
}

/// Adding a menu stores that menu: Settings is moved down first, then one
/// row is inserted, and that row reads back as the given menu (its id,
/// label, icon, hidden flag and report period) at the order right after
/// `max_order`, and not as a system menu.
pub proof fn lemma_created_menu_is_the_given_menu(m: MenuView, max_order: i64)
    requires
        max_order < i64::MAX,
    ensures
        create_menu_plan(m, max_order).len() == 2,
        create_menu_plan(m, max_order)[0] == stmt(MOVE_SETTINGS_DOWN_SQL@, Seq::empty()),
        create_menu_plan(m, max_order)[1].sql == INSERT_MENU_SQL@,
        create_menu_plan(m, max_order)[1].params.len() == 6,
        inserted_menu(create_menu_plan(m, max_order)[1]) == (MenuView {
            sort_order: (max_order + 1) as i64,
            is_system: false,
            ..m
        }),
        inserted_menu(create_menu_plan(m, max_order)[1]).sort_order == max_order + 1,
{
}

/// The statements that add `menu`, as [`create_menu_plan`] says.
pub fn create_menu_statements(menu: &NavigationMenu, max_order: i64) -> (r: Vec<SqlStatement>)
    requires
        max_order < i64::MAX,
    ensures
        statements_view(r@) == create_menu_plan(menu@, max_order),
{
    let order = max_order + 1;
    let mut stmts: Vec<SqlStatement> = Vec::new();
    let move_settings = SqlStatement { sql: String::from_str(MOVE_SETTINGS_DOWN_SQL), params: Vec::new() };
    assert(move_settings@.params =~= Seq::<SqlValueView>::empty());
    stmts.push(move_settings);
    let mut params: Vec<SqlValue> = Vec::new();
    params.push(SqlValue::Text(menu.id.clone()));
    params.push(SqlValue::Text(menu.label.clone()));
    params.push(SqlValue::Text(menu.icon_svg.clone()));
    params.push(SqlValue::Integer(order));
    params.push(SqlValue::Boolean(menu.is_hidden));
    params.push(SqlValue::Text(menu.report_period.clone()));
    let insert = SqlStatement { sql: String::from_str(INSERT_MENU_SQL), params };
    assert(insert@.params =~= create_menu_plan(menu@, max_order)[1].params);
    stmts.push(insert);
    assert(statements_view(stmts@) =~= create_menu_plan(menu@, max_order));
    stmts
}

/// Whether `id` names one of the fixed menus, Home or Settings.
pub open spec fn is_fixed_menu(id: Seq<char>) -> bool {
    id == "home"@ || id == "settings"@
}

/// The first step of deleting the menu `id`: the fixed menus are refused,
/// any other menu goes on to counting the reports that it holds.
pub fn delete_menu_check(id: &str) -> (r: Result<SqlStatement, String>)
    ensures
        is_fixed_menu(id@) ==> (r matches Err(msg) && msg@ == fixed_menu_message()),
        !is_fixed_menu(id@) ==> (r matches Ok(s) && s@ == stmt(
            COUNT_MENU_REPORTS_SQL@,
            seq![SqlValueView::Text(id@)],
        )),
{
    if same_text(id, "home") || same_text(id, "settings") {
        return Err(String::from_str("首页和设置不能删除。"));
    }
    let mut params: Vec<SqlValue> = Vec::new();
    params.push(SqlValue::Text(String::from_str(id)));
    let s = SqlStatement { sql: String::from_str(COUNT_MENU_REPORTS_SQL), params };
    assert(s@.params =~= seq![SqlValueView::Text(id@)]);
    Ok(s)
}

/// The second step of deleting the menu `id`, once the number of reports it
/// holds is known: a menu with reports stays; otherwise it is deleted unless
/// it is a system menu.
pub fn delete_menu_after_count(id: &str, reports: i64) -> (r: Result<SqlStatement, String>)
    ensures
        reports > 0 ==> (r matches Err(msg) && msg@ == menu_in_use_message()),
        reports <= 0 ==> (r matches Ok(s) && s@ == stmt(DELETE_MENU_SQL@, seq![SqlValueView::Text(id@)])),
{
    if reports > 0 {
        return Err(String::from_str("该菜单中仍有报告，无法删除。"));
    }
    let mut params: Vec<SqlValue> = Vec::new();
    params.push(SqlValue::Text(String::from_str(id)));
    let s = SqlStatement { sql: String::from_str(DELETE_MENU_SQL), params };
    assert(s@.params =~= seq![SqlValueView::Text(id@)]);
    Ok(s)
}

} // verus!
