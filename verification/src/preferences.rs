//! Application settings: their keys and defaults, how stored settings are read
//! back as preferences, and which statements save preferences and the order
//! of the navigation menus.

use vstd::prelude::*;
use crate::actions::{lemma_normalizing_twice, normalize_menu_action_order, normalized_actions, DEFAULT_ACTION_ORDER_JSON};
use crate::json::{json_of_string_list, string_list_or_empty, string_list_to_json, json_error_text};
use crate::models::{AppPreferences, MenuView, NavigationMenu, PreferencesView, SqlStatement, SqlValue, SqlValueView, StatementView, menus_view, statements_view, stmt};
use crate::text::same_text;
use crate::text::{decimal, decimal_text, lemma_parse_decimal, parse_u32, parse_u32_spec};

verus! {

/// Number of settings that make up the preferences.
pub const SETTING_COUNT: usize = 10;


/// The key of the `i`-th setting.
pub open spec fn setting_key(i: int) -> Seq<char> {
    if i == 0 {
        "sidebar_collapsed"@
    } else if i == 1 {
        "default_page_id"@
    } else if i == 2 {
        "week_start"@
    } else if i == 3 {
        "export_directory"@
    } else if i == 4 {
        "minimize_to_tray"@
    } else if i == 5 {
        "menu_action_order"@
    } else if i == 6 {
        "default_report_load_count"@
    } else if i == 7 {
        "refresh_report_load_count"@
    } else if i == 8 {
        "editor_font_scale"@
    } else {
        "editor_mode"@
    }
}

/// The value that the `i`-th setting has when nothing is stored for it.
pub open spec fn setting_fallback(i: int) -> Seq<char> {
    if i == 0 {
        "false"@
    } else if i == 1 {
        "home"@
    } else if i == 2 {
        "monday"@
    } else if i == 3 {
        ""@
    } else if i == 4 {
        "true"@
    } else if i == 5 {
        DEFAULT_ACTION_ORDER_JSON@
    } else if i == 6 {
        "15"@
    } else if i == 7 {
        "15"@
    } else if i == 8 {
        "1"@
    } else {
        "wysiwyg"@
    }
}

/// The key of the `i`-th setting.
pub fn setting_key_at(i: usize) -> (r: &'static str)
    requires
        i < SETTING_COUNT,
    ensures
        r@ == setting_key(i as int),
{
    if i == 0 {
        "sidebar_collapsed"
    } else if i == 1 {
        "default_page_id"
    } else if i == 2 {
        "week_start"
    } else if i == 3 {
        "export_directory"
    } else if i == 4 {
        "minimize_to_tray"
    } else if i == 5 {
        "menu_action_order"
    } else if i == 6 {
        "default_report_load_count"
    } else if i == 7 {
        "refresh_report_load_count"
    } else if i == 8 {
        "editor_font_scale"
    } else {
        "editor_mode"
    }
}

/// The value that the `i`-th setting has when nothing is stored for it.
pub fn setting_fallback_at(i: usize) -> (r: &'static str)
    requires
        i < SETTING_COUNT,
    ensures
        r@ == setting_fallback(i as int),
{
    if i == 0 {
        "false"
    } else if i == 1 {
        "home"
    } else if i == 2 {
        "monday"
    } else if i == 3 {
        ""
    } else if i == 4 {
        "true"
    } else if i == 5 {
        DEFAULT_ACTION_ORDER_JSON
    } else if i == 6 {
        "15"
    } else if i == 7 {
        "15"
    } else if i == 8 {
        "1"
    } else {
        "wysiwyg"
    }
}

pub const SETTING_LOOKUP_SQL: &'static str = "SELECT value FROM app_settings WHERE key = ?1";

/// The statement that reads the stored value of one setting.
pub fn setting_lookup_statement(key: &str) -> (s: SqlStatement)
    ensures
        s@ == stmt(SETTING_LOOKUP_SQL@, seq![SqlValueView::Text(key@)]),
{
    let mut params: Vec<SqlValue> = Vec::new();
    params.push(SqlValue::Text(String::from_str(key)));
    let s = SqlStatement { sql: String::from_str(SETTING_LOOKUP_SQL), params };
    assert(s@.params =~= seq![SqlValueView::Text(key@)]);
    s
}

/// An editor mode kept to the three that the editors know, `wysiwyg`, `ir`
/// and `sv`; any other text reads as `wysiwyg`.
pub open spec fn editor_mode_or_default(mode: Seq<char>) -> Seq<char> {
    if mode == "wysiwyg"@ || mode == "ir"@ || mode == "sv"@ {
        mode
    } else {
        "wysiwyg"@
    }
}

/// An editor mode kept to `wysiwyg`, `ir` or `sv`, as [`editor_mode_or_default`] says.
pub fn known_editor_mode(mode: &str) -> (r: String)
    ensures
        r@ == editor_mode_or_default(mode@),
{
    if same_text(mode, "wysiwyg") || same_text(mode, "ir") || same_text(mode, "sv") {
        String::from_str(mode)
    } else {
        String::from_str("wysiwyg")
    }
}

/// The value of the `i`-th setting: what is stored, or its fallback.
pub open spec fn stored_or_fallback(values: Seq<Option<Seq<char>>>, i: int) -> Seq<char> {
    match values[i] {
        Some(v) => v,
        None => setting_fallback(i),
    }
}

/// A stored load count: the number it spells, or 15 when it spells none.
pub open spec fn count_or_default(text: Seq<char>) -> u32 {
    match parse_u32_spec(text) {
        Some(n) => n,
        None => 15,
    }
}

/// The preferences that stored settings describe (in key order) together with
/// the stored navigation menus.
pub open spec fn preferences_from(values: Seq<Option<Seq<char>>>, menus: Seq<MenuView>) -> PreferencesView {
    PreferencesView {
        sidebar_collapsed: stored_or_fallback(values, 0) == "true"@,
        default_page_id: stored_or_fallback(values, 1),
        week_start: stored_or_fallback(values, 2),
        export_directory: stored_or_fallback(values, 3),
        minimize_to_tray: stored_or_fallback(values, 4) == "true"@,
        default_report_load_count: count_or_default(stored_or_fallback(values, 6)),
        refresh_report_load_count: count_or_default(stored_or_fallback(values, 7)),
        editor_font_scale: stored_or_fallback(values, 8),
        editor_mode: editor_mode_or_default(stored_or_fallback(values, 9)),
        menu_action_order: normalized_actions(string_list_or_empty(stored_or_fallback(values, 5))),
        menus,
    }
}

fn value_or_fallback(values: &Vec<Option<String>>, i: usize) -> (r: String)
    requires
        i < SETTING_COUNT,
        values.len() == SETTING_COUNT,
    ensures
        r@ == stored_or_fallback(values.deep_view(), i as int),
{
    match &values[i] {
        Some(v) => v.clone(),
        None => String::from_str(setting_fallback_at(i)),
    }
}

fn count_or_fifteen(text: &String) -> (r: u32)
    ensures
        r == count_or_default(text@),
{
    match parse_u32(text.as_str()) {
        Some(n) => n,
        None => 15,
    }
}

/// The preferences that the stored settings describe. `values[i]` is what is
/// stored for the `i`-th setting key, if anything.
pub fn preferences_from_settings(values: &Vec<Option<String>>, menus: Vec<NavigationMenu>) -> (r: AppPreferences)
    requires
        values.len() == SETTING_COUNT,
    ensures
        r@ == preferences_from(values.deep_view(), menus_view(menus@)),
{
    let sidebar = value_or_fallback(values, 0);
    let minimize = value_or_fallback(values, 4);
    let default_count = value_or_fallback(values, 6);
    let refresh_count = value_or_fallback(values, 7);
    let order = value_or_fallback(values, 5);
    let r = AppPreferences {
        sidebar_collapsed: same_text(sidebar.as_str(), "true"),
        default_page_id: value_or_fallback(values, 1),
        week_start: value_or_fallback(values, 2),
        export_directory: value_or_fallback(values, 3),
        minimize_to_tray: same_text(minimize.as_str(), "true"),
        default_report_load_count: count_or_fifteen(&default_count),
        refresh_report_load_count: count_or_fifteen(&refresh_count),
        editor_font_scale: value_or_fallback(values, 8),
        editor_mode: known_editor_mode(value_or_fallback(values, 9).as_str()),
        menu_action_order: normalize_menu_action_order(order.as_str()),
        menus,
    };
    assert(r@ =~= preferences_from(values.deep_view(), menus_view(menus@)));
    r
}

pub const UPSERT_SETTING_SQL: &'static str = "INSERT INTO app_settings (key, value) VALUES (?1, ?2) ON CONFLICT(key) DO UPDATE SET value = excluded.value";

/// The statement that stores `value` under `key`.
pub open spec fn upsert_setting(key: Seq<char>, value: Seq<char>) -> StatementView {
    stmt(UPSERT_SETTING_SQL@, seq![SqlValueView::Text(key), SqlValueView::Text(value)])
}

/// How a flag is stored.
pub open spec fn flag_text(b: bool) -> Seq<char> {
    if b {
        "true"@
    } else {
        "false"@
    }
}

/// A load count brought into 1 through 100.
pub open spec fn clamped_count(n: u32) -> u32 {
    if n < 1 {
        1
    } else if n > 100 {
        100
    } else {
        n
    }
}

/// The value that saving `p` stores for the `i`-th setting key;
/// `order_json` is the stored text of the action order.
pub open spec fn written_setting(p: PreferencesView, order_json: Seq<char>, i: int) -> Seq<char> {
    if i == 0 {
        flag_text(p.sidebar_collapsed)
    } else if i == 1 {
        p.default_page_id
    } else if i == 2 {
        p.week_start
    } else if i == 3 {
        p.export_directory
    } else if i == 4 {
        flag_text(p.minimize_to_tray)
    } else if i == 5 {
        order_json
    } else if i == 6 {
        decimal(clamped_count(p.default_report_load_count) as nat)
    } else if i == 7 {
        decimal(clamped_count(p.refresh_report_load_count) as nat)
    } else if i == 8 {
        p.editor_font_scale
    } else {
        editor_mode_or_default(p.editor_mode)
    }
}

/// The statement that stores the `i`-th setting as saving `p` writes it.
pub open spec fn setting_write(p: PreferencesView, order_json: Seq<char>, i: int) -> StatementView {
    upsert_setting(setting_key(i), written_setting(p, order_json, i))
}

/// The settings that saving `p` writes, in order: the flags and texts, the
/// load counts, the font scale, the editor mode, then the action order.
pub open spec fn settings_writes(p: PreferencesView, order_json: Seq<char>) -> Seq<StatementView> {
    seq![
        setting_write(p, order_json, 0),
        setting_write(p, order_json, 1),
        setting_write(p, order_json, 2),
        setting_write(p, order_json, 3),
        setting_write(p, order_json, 4),
        setting_write(p, order_json, 6),
        setting_write(p, order_json, 7),
        setting_write(p, order_json, 8),
        setting_write(p, order_json, 9),
        setting_write(p, order_json, 5),
    ]
}

pub const RELEASE_MENU_ORDERS_SQL: &'static str = "UPDATE navigation_menus SET sort_order = -sort_order - 1 WHERE id NOT IN ('home', 'settings')";

pub const UPDATE_HOME_MENU_SQL: &'static str = "UPDATE navigation_menus SET label = ?1, icon_svg = ?2, is_hidden = 0, sort_order = 0 WHERE id = 'home'";

pub const UPDATE_MENU_SQL: &'static str = "UPDATE navigation_menus SET label = ?1, icon_svg = ?2, is_hidden = ?3, report_period = ?4, sort_order = ?5 WHERE id = ?6";

pub const RESTORE_UNLISTED_MENUS_SQL: &'static str = "UPDATE navigation_menus SET sort_order = COALESCE((SELECT sort_order FROM navigation_menus WHERE id = 'settings'), 0) + ?1 - sort_order WHERE sort_order < 0 AND id NOT IN ('home', 'settings')";

pub const UPDATE_SETTINGS_MENU_SQL: &'static str = "UPDATE navigation_menus SET label = ?1, icon_svg = ?2, is_hidden = 0, sort_order = MAX(?3, (SELECT COALESCE(MAX(sort_order), 0) + 1 FROM navigation_menus WHERE id <> 'settings')) WHERE id = 'settings'";

pub const MOVE_SETTINGS_MENU_SQL: &'static str = "UPDATE navigation_menus SET sort_order = MAX(?1, (SELECT COALESCE(MAX(sort_order), 0) + 1 FROM navigation_menus WHERE id <> 'settings')) WHERE id = 'settings'";

/// Whether a menu may be moved: every menu but Home and Settings.
pub open spec fn is_movable(id: Seq<char>) -> bool {
    id != "home"@ && id != "settings"@
}

/// Number of movable menus in `menus`.
pub open spec fn movable_count(menus: Seq<MenuView>) -> nat
    decreases menus.len(),
{
    if menus.len() == 0 {
        0
    } else {
        movable_count(menus.drop_last()) + if is_movable(menus.last().id) {
            1nat
        } else {
            0nat
        }
    }
}

/// The order that saving gives the movable menu at place `i`: one more than
/// the number of movable menus before it.
pub open spec fn assigned_order(menus: Seq<MenuView>, i: int) -> int {
    movable_count(menus.take(i)) + 1int
}

/// The statements that save each menu, in list order: Home keeps order 0 and
/// is always shown; Settings is left for last; every other menu takes the
/// next order from 1 on.
pub open spec fn menu_updates(menus: Seq<MenuView>) -> Seq<StatementView>
    decreases menus.len(),
{
    if menus.len() == 0 {
        Seq::empty()
    } else {
        let before = menu_updates(menus.drop_last());
        let m = menus.last();
        if m.id == "home"@ {
            before.push(
                stmt(UPDATE_HOME_MENU_SQL@, seq![SqlValueView::Text(m.label), SqlValueView::Text(m.icon_svg)]),
            )
        } else if m.id == "settings"@ {
            before
        } else {
            before.push(
                stmt(
                    UPDATE_MENU_SQL@,
                    seq![
                        SqlValueView::Text(m.label),
                        SqlValueView::Text(m.icon_svg),
                        SqlValueView::Boolean(m.is_hidden),
                        SqlValueView::Text(m.report_period),
                        SqlValueView::Integer((movable_count(menus.drop_last()) + 1) as i64),
                        SqlValueView::Text(m.id),
                    ],
                ),
            )
        }
    }
}

/// The first menu in the list that is Settings, if any.
pub open spec fn first_settings_menu(menus: Seq<MenuView>) -> Option<MenuView>
    decreases menus.len(),
{
    if menus.len() == 0 {
        None
    } else if menus[0].id == "settings"@ {
        Some(menus[0])
    } else {
        first_settings_menu(menus.drop_first())
    }
}

/// The statement that places Settings at the next order after the movable
/// entries of the list, or one past the largest order of any other menu when
/// that is larger, taking its label and icon from the first Settings entry of
/// the list when the list holds one.
pub open spec fn settings_update(menus: Seq<MenuView>) -> StatementView {
    let next = SqlValueView::Integer((movable_count(menus) + 1) as i64);
    match first_settings_menu(menus) {
        Some(m) => stmt(
            UPDATE_SETTINGS_MENU_SQL@,
            seq![SqlValueView::Text(m.label), SqlValueView::Text(m.icon_svg), next],
        ),
        None => stmt(MOVE_SETTINGS_MENU_SQL@, seq![next]),
    }
}

/// The statement that gives every movable menu that the list left out an
/// order past both Settings and the `listed` movable entries of the list,
/// keeping their earlier relative order.
pub open spec fn restore_unlisted(listed: nat) -> StatementView {
    stmt(RESTORE_UNLISTED_MENUS_SQL@, seq![SqlValueView::Integer((listed + 1) as i64)])
}

/// Everything that saving `p` writes, in order, in one transaction: the
/// settings; then the menus: every menu but Home and Settings is first moved
/// out of the way of the unique order index, and the listed menus take their
/// new orders 1, 2, ... by their place among the movable entries of the list.
/// Settings keeps its order meanwhile, so a list whose entries count past it
/// (an entry named twice, or one that names no stored menu) gives a listed
/// menu the order that Settings holds, the unique index refuses it and the
/// transaction is rolled back. Then the movable menus that the list left out
/// are placed after the listed ones and Settings, and Settings comes last.
pub open spec fn save_preferences_plan(p: PreferencesView, order_json: Seq<char>) -> Seq<StatementView> {
    settings_writes(p, order_json) + seq![stmt(RELEASE_MENU_ORDERS_SQL@, Seq::empty())] + menu_updates(
        p.menus,
    ) + seq![restore_unlisted(movable_count(p.menus)), settings_update(p.menus)]
}

fn no_params() -> (r: Vec<SqlValue>)
    ensures
        r@.map_values(|p: SqlValue| p@) == Seq::<SqlValueView>::empty(),
{
    let r: Vec<SqlValue> = Vec::new();
    assert(r@.map_values(|p: SqlValue| p@) =~= Seq::<SqlValueView>::empty());
    r
}

fn push_statement(stmts: &mut Vec<SqlStatement>, s: SqlStatement)
    ensures
        statements_view(final(stmts)@) == statements_view(old(stmts)@).push(s@),
{
    stmts.push(s);
    assert(statements_view(stmts@) =~= statements_view(old(stmts)@).push(s@));
}

fn upsert_setting_statement(key: &str, value: String) -> (s: SqlStatement)
    ensures
        s@ == upsert_setting(key@, value@),
{
    let mut params: Vec<SqlValue> = Vec::new();
    params.push(SqlValue::Text(String::from_str(key)));
    params.push(SqlValue::Text(value));
    let s = SqlStatement { sql: String::from_str(UPSERT_SETTING_SQL), params };
    assert(s@.params =~= upsert_setting(key@, value@).params);
    s
}

fn flag_string(b: bool) -> (r: String)
    ensures
        r@ == flag_text(b),
{
    if b {
        String::from_str("true")
    } else {
        String::from_str("false")
    }
}

fn clamped_count_text(n: u32) -> (r: String)
    ensures
        r@ == decimal(clamped_count(n) as nat),
{
    let c: u32 = if n < 1 {
        1
    } else if n > 100 {
        100
    } else {
        n
    };
    decimal_text(c as u64)
}

proof fn lemma_movable_count_bound(menus: Seq<MenuView>)
    ensures
        movable_count(menus) <= menus.len(),
    decreases menus.len(),
{
    if menus.len() > 0 {
        lemma_movable_count_bound(menus.drop_last());
    }
}

fn append_menu_updates(menus: &Vec<NavigationMenu>, stmts: &mut Vec<SqlStatement>) -> (next: i64)
    requires
        menus.len() < 0x7fff_ffff_ffff_ffff,
    ensures
        statements_view(final(stmts)@) == statements_view(old(stmts)@) + menu_updates(menus_view(menus@)),
        next == movable_count(menus_view(menus@)) + 1,
{
    let ghost all = menus_view(menus@);
    let mut order: i64 = 1;
    let mut i: usize = 0;
    assert(all.take(0) =~= Seq::<MenuView>::empty());
    assert(statements_view(stmts@) =~= statements_view(old(stmts)@) + Seq::<StatementView>::empty());
    while i < menus.len()
        invariant
            i <= menus.len(),
            menus.len() < 0x7fff_ffff_ffff_ffff,
            all == menus_view(menus@),
            order == movable_count(all.take(i as int)) + 1,
            statements_view(stmts@) == statements_view(old(stmts)@) + menu_updates(all.take(i as int)),
        decreases menus.len() - i,
    {
        let ghost prefix = all.take(i as int);
        assert(all.take(i + 1).drop_last() =~= prefix);
        assert(all.take(i + 1).last() == menus[i as int]@);
        proof {
            lemma_movable_count_bound(prefix);
        }
        let menu = &menus[i];
        if same_text(menu.id.as_str(), "home") {
            let mut params: Vec<SqlValue> = Vec::new();
            params.push(SqlValue::Text(menu.label.clone()));
            params.push(SqlValue::Text(menu.icon_svg.clone()));
            let s = SqlStatement { sql: String::from_str(UPDATE_HOME_MENU_SQL), params };
            assert(s@.params =~= seq![SqlValueView::Text(menu@.label), SqlValueView::Text(menu@.icon_svg)]);
            push_statement(stmts, s);
        } else if same_text(menu.id.as_str(), "settings") {
        } else {
            let mut params: Vec<SqlValue> = Vec::new();
            params.push(SqlValue::Text(menu.label.clone()));
            params.push(SqlValue::Text(menu.icon_svg.clone()));
            params.push(SqlValue::Boolean(menu.is_hidden));
            params.push(SqlValue::Text(menu.report_period.clone()));
            params.push(SqlValue::Integer(order));
            params.push(SqlValue::Text(menu.id.clone()));
            let s = SqlStatement { sql: String::from_str(UPDATE_MENU_SQL), params };
            assert(s@.params =~= seq![
                SqlValueView::Text(menu@.label),
                SqlValueView::Text(menu@.icon_svg),
                SqlValueView::Boolean(menu@.is_hidden),
                SqlValueView::Text(menu@.report_period),
                SqlValueView::Integer(order),
                SqlValueView::Text(menu@.id),
            ]);
            push_statement(stmts, s);
            order = order + 1;
        }
        assert(statements_view(stmts@) =~= statements_view(old(stmts)@) + menu_updates(all.take(i + 1)));
        i = i + 1;
    }
    assert(all.take(menus.len() as int) =~= all);
    order
}

fn find_settings_menu(menus: &Vec<NavigationMenu>) -> (r: Option<usize>)
    ensures
        match r {
            Some(i) => i < menus.len() && first_settings_menu(menus_view(menus@)) == Some(menus[i as int]@),
            None => first_settings_menu(menus_view(menus@)) is None,
        },
{
    let ghost all = menus_view(menus@);
    let mut i: usize = 0;
    assert(all.skip(0) =~= all);
    while i < menus.len()
        invariant
            i <= menus.len(),
            all == menus_view(menus@),
            first_settings_menu(all) == first_settings_menu(all.skip(i as int)),
        decreases menus.len() - i,
    {
        assert(all.skip(i as int)[0] == menus[i as int]@);
        assert(all.skip(i as int).drop_first() =~= all.skip(i + 1));
        if same_text(menus[i].id.as_str(), "settings") {
            return Some(i);
        }
        i = i + 1;
    }
    assert(all.skip(i as int) =~= Seq::<MenuView>::empty());
    None
}

/// Everything that saving `prefs` writes, as [`save_preferences_plan`] says,
/// with the action order already stored as the text `action_order_json`.
/// Run on menus ordered as the store keeps them, the statements leave no
/// menu with a negative order, Home first and Settings last, as
/// [`saved_orders_well_placed`] says. The unique order index refuses them
/// exactly when [`list_reaches_settings`] holds
/// ([`lemma_save_refused_exactly_when_list_reaches_settings`]), and each
/// listed menu's fields are written as [`lemma_saved_menu_fields`] says.
pub fn save_preferences_statements_with(prefs: &AppPreferences, action_order_json: String) -> (r: Vec<SqlStatement>)
    requires
        prefs.menus.len() < 0x7fff_ffff_ffff_ffff,
    ensures
        statements_view(r@) == save_preferences_plan(prefs@, action_order_json@),
        forall|before: Map<Seq<char>, int>|
            menu_orders_as_kept(before) ==> #[trigger] saved_orders_well_placed(
                prefs@.menus,
                before,
                orders_after(before, statements_view(r@)),
            ),
{
    let mut stmts: Vec<SqlStatement> = Vec::new();
    push_statement(&mut stmts, upsert_setting_statement("sidebar_collapsed", flag_string(prefs.sidebar_collapsed)));
    push_statement(&mut stmts, upsert_setting_statement("default_page_id", prefs.default_page_id.clone()));
    push_statement(&mut stmts, upsert_setting_statement("week_start", prefs.week_start.clone()));
    push_statement(&mut stmts, upsert_setting_statement("export_directory", prefs.export_directory.clone()));
    push_statement(&mut stmts, upsert_setting_statement("minimize_to_tray", flag_string(prefs.minimize_to_tray)));
    push_statement(&mut stmts, upsert_setting_statement("default_report_load_count", clamped_count_text(prefs.default_report_load_count)));
    push_statement(&mut stmts, upsert_setting_statement("refresh_report_load_count", clamped_count_text(prefs.refresh_report_load_count)));
    push_statement(&mut stmts, upsert_setting_statement("editor_font_scale", prefs.editor_font_scale.clone()));
    push_statement(&mut stmts, upsert_setting_statement("editor_mode", known_editor_mode(prefs.editor_mode.as_str())));
    push_statement(&mut stmts, upsert_setting_statement("menu_action_order", action_order_json));
    assert(statements_view(stmts@) =~= settings_writes(prefs@, action_order_json@));
    push_statement(&mut stmts, SqlStatement { sql: String::from_str(RELEASE_MENU_ORDERS_SQL), params: no_params() });
    let order = append_menu_updates(&prefs.menus, &mut stmts);
    let mut restore_params: Vec<SqlValue> = Vec::new();
    restore_params.push(SqlValue::Integer(order));
    let restore = SqlStatement { sql: String::from_str(RESTORE_UNLISTED_MENUS_SQL), params: restore_params };
    assert(restore@.params =~= restore_unlisted(movable_count(prefs@.menus)).params);
    push_statement(&mut stmts, restore);
    let s = match find_settings_menu(&prefs.menus) {
        Some(i) => {
            let menu = &prefs.menus[i];
            let mut params: Vec<SqlValue> = Vec::new();
            params.push(SqlValue::Text(menu.label.clone()));
            params.push(SqlValue::Text(menu.icon_svg.clone()));
            params.push(SqlValue::Integer(order));
            let s = SqlStatement { sql: String::from_str(UPDATE_SETTINGS_MENU_SQL), params };
            assert(s@.params =~= settings_update(prefs@.menus).params);
            s
        },
        None => {
            let mut params: Vec<SqlValue> = Vec::new();
            params.push(SqlValue::Integer(order));
            let s = SqlStatement { sql: String::from_str(MOVE_SETTINGS_MENU_SQL), params };
            assert(s@.params =~= settings_update(prefs@.menus).params);
            s
        },
    };
    push_statement(&mut stmts, s);
    assert(statements_view(stmts@) =~= save_preferences_plan(prefs@, action_order_json@));
    assert forall|before: Map<Seq<char>, int>| menu_orders_as_kept(before) implies #[trigger] saved_orders_well_placed(
        prefs@.menus,
        before,
        orders_after(before, statements_view(stmts@)),
    ) by {
        lemma_saved_menu_orders(prefs@, action_order_json@, before);
    }
    stmts
}

/// The stored text of the action order that saving `p` writes: the order is
/// encoded, read back as a stored order is read, and encoded again.
pub open spec fn saved_action_order_json(p: PreferencesView) -> Seq<char> {
    json_of_string_list(normalized_actions(string_list_or_empty(json_of_string_list(p.menu_action_order))))
}

/// Everything that saving `prefs` writes. Encoding the action order as JSON
/// does not fail, so the statements always come back.
pub fn save_preferences_statements(prefs: &AppPreferences) -> (r: Result<Vec<SqlStatement>, String>)
    requires
        prefs.menus.len() < 0x7fff_ffff_ffff_ffff,
    ensures
        r is Ok,
        r matches Ok(stmts) ==> statements_view(stmts@) == save_preferences_plan(
            prefs@,
            saved_action_order_json(prefs@),
        ),
        r is Ok ==> string_list_or_empty(saved_action_order_json(prefs@)) == normalized_actions(
            prefs@.menu_action_order,
        ),
        r matches Ok(stmts) ==> forall|before: Map<Seq<char>, int>|
            menu_orders_as_kept(before) ==> #[trigger] saved_orders_well_placed(
                prefs@.menus,
                before,
                orders_after(before, statements_view(stmts@)),
            ),
{
    let first = match string_list_to_json(&prefs.menu_action_order) {
        Ok(text) => text,
        Err(error) => {
            return Err(json_error_text(&error));
        },
    };
    let normalized = normalize_menu_action_order(first.as_str());
    let second = match string_list_to_json(&normalized) {
        Ok(text) => text,
        Err(error) => {
            return Err(json_error_text(&error));
        },
    };
    Ok(save_preferences_statements_with(prefs, second))
}

/// What saving writes reads back as what was saved: with the settings stored
/// as saving writes them, the preferences read back have the same flags and
/// texts, load counts brought into 1 through 100, the same font scale, the
/// editor mode kept to the three known modes, and the action order that the stored text reads as; when that
/// text reads as the made-whole order (as [`save_preferences_statements`]
/// ensures), the action order read back is the saved order made whole.
pub proof fn lemma_saved_settings_read_back(
    p: PreferencesView,
    order_json: Seq<char>,
    values: Seq<Option<Seq<char>>>,
    menus: Seq<MenuView>,
)
    requires
        values.len() == SETTING_COUNT,
        forall|i: int| 0 <= i < SETTING_COUNT ==> #[trigger] values[i] == Some(
            written_setting(p, order_json, i),
        ),
    ensures
        preferences_from(values, menus).sidebar_collapsed == p.sidebar_collapsed,
        preferences_from(values, menus).default_page_id == p.default_page_id,
        preferences_from(values, menus).week_start == p.week_start,
        preferences_from(values, menus).export_directory == p.export_directory,
        preferences_from(values, menus).minimize_to_tray == p.minimize_to_tray,
        preferences_from(values, menus).default_report_load_count == clamped_count(
            p.default_report_load_count,
        ),
        preferences_from(values, menus).refresh_report_load_count == clamped_count(
            p.refresh_report_load_count,
        ),
        preferences_from(values, menus).editor_font_scale == p.editor_font_scale,
        preferences_from(values, menus).editor_mode == editor_mode_or_default(p.editor_mode),
        preferences_from(values, menus).menu_action_order == normalized_actions(
            string_list_or_empty(order_json),
        ),
        string_list_or_empty(order_json) == normalized_actions(p.menu_action_order)
            ==> preferences_from(values, menus).menu_action_order == normalized_actions(
            p.menu_action_order,
        ),
{
    reveal_strlit("true");
    reveal_strlit("false");
    assert("true"@[0] != "false"@[0]);
    assert(values[0] == Some(written_setting(p, order_json, 0)));
    assert(values[1] == Some(written_setting(p, order_json, 1)));
    assert(values[2] == Some(written_setting(p, order_json, 2)));
    assert(values[3] == Some(written_setting(p, order_json, 3)));
    assert(values[4] == Some(written_setting(p, order_json, 4)));
    assert(values[5] == Some(written_setting(p, order_json, 5)));
    assert(values[6] == Some(written_setting(p, order_json, 6)));
    assert(values[7] == Some(written_setting(p, order_json, 7)));
    assert(values[8] == Some(written_setting(p, order_json, 8)));
    assert(values[9] == Some(written_setting(p, order_json, 9)));
    lemma_parse_decimal(clamped_count(p.default_report_load_count));
    lemma_parse_decimal(clamped_count(p.refresh_report_load_count));
    lemma_normalizing_twice(p.menu_action_order);
}

proof fn lemma_movable_count_step(menus: Seq<MenuView>, k: int)
    requires
        0 <= k < menus.len(),
    ensures
        movable_count(menus.take(k + 1)) == movable_count(menus.take(k)) + if is_movable(menus[k].id) {
            1nat
        } else {
            0nat
        },
{
    assert(menus.take(k + 1).drop_last() =~= menus.take(k));
}

proof fn lemma_movable_count_grows(menus: Seq<MenuView>, i: int, j: int)
    requires
        0 <= i < j <= menus.len(),
        is_movable(menus[i].id),
    ensures
        movable_count(menus.take(j)) >= movable_count(menus.take(i)) + 1,
    decreases j - i,
{
    if j == i + 1 {
        lemma_movable_count_step(menus, i);
    } else {
        lemma_movable_count_grows(menus, i, j - 1);
        lemma_movable_count_step(menus, j - 1);
    }
}

/// Saving the menus gives the movable menus the orders 1, 2, ... in list
/// order, one each: two movable menus never share an order, and every one of
/// them comes before Settings, whose order is one past the last.
pub proof fn lemma_menu_orders_are_distinct_and_before_settings(menus: Seq<MenuView>, i: int, j: int)
    requires
        0 <= i < j < menus.len(),
        is_movable(menus[i].id),
        is_movable(menus[j].id),
    ensures
        1 <= assigned_order(menus, i) < assigned_order(menus, j) <= movable_count(menus),
        assigned_order(menus, j) < movable_count(menus) + 1,
{
    lemma_movable_count_grows(menus, i, j);
    lemma_movable_count_grows(menus, j, menus.len() as int);
    assert(menus.take(menus.len() as int) =~= menus);
}

pub const LIST_MENUS_SQL: &'static str = "SELECT id, label, icon_svg, sort_order, is_system, is_hidden, report_period FROM navigation_menus ORDER BY sort_order";

/// The statement that reads every navigation menu in display order.
pub fn list_menus_statement() -> (s: SqlStatement)
    ensures
        s@ == stmt(LIST_MENUS_SQL@, Seq::empty()),
{
    SqlStatement { sql: String::from_str(LIST_MENUS_SQL), params: no_params() }
}

/// The columns of one row of the `navigation_menus` table.
#[derive(Debug, Clone)]
pub struct MenuRow {
    pub id: String,
    pub label: String,
    pub icon_svg: String,
    pub sort_order: i64,
    pub is_system: i64,
    pub is_hidden: i64,
    pub report_period: String,
}

impl NavigationMenu {
    /// The menu that a stored row describes; a flag is set when its stored
    /// number is not zero.
    pub fn from_row(row: MenuRow) -> (m: NavigationMenu)
        ensures
            m@ == (MenuView {
                id: row.id@,
                label: row.label@,
                icon_svg: row.icon_svg@,
                sort_order: row.sort_order,
                is_system: row.is_system != 0,
                is_hidden: row.is_hidden != 0,
                report_period: row.report_period@,
            }),
    {
        NavigationMenu {
            id: row.id,
            label: row.label,
            icon_svg: row.icon_svg,
            sort_order: row.sort_order,
            is_system: row.is_system != 0,
            is_hidden: row.is_hidden != 0,
            report_period: row.report_period,
        }
    }
}

/// The text placeholder value at place `i` of a statement.
pub open spec fn text_param(s: StatementView, i: int) -> Seq<char> {
    match s.params[i] {
        SqlValueView::Text(t) => t,
        _ => Seq::empty(),
    }
}

/// The integer placeholder value at place `i` of a statement.
pub open spec fn int_param(s: StatementView, i: int) -> int {
    match s.params[i] {
        SqlValueView::Integer(n) => n as int,
        _ => 0,
    }
}

/// Whether the store holds a menu other than Settings.
pub open spec fn has_other_menu(orders: Map<Seq<char>, int>) -> bool {
    exists|id: Seq<char>| orders.dom().contains(id) && id != "settings"@
}

/// Whether `v` is the largest order of a menu other than Settings.
pub open spec fn is_largest_other_order(orders: Map<Seq<char>, int>, v: int) -> bool {
    &&& exists|id: Seq<char>| orders.dom().contains(id) && id != "settings"@ && orders[id] == v
    &&& forall|id: Seq<char>| orders.dom().contains(id) && id != "settings"@ ==> orders[id] <= v
}

/// The order that Settings takes: one past the largest order of any other
/// menu, or 1 when there is none (`COALESCE(MAX(sort_order), 0) + 1`).
pub open spec fn settings_next_order(orders: Map<Seq<char>, int>) -> int {
    if has_other_menu(orders) {
        (choose|v: int| is_largest_other_order(orders, v)) + 1
    } else {
        1
    }
}

/// The order of Settings, or 0 when it is not stored
/// (`COALESCE((SELECT sort_order ... WHERE id = 'settings'), 0)`).
pub open spec fn settings_order_or_zero(orders: Map<Seq<char>, int>) -> int {
    if orders.dom().contains("settings"@) {
        orders["settings"@]
    } else {
        0
    }
}

/// The larger of two integers (SQLite's two-argument `MAX`).
pub open spec fn larger(a: int, b: int) -> int {
    if a >= b {
        a
    } else {
        b
    }
}

/// What one statement of the save plan does to the sort orders of the stored
/// menus (`orders` maps each stored menu id to its order). Moving menus out
/// of the way negates every order but Home's and Settings' (minus one); a
/// menu update sets the order of the menu it names, if stored; restoring
/// gives each negative order of a movable menu the order
/// `settings + n - order`; the Settings statements put Settings at the larger
/// of their placeholder and one past the largest other order. Setting writes
/// leave the menus alone.
pub open spec fn order_effect(orders: Map<Seq<char>, int>, s: StatementView) -> Map<Seq<char>, int> {
    if s.sql == RELEASE_MENU_ORDERS_SQL@ {
        Map::new(
            |id: Seq<char>| orders.dom().contains(id),
            |id: Seq<char>| if id == "home"@ || id == "settings"@ {
                orders[id]
            } else {
                -orders[id] - 1
            },
        )
    } else if s.sql == UPDATE_HOME_MENU_SQL@ {
        if orders.dom().contains("home"@) {
            orders.insert("home"@, 0)
        } else {
            orders
        }
    } else if s.sql == UPDATE_MENU_SQL@ {
        if orders.dom().contains(text_param(s, 5)) {
            orders.insert(text_param(s, 5), int_param(s, 4))
        } else {
            orders
        }
    } else if s.sql == RESTORE_UNLISTED_MENUS_SQL@ {
        Map::new(
            |id: Seq<char>| orders.dom().contains(id),
            |id: Seq<char>| if orders[id] < 0 && is_movable(id) {
                settings_order_or_zero(orders) + int_param(s, 0) - orders[id]
            } else {
                orders[id]
            },
        )
    } else if s.sql == UPDATE_SETTINGS_MENU_SQL@ {
        if orders.dom().contains("settings"@) {
            orders.insert("settings"@, larger(int_param(s, 2), settings_next_order(orders)))
        } else {
            orders
        }
    } else if s.sql == MOVE_SETTINGS_MENU_SQL@ {
        if orders.dom().contains("settings"@) {
            orders.insert("settings"@, larger(int_param(s, 0), settings_next_order(orders)))
        } else {
            orders
        }
    } else {
        orders
    }
}

/// The sort orders after running `stmts` in order.
pub open spec fn orders_after(orders: Map<Seq<char>, int>, stmts: Seq<StatementView>) -> Map<Seq<char>, int>
    decreases stmts.len(),
{
    if stmts.len() == 0 {
        orders
    } else {
        order_effect(orders_after(orders, stmts.drop_last()), stmts.last())
    }
}

/// Menu orders as the store keeps them: finitely many, none negative, and
/// Home at 0.
pub open spec fn menu_orders_as_kept(orders: Map<Seq<char>, int>) -> bool {
    &&& orders.dom().finite()
    &&& forall|id: Seq<char>| orders.dom().contains(id) ==> orders[id] >= 0
    &&& orders.dom().contains("home"@) ==> orders["home"@] == 0
}

/// Whether the list names the menu `id`.
pub open spec fn lists(menus: Seq<MenuView>, id: Seq<char>) -> bool {
    exists|i: int| 0 <= i < menus.len() && menus[i].id == id
}

/// Whether place `i` is the last place at which the list names its menu.
pub open spec fn last_listing(menus: Seq<MenuView>, i: int) -> bool {
    forall|j: int| i < j < menus.len() ==> menus[j].id != menus[i].id
}

/// Where saving the list `menus` leaves the stored menus (`before` and
/// `after` map each stored menu id to its order): the same menus; none with
/// a negative order; Home at 0 and every other menu after it; each listed
/// movable menu at the order assigned to its last place in the list; each
/// movable menu that the list left out after all listed ones and the earlier
/// order of Settings, in its earlier relative order; Settings after every
/// other menu; and, when the list names every stored movable menu, Settings
/// right after the movable entries of the list.
pub open spec fn saved_orders_well_placed(
    menus: Seq<MenuView>,
    before: Map<Seq<char>, int>,
    after: Map<Seq<char>, int>,
) -> bool {
    &&& after.dom() == before.dom()
    &&& forall|id: Seq<char>| after.dom().contains(id) ==> after[id] >= 0
    &&& after.dom().contains("home"@) ==> after["home"@] == 0
    &&& forall|id: Seq<char>| after.dom().contains(id) && id != "home"@ ==> after[id] >= 1
    &&& forall|i: int|
        0 <= i < menus.len() && is_movable(menus[i].id) && after.dom().contains(menus[i].id)
            && last_listing(menus, i) ==> after[menus[i].id] == assigned_order(menus, i)
    &&& forall|id: Seq<char>|
        after.dom().contains(id) && is_movable(id) && lists(menus, id) ==> 1 <= after[id]
            <= movable_count(menus)
    &&& forall|id: Seq<char>|
        after.dom().contains(id) && is_movable(id) && !lists(menus, id) ==> after[id]
            == settings_order_or_zero(before) + movable_count(menus) + 2 + before[id]
    &&& after.dom().contains("settings"@) ==> forall|id: Seq<char>|
        after.dom().contains(id) && id != "settings"@ ==> after[id] < after["settings"@]
    &&& after.dom().contains("settings"@) && (forall|id: Seq<char>|
        after.dom().contains(id) && is_movable(id) ==> lists(menus, id)) ==> after["settings"@]
        == movable_count(menus) + 1
}

proof fn lemma_plan_texts_differ()
    ensures
        UPSERT_SETTING_SQL@ != RELEASE_MENU_ORDERS_SQL@,
        UPSERT_SETTING_SQL@ != UPDATE_HOME_MENU_SQL@,
        UPSERT_SETTING_SQL@ != UPDATE_MENU_SQL@,
        UPSERT_SETTING_SQL@ != RESTORE_UNLISTED_MENUS_SQL@,
        UPSERT_SETTING_SQL@ != UPDATE_SETTINGS_MENU_SQL@,
        UPSERT_SETTING_SQL@ != MOVE_SETTINGS_MENU_SQL@,
        UPDATE_HOME_MENU_SQL@ != RELEASE_MENU_ORDERS_SQL@,
        UPDATE_MENU_SQL@ != RELEASE_MENU_ORDERS_SQL@,
        UPDATE_MENU_SQL@ != UPDATE_HOME_MENU_SQL@,
        RESTORE_UNLISTED_MENUS_SQL@ != RELEASE_MENU_ORDERS_SQL@,
        RESTORE_UNLISTED_MENUS_SQL@ != UPDATE_HOME_MENU_SQL@,
        RESTORE_UNLISTED_MENUS_SQL@ != UPDATE_MENU_SQL@,
        UPDATE_SETTINGS_MENU_SQL@ != RELEASE_MENU_ORDERS_SQL@,
        UPDATE_SETTINGS_MENU_SQL@ != UPDATE_HOME_MENU_SQL@,
        UPDATE_SETTINGS_MENU_SQL@ != UPDATE_MENU_SQL@,
        UPDATE_SETTINGS_MENU_SQL@ != RESTORE_UNLISTED_MENUS_SQL@,
        MOVE_SETTINGS_MENU_SQL@ != RELEASE_MENU_ORDERS_SQL@,
        MOVE_SETTINGS_MENU_SQL@ != UPDATE_HOME_MENU_SQL@,
        MOVE_SETTINGS_MENU_SQL@ != UPDATE_MENU_SQL@,
        MOVE_SETTINGS_MENU_SQL@ != RESTORE_UNLISTED_MENUS_SQL@,
        MOVE_SETTINGS_MENU_SQL@ != UPDATE_SETTINGS_MENU_SQL@,
        "home"@ != "settings"@,
{
    reveal_strlit("home");
    reveal_strlit("settings");
    assert("home"@.len() != "settings"@.len());
    reveal_strlit("INSERT INTO app_settings (key, value) VALUES (?1, ?2) ON CONFLICT(key) DO UPDATE SET value = excluded.value");
    reveal_strlit("UPDATE navigation_menus SET sort_order = -sort_order - 1 WHERE id NOT IN ('home', 'settings')");
    reveal_strlit("UPDATE navigation_menus SET label = ?1, icon_svg = ?2, is_hidden = 0, sort_order = 0 WHERE id = 'home'");
    reveal_strlit("UPDATE navigation_menus SET label = ?1, icon_svg = ?2, is_hidden = ?3, report_period = ?4, sort_order = ?5 WHERE id = ?6");
    reveal_strlit("UPDATE navigation_menus SET sort_order = COALESCE((SELECT sort_order FROM navigation_menus WHERE id = 'settings'), 0) + ?1 - sort_order WHERE sort_order < 0 AND id NOT IN ('home', 'settings')");
    reveal_strlit("UPDATE navigation_menus SET label = ?1, icon_svg = ?2, is_hidden = 0, sort_order = MAX(?3, (SELECT COALESCE(MAX(sort_order), 0) + 1 FROM navigation_menus WHERE id <> 'settings')) WHERE id = 'settings'");
    reveal_strlit("UPDATE navigation_menus SET sort_order = MAX(?1, (SELECT COALESCE(MAX(sort_order), 0) + 1 FROM navigation_menus WHERE id <> 'settings')) WHERE id = 'settings'");
    assert(UPSERT_SETTING_SQL@.len() == 107);
    assert(RELEASE_MENU_ORDERS_SQL@.len() == 93);
    assert(UPDATE_HOME_MENU_SQL@.len() == 102);
    assert(UPDATE_MENU_SQL@.len() == 120);
    assert(RESTORE_UNLISTED_MENUS_SQL@.len() == 191);
    assert(UPDATE_SETTINGS_MENU_SQL@.len() == 200);
    assert(MOVE_SETTINGS_MENU_SQL@.len() == 158);
}

proof fn lemma_orders_after_concat(orders: Map<Seq<char>, int>, a: Seq<StatementView>, b: Seq<StatementView>)
    ensures
        orders_after(orders, a + b) == orders_after(orders_after(orders, a), b),
    decreases b.len(),
{
    if b.len() == 0 {
        assert(a + b =~= a);
    } else {
        assert((a + b).drop_last() =~= a + b.drop_last());
        assert((a + b).last() == b.last());
        lemma_orders_after_concat(orders, a, b.drop_last());
    }
}

proof fn lemma_setting_writes_keep_orders(orders: Map<Seq<char>, int>, stmts: Seq<StatementView>)
    requires
        forall|i: int| 0 <= i < stmts.len() ==> #[trigger] stmts[i].sql == UPSERT_SETTING_SQL@,
    ensures
        orders_after(orders, stmts) == orders,
    decreases stmts.len(),
{
    if stmts.len() > 0 {
        lemma_plan_texts_differ();
        let rest = stmts.drop_last();
        assert forall|i: int| 0 <= i < rest.len() implies #[trigger] rest[i].sql == UPSERT_SETTING_SQL@ by {
            assert(rest[i] == stmts[i]);
        }
        lemma_setting_writes_keep_orders(orders, rest);
        assert(stmts.last().sql == stmts[stmts.len() - 1].sql);
    }
}

proof fn lemma_largest_in(orders: Map<Seq<char>, int>, ids: Set<Seq<char>>) -> (best: Seq<char>)
    requires
        ids.finite(),
        ids.len() > 0,
        forall|id: Seq<char>| #[trigger] ids.contains(id) ==> orders.dom().contains(id),
    ensures
        ids.contains(best),
        forall|id: Seq<char>| #[trigger] ids.contains(id) ==> orders[id] <= orders[best],
    decreases ids.len(),
{
    let x = ids.choose();
    let rest = ids.remove(x);
    if rest.len() == 0 {
        assert forall|id: Seq<char>| #[trigger] ids.contains(id) implies orders[id] <= orders[x] by {
            if id != x {
                assert(rest.contains(id));
                rest.lemma_len0_is_empty();
            }
        }
        x
    } else {
        let b = lemma_largest_in(orders, rest);
        if orders[x] >= orders[b] {
            assert forall|id: Seq<char>| #[trigger] ids.contains(id) implies orders[id] <= orders[x] by {
                if id != x {
                    assert(rest.contains(id));
                }
            }
            x
        } else {
            assert forall|id: Seq<char>| #[trigger] ids.contains(id) implies orders[id] <= orders[b] by {
                if id != x {
                    assert(rest.contains(id));
                }
            }
            b
        }
    }
}

proof fn lemma_settings_next_order(orders: Map<Seq<char>, int>)
    requires
        orders.dom().finite(),
    ensures
        forall|id: Seq<char>| #[trigger] orders.dom().contains(id) && id != "settings"@ ==> orders[id]
            < settings_next_order(orders),
        has_other_menu(orders) ==> exists|id: Seq<char>|
            orders.dom().contains(id) && id != "settings"@ && orders[id] + 1 == settings_next_order(orders),
{
    if has_other_menu(orders) {
        let others = orders.dom().remove("settings"@);
        let w = choose|id: Seq<char>| orders.dom().contains(id) && id != "settings"@;
        assert(others.contains(w));
        assert(others.finite());
        if others.len() == 0 {
            others.lemma_len0_is_empty();
        }
        let best = lemma_largest_in(orders, others);
        assert(orders.dom().contains(best) && best != "settings"@);
        assert forall|id: Seq<char>| orders.dom().contains(id) && id != "settings"@ implies orders[id]
            <= orders[best] by {
            assert(others.contains(id));
        }
        assert(is_largest_other_order(orders, orders[best]));
        let v = choose|v: int| is_largest_other_order(orders, v);
        assert(is_largest_other_order(orders, v));
    }
}

proof fn lemma_lists_take_step(menus: Seq<MenuView>, i: int, id: Seq<char>)
    requires
        0 < i <= menus.len(),
    ensures
        lists(menus.take(i), id) <==> (lists(menus.take(i - 1), id) || menus[i - 1].id == id),
{
    let cur = menus.take(i);
    let prev = menus.take(i - 1);
    if lists(cur, id) {
        let k = choose|k: int| 0 <= k < cur.len() && cur[k].id == id;
        if k < i - 1 {
            assert(prev[k] == menus[k]);
        }
    }
    if lists(prev, id) {
        let k = choose|k: int| 0 <= k < prev.len() && prev[k].id == id;
        assert(cur[k] == menus[k]);
    }
    if menus[i - 1].id == id {
        assert(cur[i - 1] == menus[i - 1]);
    }
}

/// What the menu updates of a save do to the orders `start`, after the first
/// `i` places of the list.
proof fn lemma_menu_update_orders(menus: Seq<MenuView>, start: Map<Seq<char>, int>, i: int)
    requires
        0 <= i <= menus.len(),
        menus.len() < 0x7fff_ffff_ffff_ffff,
    ensures
        orders_after(start, menu_updates(menus.take(i))).dom() == start.dom(),
        start.dom().contains("home"@) ==> orders_after(start, menu_updates(menus.take(i)))["home"@]
            == if lists(menus.take(i), "home"@) {
            0
        } else {
            start["home"@]
        },
        start.dom().contains("settings"@) ==> orders_after(start, menu_updates(menus.take(i)))["settings"@]
            == start["settings"@],
        forall|id: Seq<char>|
            start.dom().contains(id) && is_movable(id) && !lists(menus.take(i), id) ==> #[trigger] orders_after(
                start,
                menu_updates(menus.take(i)),
            )[id] == start[id],
        forall|id: Seq<char>|
            start.dom().contains(id) && is_movable(id) && lists(menus.take(i), id) ==> 1
                <= #[trigger] orders_after(start, menu_updates(menus.take(i)))[id] <= movable_count(
                menus.take(i),
            ),
        forall|j: int|
            0 <= j < i && is_movable(menus[j].id) && start.dom().contains(menus[j].id) && (forall|k: int|
                j < k < i ==> menus[k].id != menus[j].id) ==> #[trigger] orders_after(
                start,
                menu_updates(menus.take(i)),
            )[menus[j].id] == assigned_order(menus, j),
    decreases i,
{
    if i == 0 {
        assert(menus.take(0) =~= Seq::<MenuView>::empty());
        assert forall|id: Seq<char>| !lists(menus.take(0), id) by {}
    } else {
        lemma_menu_update_orders(menus, start, i - 1);
        lemma_plan_texts_differ();
        let prev = menus.take(i - 1);
        let cur = menus.take(i);
        assert(cur.drop_last() =~= prev);
        assert(cur.last() == menus[i - 1]);
        let m = menus[i - 1];
        let before = orders_after(start, menu_updates(prev));
        let after = orders_after(start, menu_updates(cur));
        lemma_movable_count_step(menus, i - 1);
        lemma_movable_count_bound(prev);
        assert(forall|id: Seq<char>| #[trigger] lists(cur, id) <==> (lists(prev, id) || m.id == id)) by {
            assert forall|id: Seq<char>| #[trigger] lists(cur, id) <==> (lists(prev, id) || m.id == id) by {
                lemma_lists_take_step(menus, i, id);
            }
        }
        assert forall|j: int| 0 <= j < i - 1 implies #[trigger] menus.take(j) == prev.take(j) by {
            assert(menus.take(j) =~= prev.take(j));
        }
        if m.id == "home"@ {
            let s = stmt(UPDATE_HOME_MENU_SQL@, seq![SqlValueView::Text(m.label), SqlValueView::Text(m.icon_svg)]);
            assert(menu_updates(cur) == menu_updates(prev).push(s));
            assert(menu_updates(cur).drop_last() =~= menu_updates(prev));
            assert(after == order_effect(before, s));
        } else if m.id == "settings"@ {
            assert(menu_updates(cur) == menu_updates(prev));
        } else {
            let order = (movable_count(prev) + 1) as i64;
            let s = stmt(
                UPDATE_MENU_SQL@,
                seq![
                    SqlValueView::Text(m.label),
                    SqlValueView::Text(m.icon_svg),
                    SqlValueView::Boolean(m.is_hidden),
                    SqlValueView::Text(m.report_period),
                    SqlValueView::Integer(order),
                    SqlValueView::Text(m.id),
                ],
            );
            assert(menu_updates(cur) == menu_updates(prev).push(s));
            assert(menu_updates(cur).drop_last() =~= menu_updates(prev));
            assert(text_param(s, 5) == m.id);
            assert(int_param(s, 4) == movable_count(prev) + 1);
            assert(after == order_effect(before, s));
            assert(assigned_order(menus, i - 1) == movable_count(prev) + 1);
        }
    }
}

/// Saving the menus puts every stored menu in its place, whichever menus the
/// list names: with the orders kept as the store keeps them, running the save
/// plan leaves no menu with a negative order, Home first at 0, the listed
/// movable menus at 1, 2, ... in list order, the movable menus that the list
/// left out after them in their earlier order, and Settings last.
pub proof fn lemma_saved_menu_orders(p: PreferencesView, order_json: Seq<char>, before: Map<Seq<char>, int>)
    requires
        menu_orders_as_kept(before),
        p.menus.len() < 0x7fff_ffff_ffff_ffff,
    ensures
        saved_orders_well_placed(p.menus, before, orders_after(before, save_preferences_plan(p, order_json))),
{
    lemma_plan_texts_differ();
    let menus = p.menus;
    let k = movable_count(menus);
    lemma_movable_count_bound(menus);
    let w = settings_writes(p, order_json);
    let rel = stmt(RELEASE_MENU_ORDERS_SQL@, Seq::empty());
    let ups = menu_updates(menus);
    let res = restore_unlisted(k);
    let set = settings_update(menus);
    assert(save_preferences_plan(p, order_json) == w + seq![rel] + ups + seq![res, set]);
    lemma_setting_writes_keep_orders(before, w);
    lemma_orders_after_concat(before, w, seq![rel]);
    lemma_orders_after_concat(before, w + seq![rel], ups);
    lemma_orders_after_concat(before, w + seq![rel] + ups, seq![res, set]);
    assert(seq![rel].drop_last() =~= Seq::<StatementView>::empty());
    assert(seq![res, set].drop_last() =~= seq![res]);
    assert(seq![res].drop_last() =~= Seq::<StatementView>::empty());
    let b = order_effect(before, rel);
    assert(orders_after(before, Seq::<StatementView>::empty()) == before);
    assert(seq![rel].last() == rel);
    assert(orders_after(before, seq![rel]) == b);
    assert(orders_after(before, w + seq![rel]) == b);
    assert(menus.take(menus.len() as int) =~= menus);
    lemma_menu_update_orders(menus, b, menus.len() as int);
    let c = orders_after(b, ups);
    let d = order_effect(c, res);
    assert(int_param(res, 0) == k + 1);
    let e = order_effect(d, set);
    assert(orders_after(c, Seq::<StatementView>::empty()) == c);
    assert(seq![res].last() == res);
    assert(orders_after(c, seq![res]) == d);
    assert(seq![res, set].last() == set);
    assert(orders_after(c, seq![res, set]) == e);
    assert(orders_after(before, w + seq![rel] + ups) == c);
    assert(orders_after(before, save_preferences_plan(p, order_json)) == e);
    assert(b.dom() =~= before.dom());
    assert(d.dom() =~= before.dom());
    assert forall|id: Seq<char>| d.dom().contains(id) && id != "settings"@ implies #[trigger] d[id] >= 0 by {
        if id == "home"@ {
        } else if is_movable(id) {
            if !lists(menus, id) {
                assert(c[id] == b[id]);
            }
        }
    }
    assert(settings_order_or_zero(c) == settings_order_or_zero(before));
    assert(settings_order_or_zero(before) >= 0);
    if set.sql == UPDATE_SETTINGS_MENU_SQL@ {
        assert(int_param(set, 2) == k + 1);
    } else {
        assert(set.sql == MOVE_SETTINGS_MENU_SQL@);
        assert(int_param(set, 0) == k + 1);
    }
    lemma_settings_next_order(d);
    assert(e.dom().contains("settings"@) ==> e["settings"@] == larger(k + 1int, settings_next_order(d)));
    assert forall|id: Seq<char>|
        e.dom().contains(id) && is_movable(id) && !lists(menus, id) implies e[id]
        == settings_order_or_zero(before) + k + 2 + before[id] by {
        assert(c[id] == b[id]);
        assert(d[id] == settings_order_or_zero(c) + (k + 1) - c[id]);
    }
    assert forall|i: int|
        0 <= i < menus.len() && is_movable(menus[i].id) && e.dom().contains(menus[i].id) && last_listing(
            menus,
            i,
        ) implies e[menus[i].id] == assigned_order(menus, i) by {
        assert(c[menus[i].id] == assigned_order(menus, i));
    }
    assert forall|id: Seq<char>| e.dom().contains(id) && id != "home"@ implies e[id] >= 1 by {
        if id == "settings"@ {
        } else if is_movable(id) {
            if !lists(menus, id) {
                assert(c[id] == b[id]);
            }
        }
    }
    assert(e.dom() =~= before.dom());
    assert forall|id: Seq<char>| e.dom().contains(id) && is_movable(id) && lists(menus, id) implies 1 <= e[id]
        <= k by {
        assert(c[id] >= 1);
    }
    if e.dom().contains("home"@) {
        assert(b["home"@] == 0);
        assert(c["home"@] == 0);
        assert(d["home"@] == 0);
        assert(e["home"@] == 0);
    }
    assert forall|id: Seq<char>| e.dom().contains(id) implies e[id] >= 0 by {
        if id != "home"@ {
            assert(e[id] >= 1);
        }
    }
    if e.dom().contains("settings"@) {
        assert forall|id: Seq<char>| e.dom().contains(id) && id != "settings"@ implies e[id] < e["settings"@] by {
            assert(d.dom().contains(id));
            assert(d[id] < settings_next_order(d));
        }
        if forall|id: Seq<char>| e.dom().contains(id) && is_movable(id) ==> lists(menus, id) {
            if has_other_menu(d) {
                let o = choose|o: Seq<char>|
                    d.dom().contains(o) && o != "settings"@ && d[o] + 1 == settings_next_order(d);
                assert(e.dom().contains(o));
                if is_movable(o) {
                    assert(lists(menus, o));
                    assert(d[o] == c[o]);
                    assert(c[o] <= k);
                } else {
                    assert(o == "home"@);
                    assert(d[o] == 0);
                }
            }
        }
    }
}

/// The flag placeholder value at place `i` of a statement.
pub open spec fn flag_param(s: StatementView, i: int) -> bool {
    match s.params[i] {
        SqlValueView::Boolean(b) => b,
        _ => false,
    }
}

/// The stored menu `row` with the label, icon, hidden flag and report period
/// that a save writes; its id, order and system flag stay.
pub open spec fn with_fields(
    row: MenuView,
    label: Seq<char>,
    icon_svg: Seq<char>,
    is_hidden: bool,
    report_period: Seq<char>,
) -> MenuView {
    MenuView { label, icon_svg, is_hidden, report_period, ..row }
}

/// What one statement of the save plan does to the stored menu rows (`rows`
/// maps each stored menu id to its row; the orders are [`order_effect`]'s):
/// the Home update writes Home's label and icon and shows it; a menu update
/// writes the label, icon, hidden flag and report period of the menu it
/// names, if stored; the Settings update writes Settings' label and icon and
/// shows it. Every other statement leaves these fields alone.
pub open spec fn fields_effect(rows: Map<Seq<char>, MenuView>, s: StatementView) -> Map<Seq<char>, MenuView> {
    if s.sql == UPDATE_HOME_MENU_SQL@ {
        if rows.dom().contains("home"@) {
            let row = rows["home"@];
            rows.insert("home"@, with_fields(row, text_param(s, 0), text_param(s, 1), false, row.report_period))
        } else {
            rows
        }
    } else if s.sql == UPDATE_MENU_SQL@ {
        let id = text_param(s, 5);
        if rows.dom().contains(id) {
            rows.insert(
                id,
                with_fields(rows[id], text_param(s, 0), text_param(s, 1), flag_param(s, 2), text_param(s, 3)),
            )
        } else {
            rows
        }
    } else if s.sql == UPDATE_SETTINGS_MENU_SQL@ {
        if rows.dom().contains("settings"@) {
            let row = rows["settings"@];
            rows.insert("settings"@, with_fields(row, text_param(s, 0), text_param(s, 1), false, row.report_period))
        } else {
            rows
        }
    } else {
        rows
    }
}

/// The stored menu rows after running `stmts` in order.
pub open spec fn fields_after(rows: Map<Seq<char>, MenuView>, stmts: Seq<StatementView>) -> Map<Seq<char>, MenuView>
    decreases stmts.len(),
{
    if stmts.len() == 0 {
        rows
    } else {
        fields_effect(fields_after(rows, stmts.drop_last()), stmts.last())
    }
}

proof fn lemma_fields_after_concat(rows: Map<Seq<char>, MenuView>, a: Seq<StatementView>, b: Seq<StatementView>)
    ensures
        fields_after(rows, a + b) == fields_after(fields_after(rows, a), b),
    decreases b.len(),
{
    if b.len() == 0 {
        assert(a + b =~= a);
    } else {
        assert((a + b).drop_last() =~= a + b.drop_last());
        assert((a + b).last() == b.last());
        lemma_fields_after_concat(rows, a, b.drop_last());
    }
}

proof fn lemma_setting_writes_keep_fields(rows: Map<Seq<char>, MenuView>, stmts: Seq<StatementView>)
    requires
        forall|i: int| 0 <= i < stmts.len() ==> #[trigger] stmts[i].sql == UPSERT_SETTING_SQL@,
    ensures
        fields_after(rows, stmts) == rows,
    decreases stmts.len(),
{
    if stmts.len() > 0 {
        lemma_plan_texts_differ();
        let rest = stmts.drop_last();
        assert forall|i: int| 0 <= i < rest.len() implies #[trigger] rest[i].sql == UPSERT_SETTING_SQL@ by {
            assert(rest[i] == stmts[i]);
        }
        lemma_setting_writes_keep_fields(rows, rest);
        assert(stmts.last().sql == stmts[stmts.len() - 1].sql);
    }
}

/// What the menu updates of a save do to the rows `start`, after the first
/// `i` places of the list.
proof fn lemma_menu_update_fields(menus: Seq<MenuView>, start: Map<Seq<char>, MenuView>, i: int)
    requires
        0 <= i <= menus.len(),
    ensures
        fields_after(start, menu_updates(menus.take(i))).dom() == start.dom(),
        forall|id: Seq<char>|
            start.dom().contains(id) ==> (#[trigger] fields_after(start, menu_updates(menus.take(i)))[id]).id
                == start[id].id && fields_after(start, menu_updates(menus.take(i)))[id].sort_order
                == start[id].sort_order && fields_after(start, menu_updates(menus.take(i)))[id].is_system
                == start[id].is_system,
        start.dom().contains("home"@) ==> fields_after(start, menu_updates(menus.take(i)))["home"@].report_period
            == start["home"@].report_period,
        start.dom().contains("settings"@) ==> fields_after(start, menu_updates(menus.take(i)))["settings"@]
            == start["settings"@],
        forall|id: Seq<char>|
            start.dom().contains(id) && !lists(menus.take(i), id) ==> #[trigger] fields_after(
                start,
                menu_updates(menus.take(i)),
            )[id] == start[id],
        forall|j: int|
            0 <= j < i && is_movable(menus[j].id) && start.dom().contains(menus[j].id) && (forall|k: int|
                j < k < i ==> menus[k].id != menus[j].id) ==> #[trigger] fields_after(
                start,
                menu_updates(menus.take(i)),
            )[menus[j].id] == with_fields(
                start[menus[j].id],
                menus[j].label,
                menus[j].icon_svg,
                menus[j].is_hidden,
                menus[j].report_period,
            ),
        forall|j: int|
            0 <= j < i && menus[j].id == "home"@ && start.dom().contains("home"@) && (forall|k: int|
                j < k < i ==> menus[k].id != "home"@) ==> fields_after(start, menu_updates(menus.take(i)))["home"@]
                == with_fields(start["home"@], #[trigger] menus[j].label, menus[j].icon_svg, false, start["home"@].report_period),
    decreases i,
{
    if i == 0 {
        assert(menus.take(0) =~= Seq::<MenuView>::empty());
        assert forall|id: Seq<char>| !lists(menus.take(0), id) by {}
    } else {
        lemma_menu_update_fields(menus, start, i - 1);
        lemma_plan_texts_differ();
        let prev = menus.take(i - 1);
        let cur = menus.take(i);
        assert(cur.drop_last() =~= prev);
        assert(cur.last() == menus[i - 1]);
        let m = menus[i - 1];
        let before = fields_after(start, menu_updates(prev));
        let after = fields_after(start, menu_updates(cur));
        assert(forall|id: Seq<char>| #[trigger] lists(cur, id) <==> (lists(prev, id) || m.id == id)) by {
            assert forall|id: Seq<char>| #[trigger] lists(cur, id) <==> (lists(prev, id) || m.id == id) by {
                lemma_lists_take_step(menus, i, id);
            }
        }
        if m.id == "home"@ {
            let s = stmt(UPDATE_HOME_MENU_SQL@, seq![SqlValueView::Text(m.label), SqlValueView::Text(m.icon_svg)]);
            assert(menu_updates(cur) == menu_updates(prev).push(s));
            assert(menu_updates(cur).drop_last() =~= menu_updates(prev));
            assert(after == fields_effect(before, s));
        } else if m.id == "settings"@ {
            assert(menu_updates(cur) == menu_updates(prev));
        } else {
            let order = (movable_count(prev) + 1) as i64;
            let s = stmt(
                UPDATE_MENU_SQL@,
                seq![
                    SqlValueView::Text(m.label),
                    SqlValueView::Text(m.icon_svg),
                    SqlValueView::Boolean(m.is_hidden),
                    SqlValueView::Text(m.report_period),
                    SqlValueView::Integer(order),
                    SqlValueView::Text(m.id),
                ],
            );
            assert(menu_updates(cur) == menu_updates(prev).push(s));
            assert(menu_updates(cur).drop_last() =~= menu_updates(prev));
            assert(text_param(s, 5) == m.id);
            assert(after == fields_effect(before, s));
        }
    }
}

/// Saving the menus writes each listed menu's fields, whichever menus the
/// list names: running the save plan on the stored rows `before` keeps the
/// same menus; gives each stored movable menu the label, icon, hidden flag
/// and report period of its last entry in the list; gives Home the label and
/// icon of its last entry and shows it; gives Settings the label and icon of
/// its first entry and shows it; and leaves every menu that the list does not
/// name as it was. No menu's id, order or system flag is written here (the
/// orders are [`lemma_saved_menu_orders`]'s).
pub proof fn lemma_saved_menu_fields(p: PreferencesView, order_json: Seq<char>, before: Map<Seq<char>, MenuView>)
    ensures
        fields_after(before, save_preferences_plan(p, order_json)).dom() == before.dom(),
        forall|i: int|
            0 <= i < p.menus.len() && is_movable(p.menus[i].id) && before.dom().contains(p.menus[i].id)
                && last_listing(p.menus, i) ==> #[trigger] fields_after(
                before,
                save_preferences_plan(p, order_json),
            )[p.menus[i].id] == with_fields(
                before[p.menus[i].id],
                p.menus[i].label,
                p.menus[i].icon_svg,
                p.menus[i].is_hidden,
                p.menus[i].report_period,
            ),
        forall|i: int|
            0 <= i < p.menus.len() && p.menus[i].id == "home"@ && before.dom().contains("home"@) && last_listing(
                p.menus,
                i,
            ) ==> fields_after(before, save_preferences_plan(p, order_json))["home"@] == with_fields(
                before["home"@],
                #[trigger] p.menus[i].label,
                p.menus[i].icon_svg,
                false,
                before["home"@].report_period,
            ),
        before.dom().contains("settings"@) ==> fields_after(before, save_preferences_plan(p, order_json))["settings"@]
            == match first_settings_menu(p.menus) {
            Some(m) => with_fields(before["settings"@], m.label, m.icon_svg, false, before["settings"@].report_period),
            None => before["settings"@],
        },
        forall|id: Seq<char>|
            before.dom().contains(id) && !lists(p.menus, id) && id != "settings"@ ==> #[trigger] fields_after(
                before,
                save_preferences_plan(p, order_json),
            )[id] == before[id],
{
    lemma_plan_texts_differ();
    let menus = p.menus;
    let k = movable_count(menus);
    let w = settings_writes(p, order_json);
    let rel = stmt(RELEASE_MENU_ORDERS_SQL@, Seq::empty());
    let ups = menu_updates(menus);
    let res = restore_unlisted(k);
    let set = settings_update(menus);
    assert(save_preferences_plan(p, order_json) == w + seq![rel] + ups + seq![res, set]);
    lemma_setting_writes_keep_fields(before, w);
    lemma_fields_after_concat(before, w, seq![rel]);
    lemma_fields_after_concat(before, w + seq![rel], ups);
    lemma_fields_after_concat(before, w + seq![rel] + ups, seq![res, set]);
    assert(seq![rel].drop_last() =~= Seq::<StatementView>::empty());
    assert(seq![res, set].drop_last() =~= seq![res]);
    assert(seq![res].drop_last() =~= Seq::<StatementView>::empty());
    assert(fields_after(before, Seq::<StatementView>::empty()) == before);
    assert(seq![rel].last() == rel);
    assert(fields_after(before, seq![rel]) == before);
    assert(fields_after(before, w + seq![rel]) == before);
    assert(menus.take(menus.len() as int) =~= menus);
    lemma_menu_update_fields(menus, before, menus.len() as int);
    let c = fields_after(before, ups);
    assert(fields_after(c, Seq::<StatementView>::empty()) == c);
    assert(seq![res].last() == res);
    assert(fields_after(c, seq![res]) == c);
    assert(seq![res, set].last() == set);
    let e = fields_effect(c, set);
    assert(fields_after(c, seq![res, set]) == e);
    assert(fields_after(before, w + seq![rel] + ups) == c);
    assert(fields_after(before, save_preferences_plan(p, order_json)) == e);
    assert(e.dom() =~= before.dom());
    if before.dom().contains("settings"@) {
        match first_settings_menu(menus) {
            Some(m) => {
                assert(set.sql == UPDATE_SETTINGS_MENU_SQL@);
                assert(text_param(set, 0) == m.label);
                assert(text_param(set, 1) == m.icon_svg);
            },
            None => {
                assert(set.sql == MOVE_SETTINGS_MENU_SQL@);
            },
        }
    }
    assert forall|i: int|
        0 <= i < menus.len() && is_movable(menus[i].id) && before.dom().contains(menus[i].id) && last_listing(
            menus,
            i,
        ) implies #[trigger] e[menus[i].id] == with_fields(
        before[menus[i].id],
        menus[i].label,
        menus[i].icon_svg,
        menus[i].is_hidden,
        menus[i].report_period,
    ) by {
        assert(c[menus[i].id] == with_fields(
            before[menus[i].id],
            menus[i].label,
            menus[i].icon_svg,
            menus[i].is_hidden,
            menus[i].report_period,
        ));
    }
    assert forall|i: int|
        0 <= i < menus.len() && menus[i].id == "home"@ && before.dom().contains("home"@) && last_listing(menus, i)
            implies e["home"@] == with_fields(
        before["home"@],
        #[trigger] menus[i].label,
        menus[i].icon_svg,
        false,
        before["home"@].report_period,
    ) by {
        assert(forall|k: int| i < k < menus.len() ==> menus[k].id != menus[i].id);
    }
}

/// Whether no two stored menus share an order, as the unique index on
/// `sort_order` demands.
pub open spec fn orders_distinct(orders: Map<Seq<char>, int>) -> bool {
    forall|a: Seq<char>, b: Seq<char>|
        orders.dom().contains(a) && orders.dom().contains(b) && a != b ==> #[trigger] orders[a]
            != #[trigger] orders[b]
}

/// Whether the unique order index lets every one of `stmts` through, run in
/// order: after each of them no two stored menus share an order.
pub open spec fn steps_keep_distinct(orders: Map<Seq<char>, int>, stmts: Seq<StatementView>) -> bool
    decreases stmts.len(),
{
    if stmts.len() == 0 {
        true
    } else {
        steps_keep_distinct(orders, stmts.drop_last()) && orders_distinct(orders_after(orders, stmts))
    }
}

/// Whether the list gives a stored movable menu the order that Settings
/// holds in `before`: the place `i` of such an entry counts `before[settings]`
/// among the movable entries of the list up to it.
pub open spec fn list_reaches_settings(menus: Seq<MenuView>, before: Map<Seq<char>, int>) -> bool {
    &&& before.dom().contains("settings"@)
    &&& exists|i: int|
        0 <= i < menus.len() && is_movable(menus[i].id) && before.dom().contains(menus[i].id)
            && #[trigger] assigned_order(menus, i) == before["settings"@]
}

proof fn lemma_keep_concat(orders: Map<Seq<char>, int>, a: Seq<StatementView>, b: Seq<StatementView>)
    ensures
        steps_keep_distinct(orders, a + b) == (steps_keep_distinct(orders, a) && steps_keep_distinct(
            orders_after(orders, a),
            b,
        )),
    decreases b.len(),
{
    if b.len() == 0 {
        assert(a + b =~= a);
    } else {
        assert((a + b).drop_last() =~= a + b.drop_last());
        lemma_keep_concat(orders, a, b.drop_last());
        lemma_orders_after_concat(orders, a, b);
    }
}

proof fn lemma_setting_writes_keep_distinct(orders: Map<Seq<char>, int>, stmts: Seq<StatementView>)
    requires
        orders_distinct(orders),
        forall|i: int| 0 <= i < stmts.len() ==> #[trigger] stmts[i].sql == UPSERT_SETTING_SQL@,
    ensures
        steps_keep_distinct(orders, stmts),
    decreases stmts.len(),
{
    if stmts.len() > 0 {
        let rest = stmts.drop_last();
        assert forall|i: int| 0 <= i < rest.len() implies #[trigger] rest[i].sql == UPSERT_SETTING_SQL@ by {
            assert(rest[i] == stmts[i]);
        }
        lemma_setting_writes_keep_distinct(orders, rest);
        lemma_setting_writes_keep_orders(orders, stmts);
    }
}

/// The menu updates of a save pass the unique order index exactly when no
/// stored movable entry among the first `i` places takes Settings' order,
/// starting from orders with every movable menu moved below zero.
proof fn lemma_menu_update_keep(menus: Seq<MenuView>, b: Map<Seq<char>, int>, i: int)
    requires
        0 <= i <= menus.len(),
        menus.len() < 0x7fff_ffff_ffff_ffff,
        orders_distinct(b),
        b.dom().contains("home"@) ==> b["home"@] == 0,
        b.dom().contains("settings"@) ==> b["settings"@] >= 0,
        forall|id: Seq<char>| b.dom().contains(id) && is_movable(id) ==> #[trigger] b[id] < 0,
    ensures
        steps_keep_distinct(b, menu_updates(menus.take(i))) == !(b.dom().contains("settings"@) && exists|j: int|
            0 <= j < i && is_movable(menus[j].id) && b.dom().contains(menus[j].id) && #[trigger] assigned_order(
                menus,
                j,
            ) == b["settings"@]),
        steps_keep_distinct(b, menu_updates(menus.take(i))) ==> orders_distinct(
            orders_after(b, menu_updates(menus.take(i))),
        ),
    decreases i,
{
    if i == 0 {
        assert(menus.take(0) =~= Seq::<MenuView>::empty());
        assert(menu_updates(menus.take(0)) =~= Seq::<StatementView>::empty());
    } else {
        lemma_menu_update_keep(menus, b, i - 1);
        lemma_menu_update_orders(menus, b, i - 1);
        lemma_plan_texts_differ();
        let prev = menus.take(i - 1);
        let cur = menus.take(i);
        assert(cur.drop_last() =~= prev);
        assert(cur.last() == menus[i - 1]);
        let m = menus[i - 1];
        let before = orders_after(b, menu_updates(prev));
        let after = orders_after(b, menu_updates(cur));
        lemma_movable_count_step(menus, i - 1);
        lemma_movable_count_bound(prev);
        assert(menus.take(i - 1) == prev);
        let cond_prev = b.dom().contains("settings"@) && exists|j: int|
            0 <= j < i - 1 && is_movable(menus[j].id) && b.dom().contains(menus[j].id) && #[trigger] assigned_order(
                menus,
                j,
            ) == b["settings"@];
        let cond_cur = b.dom().contains("settings"@) && exists|j: int|
            0 <= j < i && is_movable(menus[j].id) && b.dom().contains(menus[j].id) && #[trigger] assigned_order(
                menus,
                j,
            ) == b["settings"@];
        if m.id == "home"@ {
            let s = stmt(UPDATE_HOME_MENU_SQL@, seq![SqlValueView::Text(m.label), SqlValueView::Text(m.icon_svg)]);
            assert(menu_updates(cur) == menu_updates(prev).push(s));
            assert(menu_updates(cur).drop_last() =~= menu_updates(prev));
            assert(after == order_effect(before, s));
            if before.dom().contains("home"@) {
                assert(before["home"@] == 0);
            }
            assert(after =~= before);
            assert(cond_cur == cond_prev);
            if steps_keep_distinct(b, menu_updates(prev)) {
            }
        } else if m.id == "settings"@ {
            assert(menu_updates(cur) == menu_updates(prev));
            assert(cond_cur == cond_prev);
        } else {
            let c: int = movable_count(prev) + 1int;
            let s = stmt(
                UPDATE_MENU_SQL@,
                seq![
                    SqlValueView::Text(m.label),
                    SqlValueView::Text(m.icon_svg),
                    SqlValueView::Boolean(m.is_hidden),
                    SqlValueView::Text(m.report_period),
                    SqlValueView::Integer(c as i64),
                    SqlValueView::Text(m.id),
                ],
            );
            assert(menu_updates(cur) == menu_updates(prev).push(s));
            assert(menu_updates(cur).drop_last() =~= menu_updates(prev));
            assert(text_param(s, 5) == m.id);
            assert(int_param(s, 4) == c);
            assert(after == order_effect(before, s));
            assert(assigned_order(menus, i - 1) == c);
            if !b.dom().contains(m.id) {
                assert(after =~= before);
                assert(cond_cur == cond_prev);
            } else {
                assert(after == before.insert(m.id, c));
                if b.dom().contains("settings"@) && c == b["settings"@] {
                    assert(cond_cur);
                    assert(after[m.id] == after["settings"@]);
                    assert(!orders_distinct(after));
                } else {
                    assert(cond_cur == cond_prev);
                    if steps_keep_distinct(b, menu_updates(prev)) {
                        assert forall|x: Seq<char>, y: Seq<char>|
                            after.dom().contains(x) && after.dom().contains(y) && x != y implies #[trigger] after[x]
                            != #[trigger] after[y] by {
                            if x == m.id || y == m.id {
                                let o = if x == m.id {
                                    y
                                } else {
                                    x
                                };
                                assert(after[o] == before[o]);
                                if o == "home"@ {
                                } else if o == "settings"@ {
                                } else if lists(prev, o) {
                                    assert(before[o] <= movable_count(prev));
                                } else {
                                    assert(before[o] == b[o]);
                                }
                            } else {
                                assert(before[x] != before[y]);
                            }
                        }
                    }
                }
            }
        }
    }
}

/// When a save is refused: with the orders kept as the store keeps them and
/// no two menus sharing an order, the unique order index lets every
/// statement of the save plan through exactly when the list gives no stored
/// movable menu the order that Settings holds. Otherwise the statement that
/// would give it that order is refused and the transaction is rolled back.
pub proof fn lemma_save_refused_exactly_when_list_reaches_settings(
    p: PreferencesView,
    order_json: Seq<char>,
    before: Map<Seq<char>, int>,
)
    requires
        menu_orders_as_kept(before),
        orders_distinct(before),
        p.menus.len() < 0x7fff_ffff_ffff_ffff,
    ensures
        steps_keep_distinct(before, save_preferences_plan(p, order_json)) == !list_reaches_settings(
            p.menus,
            before,
        ),
{
    lemma_plan_texts_differ();
    let menus = p.menus;
    let k = movable_count(menus);
    lemma_movable_count_bound(menus);
    let w = settings_writes(p, order_json);
    let rel = stmt(RELEASE_MENU_ORDERS_SQL@, Seq::empty());
    let ups = menu_updates(menus);
    let res = restore_unlisted(k);
    let set = settings_update(menus);
    assert(save_preferences_plan(p, order_json) == w + seq![rel] + ups + seq![res, set]);
    lemma_setting_writes_keep_orders(before, w);
    lemma_setting_writes_keep_distinct(before, w);
    lemma_orders_after_concat(before, w, seq![rel]);
    lemma_orders_after_concat(before, w + seq![rel], ups);
    lemma_keep_concat(before, w, seq![rel]);
    lemma_keep_concat(before, w + seq![rel], ups);
    lemma_keep_concat(before, w + seq![rel] + ups, seq![res, set]);
    assert(seq![rel].drop_last() =~= Seq::<StatementView>::empty());
    assert(seq![res, set].drop_last() =~= seq![res]);
    assert(seq![res].drop_last() =~= Seq::<StatementView>::empty());
    let b = order_effect(before, rel);
    assert(orders_after(before, Seq::<StatementView>::empty()) == before);
    assert(seq![rel].last() == rel);
    assert(orders_after(before, seq![rel]) == b);
    assert(orders_after(before, w + seq![rel]) == b);
    assert(b.dom() =~= before.dom());
    assert forall|x: Seq<char>, y: Seq<char>|
        b.dom().contains(x) && b.dom().contains(y) && x != y implies #[trigger] b[x] != #[trigger] b[y] by {
        assert(before[x] != before[y]);
    }
    assert(steps_keep_distinct(before, Seq::<StatementView>::empty()));
    assert(steps_keep_distinct(before, seq![rel]) == orders_distinct(b));
    assert(steps_keep_distinct(before, w + seq![rel]));
    assert(menus.take(menus.len() as int) =~= menus);
    lemma_menu_update_keep(menus, b, menus.len() as int);
    lemma_menu_update_orders(menus, b, menus.len() as int);
    let c = orders_after(b, ups);
    assert(orders_after(before, w + seq![rel] + ups) == c);
    if steps_keep_distinct(b, ups) {
        assert(orders_distinct(c));
        let d = order_effect(c, res);
        assert(int_param(res, 0) == k + 1);
        let s0 = settings_order_or_zero(c);
        assert(s0 == settings_order_or_zero(before));
        assert(s0 >= 0);
        assert(d.dom() =~= c.dom());
        assert forall|id: Seq<char>| c.dom().contains(id) && is_movable(id) && c[id] >= 0 implies #[trigger] c[id]
            <= k by {
            if !lists(menus, id) {
                assert(c[id] == b[id]);
            }
        }
        assert forall|x: Seq<char>, y: Seq<char>|
            d.dom().contains(x) && d.dom().contains(y) && x != y implies #[trigger] d[x] != #[trigger] d[y] by {
            assert(c[x] != c[y]);
            if c.dom().contains("home"@) {
                assert(c["home"@] == 0);
            }
        }
        assert(orders_after(c, Seq::<StatementView>::empty()) == c);
        assert(seq![res].last() == res);
        assert(orders_after(c, seq![res]) == d);
        let e = order_effect(d, set);
        assert(seq![res, set].last() == set);
        assert(orders_after(c, seq![res, set]) == e);
        lemma_settings_next_order(d);
        if set.sql == UPDATE_SETTINGS_MENU_SQL@ {
        } else {
            assert(set.sql == MOVE_SETTINGS_MENU_SQL@);
        }
        assert forall|x: Seq<char>, y: Seq<char>|
            e.dom().contains(x) && e.dom().contains(y) && x != y implies #[trigger] e[x] != #[trigger] e[y] by {
            if x != "settings"@ && y != "settings"@ {
                assert(d[x] != d[y]);
            }
        }
        assert(steps_keep_distinct(c, Seq::<StatementView>::empty()));
        assert(steps_keep_distinct(c, seq![res]));
        assert(steps_keep_distinct(c, seq![res, set]));
    }
    assert(before.dom().contains("settings"@) ==> b["settings"@] == before["settings"@]);
    if list_reaches_settings(menus, before) {
        let i = choose|i: int|
            0 <= i < menus.len() && is_movable(menus[i].id) && before.dom().contains(menus[i].id)
                && #[trigger] assigned_order(menus, i) == before["settings"@];
        assert(assigned_order(menus, i) == b["settings"@]);
    }
    if !steps_keep_distinct(b, ups) {
        let j = choose|j: int|
            0 <= j < menus.len() && is_movable(menus[j].id) && b.dom().contains(menus[j].id)
                && #[trigger] assigned_order(menus, j) == b["settings"@];
        assert(assigned_order(menus, j) == before["settings"@]);
    }
}

} // verus!
