//! What a new store starts with: the fixed navigation menus, the default
//! settings, and twenty sample weekly reports for the management menu.

use vstd::prelude::*;
use crate::models::{SqlStatement, SqlValue, SqlValueView, StatementView, statements_view, stmt};
use crate::preferences::{SETTING_COUNT, setting_fallback, setting_fallback_at, setting_key, setting_key_at};
use crate::menus::is_fixed_menu;
use crate::preferences::{int_param, text_param};
use crate::text::{chars_of, decimal, parse_u32, parse_u32_spec, push_decimal};

verus! {

pub const HOME_ICON_SVG: &'static str = "<svg xmlns=\"http://www.w3.org/2000/svg\" viewBox=\"0 0 24 24\" fill=\"none\" stroke=\"currentColor\" stroke-width=\"2\"><path d=\"m3 10 9-7 9 7v10a1 1 0 0 1-1 1H4a1 1 0 0 1-1-1Z\"/><path d=\"M9 21v-6h6v6\"/></svg>";

pub const DAILY_ICON_SVG: &'static str = "<svg xmlns=\"http://www.w3.org/2000/svg\" viewBox=\"0 0 24 24\" fill=\"none\" stroke=\"currentColor\" stroke-width=\"2\"><path d=\"M6 3h9l3 3v15H6z\"/><path d=\"M9 12h6M9 16h6M9 8h3\"/></svg>";

pub const WEEKLY_ICON_SVG: &'static str = "<svg xmlns=\"http://www.w3.org/2000/svg\" viewBox=\"0 0 24 24\" fill=\"none\" stroke=\"currentColor\" stroke-width=\"2\"><rect x=\"3\" y=\"4\" width=\"18\" height=\"17\" rx=\"2\"/><path d=\"M8 2v4M16 2v4M3 10h18M8 14h3M8 17h7\"/></svg>";

pub const MEETING_ICON_SVG: &'static str = "<svg xmlns=\"http://www.w3.org/2000/svg\" viewBox=\"0 0 24 24\" fill=\"none\" stroke=\"currentColor\" stroke-width=\"2\"><path d=\"M4 5h16v11H8l-4 4Z\"/><path d=\"M8 9h8M8 12h5\"/></svg>";

pub const SETTINGS_ICON_SVG: &'static str = "<svg xmlns=\"http://www.w3.org/2000/svg\" viewBox=\"0 0 24 24\" fill=\"none\" stroke=\"currentColor\" stroke-width=\"2\"><circle cx=\"12\" cy=\"12\" r=\"3\"/><path d=\"M19.4 15a1.7 1.7 0 0 0 .34 1.88l.06.06-2.4 2.4-.06-.06a1.7 1.7 0 0 0-1.88-.34 1.7 1.7 0 0 0-1.03 1.56v.1h-3.4v-.1A1.7 1.7 0 0 0 10 18.94a1.7 1.7 0 0 0-1.88.34l-.06.06-2.4-2.4.06-.06A1.7 1.7 0 0 0 6.06 15 1.7 1.7 0 0 0 4.5 13.97h-.1v-3.4h.1A1.7 1.7 0 0 0 6.06 9a1.7 1.7 0 0 0-.34-1.88l-.06-.06 2.4-2.4.06.06A1.7 1.7 0 0 0 10 5.06a1.7 1.7 0 0 0 1.03-1.56v-.1h3.4v.1A1.7 1.7 0 0 0 15.46 5a1.7 1.7 0 0 0 1.88-.34l.06-.06 2.4 2.4-.06.06A1.7 1.7 0 0 0 19.4 9a1.7 1.7 0 0 0 1.56 1.03h.1v3.4h-.1A1.7 1.7 0 0 0 19.4 15Z\"/></svg>";

/// Number of fixed navigation menus.
pub const DEFAULT_MENU_COUNT: usize = 5;

/// The `i`-th fixed navigation menu: id, label, icon, order, and whether it is
/// a system menu (1) that may not be deleted.
pub open spec fn default_menu(i: int) -> (Seq<char>, Seq<char>, Seq<char>, i64, i64) {
    if i == 0 {
        ("home"@, "首页"@, HOME_ICON_SVG@, 0, 1)
    } else if i == 1 {
        ("daily"@, "日报"@, DAILY_ICON_SVG@, 1, 0)
    } else if i == 2 {
        ("weekly"@, "周报"@, WEEKLY_ICON_SVG@, 2, 0)
    } else if i == 3 {
        ("meeting"@, "例会记录"@, MEETING_ICON_SVG@, 3, 0)
    } else {
        ("settings"@, "设置"@, SETTINGS_ICON_SVG@, 4, 1)
    }
}

fn default_menu_at(i: usize) -> (r: (&'static str, &'static str, &'static str, i64, i64))
    requires
        i < DEFAULT_MENU_COUNT,
    ensures
        (r.0@, r.1@, r.2@, r.3, r.4) == default_menu(i as int),
{
    if i == 0 {
        ("home", "首页", HOME_ICON_SVG, 0, 1)
    } else if i == 1 {
        ("daily", "日报", DAILY_ICON_SVG, 1, 0)
    } else if i == 2 {
        ("weekly", "周报", WEEKLY_ICON_SVG, 2, 0)
    } else if i == 3 {
        ("meeting", "例会记录", MEETING_ICON_SVG, 3, 0)
    } else {
        ("settings", "设置", SETTINGS_ICON_SVG, 4, 1)
    }
}

pub const SEED_MENU_SQL: &'static str = "INSERT OR IGNORE INTO navigation_menus (id, label, icon_svg, sort_order, is_system) VALUES (?1, ?2, ?3, ?4, ?5)";

pub const SEED_SETTING_SQL: &'static str = "INSERT OR IGNORE INTO app_settings (key, value) VALUES (?1, ?2)";

/// The statement that adds the `i`-th fixed menu unless a menu with its id exists.
pub open spec fn seed_menu_stmt(i: int) -> StatementView {
    let m = default_menu(i);
    stmt(
        SEED_MENU_SQL@,
        seq![
            SqlValueView::Text(m.0),
            SqlValueView::Text(m.1),
            SqlValueView::Text(m.2),
            SqlValueView::Integer(m.3),
            SqlValueView::Integer(m.4),
        ],
    )
}

/// The statement that stores the default of the `i`-th setting unless it is stored.
pub open spec fn seed_setting_stmt(i: int) -> StatementView {
    stmt(SEED_SETTING_SQL@, seq![SqlValueView::Text(setting_key(i)), SqlValueView::Text(setting_fallback(i))])
}

/// Everything that seeding the navigation writes: the five fixed menus, then
/// every setting with its default, none of them overwriting
/// what is already stored.
pub open spec fn seed_navigation_plan() -> Seq<StatementView> {
    Seq::new(5, |i: int| seed_menu_stmt(i)) + Seq::new(10, |i: int| seed_setting_stmt(i))
}

/// Only the fixed menus are seeded as system menus: of the five menus that
/// seeding adds, each is marked a system menu (1) exactly when it is Home or
/// Settings, and every other one (0) can later be deleted. The menus take the
/// orders 0 through 4 in turn, Home first and Settings last.
pub proof fn lemma_only_fixed_menus_are_seeded_as_system()
    ensures
        forall|i: int|
            0 <= i < 5 ==> (#[trigger] seed_navigation_plan()[i]).params[4] == SqlValueView::Integer(
                if is_fixed_menu(text_param(seed_navigation_plan()[i], 0)) {
                    1i64
                } else {
                    0i64
                },
            ),
        forall|i: int| 0 <= i < 5 ==> int_param(#[trigger] seed_navigation_plan()[i], 3) == i,
        text_param(seed_navigation_plan()[0], 0) == "home"@,
        text_param(seed_navigation_plan()[4], 0) == "settings"@,
{
    reveal_strlit("home");
    reveal_strlit("daily");
    reveal_strlit("weekly");
    reveal_strlit("meeting");
    reveal_strlit("settings");
    assert forall|i: int|
        0 <= i < 5 implies (#[trigger] seed_navigation_plan()[i]).params[4] == SqlValueView::Integer(
            if is_fixed_menu(text_param(seed_navigation_plan()[i], 0)) {
                1i64
            } else {
                0i64
            },
        ) && int_param(seed_navigation_plan()[i], 3) == i by {
        assert(seed_navigation_plan()[i] == seed_menu_stmt(i));
        assert("daily"@.len() != "home"@.len() && "daily"@.len() != "settings"@.len());
        assert("weekly"@.len() != "home"@.len() && "weekly"@.len() != "settings"@.len());
        assert("meeting"@.len() != "home"@.len() && "meeting"@.len() != "settings"@.len());
    }
    assert(seed_navigation_plan()[0] == seed_menu_stmt(0));
    assert(seed_navigation_plan()[4] == seed_menu_stmt(4));
}

fn push_statement(stmts: &mut Vec<SqlStatement>, s: SqlStatement)
    ensures
        statements_view(final(stmts)@) == statements_view(old(stmts)@).push(s@),
{
    stmts.push(s);
    assert(statements_view(stmts@) =~= statements_view(old(stmts)@).push(s@));
}

/// The statements that seed the navigation menus and the default settings.
pub fn seed_navigation_statements() -> (r: Vec<SqlStatement>)
    ensures
        statements_view(r@) == seed_navigation_plan(),
{
    let mut stmts: Vec<SqlStatement> = Vec::new();
    let mut i: usize = 0;
    while i < DEFAULT_MENU_COUNT
        invariant
            i <= DEFAULT_MENU_COUNT,
            statements_view(stmts@) == Seq::new(i as nat, |k: int| seed_menu_stmt(k)),
        decreases DEFAULT_MENU_COUNT - i,
    {
        let (id, label, icon, order, system) = default_menu_at(i);
        let mut params: Vec<SqlValue> = Vec::new();
        params.push(SqlValue::Text(String::from_str(id)));
        params.push(SqlValue::Text(String::from_str(label)));
        params.push(SqlValue::Text(String::from_str(icon)));
        params.push(SqlValue::Integer(order));
        params.push(SqlValue::Integer(system));
        let s = SqlStatement { sql: String::from_str(SEED_MENU_SQL), params };
        assert(s@.params =~= seed_menu_stmt(i as int).params);
        push_statement(&mut stmts, s);
        assert(statements_view(stmts@) =~= Seq::new((i + 1) as nat, |k: int| seed_menu_stmt(k)));
        i = i + 1;
    }
    let ghost menus = statements_view(stmts@);
    let mut j: usize = 0;
    while j < SETTING_COUNT
        invariant
            j <= SETTING_COUNT,
            menus == Seq::new(5, |k: int| seed_menu_stmt(k)),
            statements_view(stmts@) == menus + Seq::new(j as nat, |k: int| seed_setting_stmt(k)),
        decreases SETTING_COUNT - j,
    {
        let mut params: Vec<SqlValue> = Vec::new();
        params.push(SqlValue::Text(String::from_str(setting_key_at(j))));
        params.push(SqlValue::Text(String::from_str(setting_fallback_at(j))));
        let s = SqlStatement { sql: String::from_str(SEED_SETTING_SQL), params };
        assert(s@.params =~= seed_setting_stmt(j as int).params);
        push_statement(&mut stmts, s);
        assert(statements_view(stmts@) =~= menus + Seq::new((j + 1) as nat, |k: int| seed_setting_stmt(k)));
        j = j + 1;
    }
    stmts
}

/// Number of sample weekly reports.
pub const SAMPLE_WEEK_COUNT: u64 = 20;

pub const MANAGEMENT_MENU_SQL: &'static str = "SELECT id FROM navigation_menus WHERE label = '管理层周报' LIMIT 1";

pub const CURRENT_WEEK_START_SQL: &'static str = "SELECT date('now', 'localtime', '-' || ((CAST(strftime('%w', 'now', 'localtime') AS INTEGER) + 6) % 7) || ' days')";

pub const WEEK_DATES_SQL: &'static str = "SELECT date(?1, ?2), date(?1, ?2, '+6 days'), strftime('%V', date(?1, ?2), '+3 days')";

pub const SEED_WEEKLY_SQL: &'static str = "INSERT OR IGNORE INTO records (id, type, record_date, title, content, tags, metadata, status, created_at, updated_at, menu_id) VALUES (?1, 'weekly', ?2, ?3, ?4, '[]', '{}', 'saved', datetime('now', 'localtime'), datetime('now', 'localtime'), ?5)";

/// The statement that finds the menu titled as the management weekly report.
pub fn management_menu_statement() -> (s: SqlStatement)
    ensures
        s@ == stmt(MANAGEMENT_MENU_SQL@, Seq::empty()),
{
    let params: Vec<SqlValue> = Vec::new();
    let s = SqlStatement { sql: String::from_str(MANAGEMENT_MENU_SQL), params };
    assert(s@.params =~= Seq::<SqlValueView>::empty());
    s
}

/// The statement that reads the Monday of the current local week.
pub fn current_week_start_statement() -> (s: SqlStatement)
    ensures
        s@ == stmt(CURRENT_WEEK_START_SQL@, Seq::empty()),
{
    let params: Vec<SqlValue> = Vec::new();
    let s = SqlStatement { sql: String::from_str(CURRENT_WEEK_START_SQL), params };
    assert(s@.params =~= Seq::<SqlValueView>::empty());
    s
}

/// The menu that the samples belong to: the one found, else `weekly`.
pub fn sample_menu_id(found: Option<String>) -> (r: String)
    ensures
        r@ == match found {
            Some(id) => id@,
            None => "weekly"@,
        },
{
    match found {
        Some(id) => id,
        None => String::from_str("weekly"),
    }
}

/// The date modifier that goes `index` weeks back.
pub open spec fn weeks_back(index: nat) -> Seq<char> {
    "-"@ + decimal(7 * index) + " days"@
}

/// The date modifiers of the sample weeks, from this week back.
pub fn sample_week_offsets() -> (r: Vec<String>)
    ensures
        r@.len() == SAMPLE_WEEK_COUNT,
        forall|i: int| 0 <= i < r@.len() ==> #[trigger] r@[i]@ == weeks_back(i as nat),
{
    let mut r: Vec<String> = Vec::new();
    let mut i: u64 = 0;
    while i < SAMPLE_WEEK_COUNT
        invariant
            i <= SAMPLE_WEEK_COUNT,
            r@.len() == i,
            forall|k: int| 0 <= k < r@.len() ==> #[trigger] r@[k]@ == weeks_back(k as nat),
        decreases SAMPLE_WEEK_COUNT - i,
    {
        let mut m = String::from_str("-");
        push_decimal(&mut m, i * 7);
        m.append(" days");
        assert(m@ =~= weeks_back(i as nat));
        r.push(m);
        i = i + 1;
    }
    r
}

/// The statement that computes, for a week start and a modifier, the first
/// and last day of that week and its ISO week number.
pub fn week_dates_statement(week_start: &str, offset: &str) -> (s: SqlStatement)
    ensures
        s@ == stmt(WEEK_DATES_SQL@, seq![SqlValueView::Text(week_start@), SqlValueView::Text(offset@)]),
{
    let mut params: Vec<SqlValue> = Vec::new();
    params.push(SqlValue::Text(String::from_str(week_start)));
    params.push(SqlValue::Text(String::from_str(offset)));
    let s = SqlStatement { sql: String::from_str(WEEK_DATES_SQL), params };
    assert(s@.params =~= seq![SqlValueView::Text(week_start@), SqlValueView::Text(offset@)]);
    s
}

/// Index of the first `-` at or after `i` (or the length of `s`).
pub open spec fn next_dash(s: Seq<char>, i: int) -> int
    decreases s.len() - i,
{
    if i < 0 || i >= s.len() {
        s.len() as int
    } else if s[i] == '-' {
        i
    } else {
        next_dash(s, i + 1)
    }
}

/// Index of the first character at or after `i` that is not `0`.
pub open spec fn first_non_zero_from(s: Seq<char>, i: int) -> int
    decreases s.len() - i,
{
    if i < 0 || i >= s.len() {
        s.len() as int
    } else if s[i] == '0' {
        first_non_zero_from(s, i + 1)
    } else {
        i
    }
}

/// `s` without its leading zeros.
pub open spec fn without_leading_zeros(s: Seq<char>) -> Seq<char> {
    s.subrange(first_non_zero_from(s, 0), s.len() as int)
}

/// Whether a date text has at least three `-`-separated fields.
pub open spec fn has_date_fields(s: Seq<char>) -> bool {
    let d0 = next_dash(s, 0);
    d0 < s.len() && next_dash(s, d0 + 1) < s.len()
}

/// A `YYYY-MM-DD` date written as `YYYY年M月D日`: the first three `-`-separated
/// fields, month and day without leading zeros.
pub open spec fn chinese_date(s: Seq<char>) -> Seq<char> {
    let d0 = next_dash(s, 0);
    let d1 = next_dash(s, d0 + 1);
    let d2 = next_dash(s, d1 + 1);
    s.subrange(0, d0) + "年"@ + without_leading_zeros(s.subrange(d0 + 1, d1)) + "月"@
        + without_leading_zeros(s.subrange(d1 + 1, d2)) + "日"@
}

proof fn lemma_next_dash_bounds(s: Seq<char>, i: int)
    requires
        0 <= i <= s.len(),
    ensures
        i <= next_dash(s, i) <= s.len(),
        next_dash(s, i) < s.len() ==> s[next_dash(s, i)] == '-',
    decreases s.len() - i,
{
    if i < s.len() && s[i] != '-' {
        lemma_next_dash_bounds(s, i + 1);
    }
}

proof fn lemma_first_non_zero_bounds(s: Seq<char>, i: int)
    requires
        0 <= i <= s.len(),
    ensures
        i <= first_non_zero_from(s, i) <= s.len(),
    decreases s.len() - i,
{
    if i < s.len() && s[i] == '0' {
        lemma_first_non_zero_bounds(s, i + 1);
    }
}

fn find_dash(chars: &Vec<char>, from: usize) -> (r: usize)
    requires
        from <= chars@.len(),
    ensures
        r == next_dash(chars@, from as int),
{
    let mut i = from;
    while i < chars.len() && chars[i] != '-'
        invariant
            from <= i <= chars@.len(),
            next_dash(chars@, i as int) == next_dash(chars@, from as int),
        decreases chars.len() - i,
    {
        i = i + 1;
    }
    i
}

fn skip_zeros(chars: &Vec<char>, from: usize, to: usize) -> (r: usize)
    requires
        from <= to <= chars@.len(),
    ensures
        from + r <= to,
        r == first_non_zero_from(chars@.subrange(from as int, to as int), 0),
{
    let ghost part = chars@.subrange(from as int, to as int);
    let mut i = from;
    while i < to && chars[i] == '0'
        invariant
            from <= i <= to <= chars@.len(),
            part == chars@.subrange(from as int, to as int),
            first_non_zero_from(part, i - from) == first_non_zero_from(part, 0),
        decreases to - i,
    {
        assert(part[i - from] == chars@[i as int]);
        i = i + 1;
    }
    if i < to {
        assert(part[i - from] == chars@[i as int]);
    }
    i - from
}

/// A `YYYY-MM-DD` date written as `YYYY年M月D日`, as [`chinese_date`] says.
pub fn format_chinese_date(value: &str) -> (r: String)
    requires
        has_date_fields(value@),
    ensures
        r@ == chinese_date(value@),
{
    let chars = chars_of(value);
    let n = chars.len();
    let d0 = find_dash(&chars, 0);
    proof { lemma_next_dash_bounds(value@, 0); }
    let d1 = find_dash(&chars, d0 + 1);
    proof { lemma_next_dash_bounds(value@, d0 + 1); }
    let d2 = if d1 < n {
        find_dash(&chars, d1 + 1)
    } else {
        n
    };
    proof { lemma_next_dash_bounds(value@, d1 + 1); }
    let month_skip = skip_zeros(&chars, d0 + 1, d1);
    let day_skip = skip_zeros(&chars, d1 + 1, d2);
    proof {
        lemma_first_non_zero_bounds(value@.subrange(d0 + 1, d1 as int), 0);
        lemma_first_non_zero_bounds(value@.subrange(d1 + 1, d2 as int), 0);
    }
    let mut r = String::from_str(value.substring_char(0, d0));
    r.append("年");
    r.append(value.substring_char(d0 + 1 + month_skip, d1));
    r.append("月");
    r.append(value.substring_char(d1 + 1 + day_skip, d2));
    r.append("日");
    assert(value@.subrange(d0 + 1, d1 as int).subrange(month_skip as int, (d1 - (d0 + 1)) as int) =~= value@.subrange(d0 + 1 + month_skip, d1 as int));
    assert(value@.subrange(d1 + 1, d2 as int).subrange(day_skip as int, (d2 - (d1 + 1)) as int) =~= value@.subrange(d1 + 1 + day_skip, d2 as int));
    assert(r@ =~= chinese_date(value@));
    r
}

/// The week number as written in a sample title: the number that the ISO
/// week text spells, or 0.
pub open spec fn week_label(week: Seq<char>) -> Seq<char> {
    decimal(
        match parse_u32_spec(week) {
            Some(n) => n as nat,
            None => 0,
        },
    )
}

/// The title and content of the sample for one week:
/// `YYYY年M月D日 - YYYY年M月D日，第N周`.
pub open spec fn sample_title(start: Seq<char>, end: Seq<char>, week: Seq<char>) -> Seq<char> {
    chinese_date(start) + " - "@ + chinese_date(end) + "，第"@ + week_label(week) + "周"@
}

/// The statement that adds the sample for the week from `start` to `end`
/// unless a record with its id exists.
pub open spec fn sample_week_stmt(start: Seq<char>, end: Seq<char>, week: Seq<char>, menu_id: Seq<char>) -> StatementView {
    let title = sample_title(start, end, week);
    stmt(
        SEED_WEEKLY_SQL@,
        seq![
            SqlValueView::Text("management-weekly-"@ + start),
            SqlValueView::Text(start),
            SqlValueView::Text(title),
            SqlValueView::Text(title),
            SqlValueView::Text(menu_id),
        ],
    )
}

/// The statement that adds the sample weekly report for one week.
pub fn sample_week_statement(start: &str, end: &str, week: &str, menu_id: &str) -> (s: SqlStatement)
    requires
        has_date_fields(start@),
        has_date_fields(end@),
    ensures
        s@ == sample_week_stmt(start@, end@, week@, menu_id@),
{
    let week_number: u32 = match parse_u32(week) {
        Some(n) => n,
        None => 0,
    };
    let mut title = format_chinese_date(start);
    title.append(" - ");
    title.append(format_chinese_date(end).as_str());
    title.append("，第");
    push_decimal(&mut title, week_number as u64);
    title.append("周");
    assert(title@ =~= sample_title(start@, end@, week@));
    let mut id = String::from_str("management-weekly-");
    id.append(start);
    let mut params: Vec<SqlValue> = Vec::new();
    params.push(SqlValue::Text(id));
    params.push(SqlValue::Text(String::from_str(start)));
    params.push(SqlValue::Text(title.clone()));
    params.push(SqlValue::Text(title));
    params.push(SqlValue::Text(String::from_str(menu_id)));
    let s = SqlStatement { sql: String::from_str(SEED_WEEKLY_SQL), params };
    assert(s@.params =~= sample_week_stmt(start@, end@, week@, menu_id@).params);
    s
}

} // verus!
