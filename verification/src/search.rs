//! How a record search becomes one SQL statement over the `records` table:
//! which filters apply, which values fill the placeholders, and how the page
//! is bounded.

use vstd::prelude::*;
use crate::models::{RecordQuery, RecordQueryView, SqlStatement, SqlValue, SqlValueView, StatementView, stmt};
use crate::records::record_type_name;
use crate::text::{blank, is_blank, trim, trimmed};

verus! {

pub const LIST_RECORDS_SQL: &'static str = "SELECT id, type, record_date, title, content, tags, metadata, status, created_at, updated_at, menu_id FROM records WHERE 1 = 1";

pub const MENU_FILTER_SQL: &'static str = " AND menu_id = ?";

pub const TYPE_FILTER_SQL: &'static str = " AND type = ?";

pub const KEYWORD_FILTER_SQL: &'static str = " AND (title LIKE ? OR content LIKE ? OR tags LIKE ?)";

pub const DATE_FROM_FILTER_SQL: &'static str = " AND record_date >= ?";

pub const DATE_TO_FILTER_SQL: &'static str = " AND record_date <= ?";

pub const TAG_FILTER_SQL: &'static str = " AND tags LIKE ?";

pub const ORDER_AND_PAGE_SQL: &'static str = " ORDER BY record_date DESC, updated_at DESC LIMIT ? OFFSET ?";

/// Number of records in a page when the query names none.
pub const DEFAULT_PAGE_SIZE: u32 = 15;

/// Largest page that a query may ask for.
pub const MAX_PAGE_SIZE: u32 = 100;

/// A `LIKE` pattern that matches any text containing `s`.
pub open spec fn contains_pattern(s: Seq<char>) -> Seq<char> {
    "%"@ + s + "%"@
}

/// The keyword that filters a search: the trimmed keyword, unless it is blank.
pub open spec fn search_keyword(k: Option<Seq<char>>) -> Option<Seq<char>> {
    match k {
        Some(s) => if is_blank(s) {
            None
        } else {
            Some(trimmed(s))
        },
        None => None,
    }
}

/// A date bound that filters a search: any non-empty text.
pub open spec fn date_bound(d: Option<Seq<char>>) -> Option<Seq<char>> {
    match d {
        Some(s) => if s.len() == 0 {
            None
        } else {
            Some(s)
        },
        None => None,
    }
}

/// The patterns of the tags that filter a search: one for each tag that is
/// not blank, trimmed, in order.
pub open spec fn tag_patterns(tags: Seq<Seq<char>>) -> Seq<Seq<char>>
    decreases tags.len(),
{
    if tags.len() == 0 {
        Seq::empty()
    } else {
        let before = tag_patterns(tags.drop_last());
        if is_blank(tags.last()) {
            before
        } else {
            before.push(contains_pattern(trimmed(tags.last())))
        }
    }
}

/// The tag patterns of a query that may name no tags.
pub open spec fn query_tag_patterns(tags: Option<Seq<Seq<char>>>) -> Seq<Seq<char>> {
    match tags {
        Some(t) => tag_patterns(t),
        None => Seq::empty(),
    }
}

/// `s` written `n` times.
pub open spec fn repeated(s: Seq<char>, n: nat) -> Seq<char>
    decreases n,
{
    if n == 0 {
        Seq::empty()
    } else {
        repeated(s, (n - 1) as nat) + s
    }
}

/// The page size of a search: 15 when none is named, else the named size
/// brought into 1 through 100.
pub open spec fn page_size(limit: Option<u32>) -> i64 {
    let n = match limit {
        Some(n) => n,
        None => 15,
    };
    if n < 1 {
        1
    } else if n > 100 {
        100
    } else {
        n as i64
    }
}

/// A page never holds fewer than one or more than one hundred records.
pub proof fn lemma_page_size_bounds(limit: Option<u32>)
    ensures
        1 <= page_size(limit) <= 100,
        limit is None ==> page_size(limit) == 15,
{
}

/// The number of records skipped: 0 when none is named.
pub open spec fn page_offset(offset: Option<u32>) -> i64 {
    match offset {
        Some(n) => n as i64,
        None => 0,
    }
}

/// `piece` when `present`, else nothing.
pub open spec fn when(present: bool, piece: Seq<char>) -> Seq<char> {
    if present {
        piece
    } else {
        Seq::empty()
    }
}

/// The text of the search statement for `q`.
pub open spec fn search_sql(q: RecordQueryView) -> Seq<char> {
    LIST_RECORDS_SQL@ + when(q.menu_id is Some, MENU_FILTER_SQL@) + when(
        q.record_type is Some,
        TYPE_FILTER_SQL@,
    ) + when(search_keyword(q.keyword) is Some, KEYWORD_FILTER_SQL@) + when(
        date_bound(q.date_from) is Some,
        DATE_FROM_FILTER_SQL@,
    ) + when(date_bound(q.date_to) is Some, DATE_TO_FILTER_SQL@) + repeated(
        TAG_FILTER_SQL@,
        query_tag_patterns(q.tags).len(),
    ) + ORDER_AND_PAGE_SQL@
}

/// Text placeholder values, one per text.
pub open spec fn text_values(texts: Seq<Seq<char>>) -> Seq<SqlValueView> {
    texts.map_values(|t: Seq<char>| SqlValueView::Text(t))
}

/// The placeholder value of the menu filter.
pub open spec fn menu_params(q: RecordQueryView) -> Seq<SqlValueView> {
    match q.menu_id {
        Some(m) => seq![SqlValueView::Text(m)],
        None => Seq::empty(),
    }
}

/// The placeholder value of the record-type filter.
pub open spec fn type_params(q: RecordQueryView) -> Seq<SqlValueView> {
    match q.record_type {
        Some(t) => seq![SqlValueView::Text(record_type_name(t))],
        None => Seq::empty(),
    }
}

/// The placeholder values of the keyword filter: the same pattern for the
/// title, the content and the tags.
pub open spec fn keyword_params(q: RecordQueryView) -> Seq<SqlValueView> {
    match search_keyword(q.keyword) {
        Some(k) => seq![
            SqlValueView::Text(contains_pattern(k)),
            SqlValueView::Text(contains_pattern(k)),
            SqlValueView::Text(contains_pattern(k)),
        ],
        None => Seq::empty(),
    }
}

/// The placeholder value of a date bound.
pub open spec fn date_params(d: Option<Seq<char>>) -> Seq<SqlValueView> {
    match date_bound(d) {
        Some(b) => seq![SqlValueView::Text(b)],
        None => Seq::empty(),
    }
}

/// The placeholder values of the page bounds.
pub open spec fn page_params(q: RecordQueryView) -> Seq<SqlValueView> {
    seq![SqlValueView::Integer(page_size(q.limit)), SqlValueView::Integer(page_offset(q.offset))]
}

/// The placeholder values of the search statement for `q`, in the order of
/// the placeholders.
pub open spec fn search_params(q: RecordQueryView) -> Seq<SqlValueView> {
    menu_params(q) + type_params(q) + keyword_params(q) + date_params(q.date_from) + date_params(
        q.date_to,
    ) + text_values(query_tag_patterns(q.tags)) + page_params(q)
}

/// The views of a list of placeholder values.
pub open spec fn values_view(ps: Seq<SqlValue>) -> Seq<SqlValueView> {
    ps.map_values(|p: SqlValue| p@)
}

fn like_pattern(core: &str) -> (r: String)
    ensures
        r@ == contains_pattern(core@),
{
    let mut p = String::from_str("%");
    p.append(core);
    p.append("%");
    p
}

fn nothing() -> (r: &'static str)
    ensures
        r@ == Seq::<char>::empty(),
{
    proof {
        reveal_strlit("");
    }
    ""
}

/// Appends `clause` to the statement text and `values` to its placeholders.
fn extend(sql: &mut String, params: &mut Vec<SqlValue>, clause: &str, values: Vec<SqlValue>)
    ensures
        final(sql)@ == old(sql)@ + clause@,
        values_view(final(params)@) == values_view(old(params)@) + values_view(values@),
{
    sql.append(clause);
    let ghost added = values@;
    let mut values = values;
    params.append(&mut values);
    assert(values_view(params@) =~= values_view(old(params)@) + values_view(added));
}

fn one_value(v: SqlValue) -> (r: Vec<SqlValue>)
    ensures
        values_view(r@) == seq![v@],
{
    let mut r: Vec<SqlValue> = Vec::new();
    r.push(v);
    assert(values_view(r@) =~= seq![v@]);
    r
}

fn no_values() -> (r: Vec<SqlValue>)
    ensures
        values_view(r@) == Seq::<SqlValueView>::empty(),
{
    let r: Vec<SqlValue> = Vec::new();
    assert(values_view(r@) =~= Seq::<SqlValueView>::empty());
    r
}

fn menu_filter(q: &RecordQuery) -> (r: (&'static str, Vec<SqlValue>))
    ensures
        r.0@ == when(q@.menu_id is Some, MENU_FILTER_SQL@),
        values_view(r.1@) == menu_params(q@),
{
    match &q.menu_id {
        Some(m) => (MENU_FILTER_SQL, one_value(SqlValue::Text(m.clone()))),
        None => (nothing(), no_values()),
    }
}

fn type_filter(q: &RecordQuery) -> (r: (&'static str, Vec<SqlValue>))
    ensures
        r.0@ == when(q@.record_type is Some, TYPE_FILTER_SQL@),
        values_view(r.1@) == type_params(q@),
{
    match &q.record_type {
        Some(t) => (TYPE_FILTER_SQL, one_value(SqlValue::Text(String::from_str(t.stored_name())))),
        None => (nothing(), no_values()),
    }
}

fn keyword_filter(q: &RecordQuery) -> (r: (&'static str, Vec<SqlValue>))
    ensures
        r.0@ == when(search_keyword(q@.keyword) is Some, KEYWORD_FILTER_SQL@),
        values_view(r.1@) == keyword_params(q@),
{
    match &q.keyword {
        Some(keyword) => {
            if blank(keyword.as_str()) {
                (nothing(), no_values())
            } else {
                let core = trim(keyword.as_str());
                let pattern = like_pattern(core.as_str());
                let mut values: Vec<SqlValue> = Vec::new();
                values.push(SqlValue::Text(pattern.clone()));
                values.push(SqlValue::Text(pattern.clone()));
                values.push(SqlValue::Text(pattern));
                assert(values_view(values@) =~= keyword_params(q@));
                (KEYWORD_FILTER_SQL, values)
            }
        },
        None => (nothing(), no_values()),
    }
}

fn date_filter(d: &Option<String>, clause: &'static str) -> (r: (&'static str, Vec<SqlValue>))
    ensures
        r.0@ == when(date_bound(d.deep_view()) is Some, clause@),
        values_view(r.1@) == date_params(d.deep_view()),
{
    match d {
        Some(b) => {
            if b.unicode_len() == 0 {
                (nothing(), no_values())
            } else {
                (clause, one_value(SqlValue::Text(b.clone())))
            }
        },
        None => (nothing(), no_values()),
    }
}

fn append_tag_filters(tags: &Vec<String>, sql: &mut String, params: &mut Vec<SqlValue>)
    ensures
        final(sql)@ == old(sql)@ + repeated(TAG_FILTER_SQL@, tag_patterns(tags.deep_view()).len()),
        values_view(final(params)@) == values_view(old(params)@) + text_values(
            tag_patterns(tags.deep_view()),
        ),
{
    let mut i: usize = 0;
    assert(tags.deep_view().take(0) =~= Seq::<Seq<char>>::empty());
    assert(text_values(Seq::<Seq<char>>::empty()) =~= Seq::<SqlValueView>::empty());
    assert(sql@ =~= old(sql)@ + Seq::<char>::empty());
    assert(values_view(params@) =~= values_view(old(params)@) + Seq::<SqlValueView>::empty());
    while i < tags.len()
        invariant
            i <= tags.len(),
            sql@ == old(sql)@ + repeated(TAG_FILTER_SQL@, tag_patterns(tags.deep_view().take(i as int)).len()),
            values_view(params@) == values_view(old(params)@) + text_values(
                tag_patterns(tags.deep_view().take(i as int)),
            ),
        decreases tags.len() - i,
    {
        let ghost before = tags.deep_view().take(i as int);
        assert(tags.deep_view().take(i + 1).drop_last() =~= before);
        assert(tags.deep_view().take(i + 1).last() == tags[i as int]@);
        let tag = &tags[i];
        if !blank(tag.as_str()) {
            let core = trim(tag.as_str());
            let pattern = like_pattern(core.as_str());
            let ghost pat = pattern@;
            extend(sql, params, TAG_FILTER_SQL, one_value(SqlValue::Text(pattern)));
            assert(text_values(tag_patterns(tags.deep_view().take(i + 1))) =~= text_values(tag_patterns(before)) + seq![SqlValueView::Text(pat)]);
            assert(sql@ =~= old(sql)@ + repeated(TAG_FILTER_SQL@, tag_patterns(tags.deep_view().take(i + 1)).len()));
        }
        i = i + 1;
    }
    assert(tags.deep_view().take(tags.len() as int) =~= tags.deep_view());
}

/// The statement that runs the search `query`: every filter that the query
/// names and that is not blank narrows it, newest records first, one page.
pub fn list_records_statement(query: &RecordQuery) -> (s: SqlStatement)
    ensures
        s@ == stmt(search_sql(query@), search_params(query@)),
{
    let mut sql = String::from_str(LIST_RECORDS_SQL);
    let mut params: Vec<SqlValue> = Vec::new();
    assert(values_view(params@) =~= Seq::<SqlValueView>::empty());
    let (clause, values) = menu_filter(query);
    extend(&mut sql, &mut params, clause, values);
    let (clause, values) = type_filter(query);
    extend(&mut sql, &mut params, clause, values);
    let (clause, values) = keyword_filter(query);
    extend(&mut sql, &mut params, clause, values);
    let (clause, values) = date_filter(&query.date_from, DATE_FROM_FILTER_SQL);
    extend(&mut sql, &mut params, clause, values);
    let (clause, values) = date_filter(&query.date_to, DATE_TO_FILTER_SQL);
    extend(&mut sql, &mut params, clause, values);
    match &query.tags {
        Some(tags) => append_tag_filters(tags, &mut sql, &mut params),
        None => {
            assert(text_values(Seq::<Seq<char>>::empty()) =~= Seq::<SqlValueView>::empty());
            extend(&mut sql, &mut params, nothing(), no_values());
        },
    }
    let limit: u32 = match query.limit {
        Some(n) => n,
        None => DEFAULT_PAGE_SIZE,
    };
    let limit: u32 = if limit < 1 {
        1
    } else if limit > MAX_PAGE_SIZE {
        MAX_PAGE_SIZE
    } else {
        limit
    };
    let offset: u32 = match query.offset {
        Some(n) => n,
        None => 0,
    };
    let mut page: Vec<SqlValue> = Vec::new();
    page.push(SqlValue::Integer(limit as i64));
    page.push(SqlValue::Integer(offset as i64));
    assert(values_view(page@) =~= page_params(query@));
    extend(&mut sql, &mut params, ORDER_AND_PAGE_SQL, page);
    let s = SqlStatement { sql, params };
    assert(s@.params =~= search_params(query@));
    s
}

/// The page of a search starts exactly where the query says: the last
/// placeholder of the search statement is the query's offset, unchanged
/// however large (0 when none is named), and the one before it is the page
/// size, a named size brought into 1 through 100 (15 when none is named).
pub proof fn lemma_search_pages_at_the_query_offset(q: RecordQueryView)
    ensures
        search_params(q).len() >= 2,
        search_params(q).last() == SqlValueView::Integer(
            match q.offset {
                Some(n) => n as i64,
                None => 0i64,
            },
        ),
        search_params(q)[search_params(q).len() - 2] == SqlValueView::Integer(
            match q.limit {
                Some(n) => if n < 1 {
                    1i64
                } else if n > 100 {
                    100i64
                } else {
                    n as i64
                },
                None => 15i64,
            },
        ),
{
}

/// Two searches that differ only in their offset give the same statement
/// text and the same placeholders but the last, which is each one's offset:
/// moving to another page changes nothing but where the page starts.
pub proof fn lemma_offset_changes_only_the_page_start(q: RecordQueryView, n: u32)
    ensures
        search_sql(RecordQueryView { offset: Some(n), ..q }) == search_sql(q),
        search_params(RecordQueryView { offset: Some(n), ..q }) == search_params(q).drop_last().push(
            SqlValueView::Integer(n as i64),
        ),
{
    let q2 = RecordQueryView { offset: Some(n), ..q };
    assert(search_params(q2) =~= search_params(q).drop_last().push(SqlValueView::Integer(n as i64)));
}

/// Each filter of a search binds its own value, in the order of the filters:
/// the menu id first when a menu is named; then the stored name of the record
/// type when a type is named; then, when the keyword is not blank, the
/// trimmed keyword between `%` signs, once for the title, the content and
/// the tags; and the page bounds last.
pub proof fn lemma_search_binds_each_filter(q: RecordQueryView)
    ensures
        q.menu_id matches Some(m) ==> search_params(q)[0] == SqlValueView::Text(m),
        q.record_type matches Some(t) ==> search_params(q)[if q.menu_id is Some {
            1int
        } else {
            0int
        }] == SqlValueView::Text(record_type_name(t)),
        q.keyword is Some && !is_blank(q.keyword->0) ==> ({
            let at = (if q.menu_id is Some {
                1int
            } else {
                0int
            }) + (if q.record_type is Some {
                1int
            } else {
                0int
            });
            let pattern = SqlValueView::Text("%"@ + trimmed(q.keyword->0) + "%"@);
            &&& search_params(q)[at] == pattern
            &&& search_params(q)[at + 1] == pattern
            &&& search_params(q)[at + 2] == pattern
        }),
        search_params(q).len() == (if q.menu_id is Some {
            1int
        } else {
            0int
        }) + (if q.record_type is Some {
            1int
        } else {
            0int
        }) + (if q.keyword is Some && !is_blank(q.keyword->0) {
            3int
        } else {
            0int
        }) + date_params(q.date_from).len() + date_params(q.date_to).len() + query_tag_patterns(q.tags).len()
            + 2,
{
    let a = menu_params(q);
    let b = type_params(q);
    let c = keyword_params(q);
    let rest = date_params(q.date_from) + date_params(q.date_to) + text_values(query_tag_patterns(q.tags))
        + page_params(q);
    assert(search_params(q) =~= a + b + c + rest);
    assert(text_values(query_tag_patterns(q.tags)).len() == query_tag_patterns(q.tags).len());
    assert forall|j: int| 0 <= j < c.len() implies (a + b + c + rest)[a.len() + b.len() + j] == c[j] by {
        assert((a + b + c + rest)[a.len() + b.len() + j] == (a + b + c)[a.len() + b.len() + j]);
    }
    if q.record_type is Some {
        assert((a + b + c + rest)[a.len() as int] == (a + b)[a.len() as int]);
    }
    if q.menu_id is Some {
        assert((a + b + c + rest)[0] == a[0]);
    }
}

} // verus!
