//! The SQL statements the diary store runs: their text, the values bound to
//! their numbered placeholders, and the checks made before they run.
use crate::cli::join;
use crate::text::{decimal, push_decimal, push_signed_decimal, signed_decimal};
use vstd::prelude::*;

verus! {

/// Order in which entries are listed by creation time (ties broken by id).
#[derive(Debug, Clone, Copy, PartialEq, Eq, Structural)]
pub enum SortOrder {
    ASC,
    DESC,
}

/// The SQL dialect of the database behind the store.
#[derive(Debug, Clone, Copy, PartialEq, Eq, Structural)]
pub enum Dialect {
    Sqlite,
    Postgres,
}

/// A value bound to a placeholder of a statement.
#[derive(Debug)]
pub enum SqlValue {
    Int(i64),
    Text(String),
    Bool(bool),
}

/// The mathematical value of a bound parameter.
pub enum ParamView {
    Int(int),
    Text(Seq<char>),
    Bool(bool),
}

impl View for SqlValue {
    type V = ParamView;

    open spec fn view(&self) -> ParamView {
        match self {
            SqlValue::Int(i) => ParamView::Int(*i as int),
            SqlValue::Text(s) => ParamView::Text(s@),
            SqlValue::Bool(b) => ParamView::Bool(*b),
        }
    }
}

/// A statement to run: its text, and the values of `$1`, `$2`, ... in order.
#[derive(Debug)]
pub struct Statement {
    pub sql: String,
    pub params: Vec<SqlValue>,
}

impl View for Statement {
    type V = (Seq<char>, Seq<ParamView>);

    open spec fn view(&self) -> (Seq<char>, Seq<ParamView>) {
        (self.sql@, self.params@.map_values(|p: SqlValue| p@))
    }
}

/// Why the store refuses a request before running anything.
#[derive(Debug, Clone, Copy, PartialEq, Eq, Structural)]
pub enum DbError {
    /// A page number or a page size below one.
    PageNotPositive,
    /// No entry has the given id.
    EntryNotFound(i64),
    /// An update that changes no field.
    NothingToUpdate,
}

/// The message a refusal is reported with.
pub open spec fn db_error_message(e: DbError) -> Seq<char> {
    match e {
        DbError::PageNotPositive => "Page and per_page must be positive"@,
        DbError::EntryNotFound(id) => "Entry with id: "@ + signed_decimal(id as int)
            + " doesn't exist"@,
        DbError::NothingToUpdate => "At least one field must be provided for update"@,
    }
}

impl DbError {
    /// The message this refusal is reported with.
    pub fn message(&self) -> (r: String)
        ensures
            r@ == db_error_message(*self),
    {
        match self {
            DbError::PageNotPositive => String::from_str("Page and per_page must be positive"),
            DbError::EntryNotFound(id) => {
                let mut s = String::from_str("Entry with id: ");
                push_signed_decimal(&mut s, *id);
                s.append(" doesn't exist");
                s
            },
            DbError::NothingToUpdate => String::from_str(
                "At least one field must be provided for update",
            ),
        }
    }
}

/// The view of a statement result, for contracts.
pub open spec fn result_view(r: Result<Statement, DbError>) -> Result<
    (Seq<char>, Seq<ParamView>),
    DbError,
> {
    match r {
        Ok(st) => Ok(st@),
        Err(e) => Err(e),
    }
}

/// `$n`, the text of the n-th placeholder.
pub open spec fn placeholder(n: nat) -> Seq<char> {
    "$"@ + decimal(n)
}

pub(crate) fn push_placeholder(out: &mut String, n: u64)
    ensures
        final(out)@ == old(out)@ + placeholder(n as nat),
{
    out.append("$");
    push_decimal(out, n);
    assert(final(out)@ =~= old(out)@ + placeholder(n as nat));
}

pub open spec fn order_keyword(o: SortOrder) -> Seq<char> {
    match o {
        SortOrder::ASC => "ASC"@,
        SortOrder::DESC => "DESC"@,
    }
}

fn order_str(o: SortOrder) -> (r: &'static str)
    ensures
        r@ == order_keyword(o),
{
    match o {
        SortOrder::ASC => "ASC",
        SortOrder::DESC => "DESC",
    }
}

/// The comparison that matches entry content against a pattern: `LIKE` in
/// SQLite, case-insensitive `ILIKE` in PostgreSQL.
pub open spec fn content_match(d: Dialect) -> Seq<char> {
    match d {
        Dialect::Sqlite => "content LIKE "@,
        Dialect::Postgres => "content ILIKE "@,
    }
}

fn content_match_str(d: Dialect) -> (r: &'static str)
    ensures
        r@ == content_match(d),
{
    match d {
        Dialect::Sqlite => "content LIKE ",
        Dialect::Postgres => "content ILIKE ",
    }
}

/// The pattern that matches content holding `s` anywhere.
pub open spec fn like_pattern(s: Seq<char>) -> Seq<char> {
    "%"@ + s + "%"@
}

pub open spec fn opt_str_view(o: Option<&str>) -> Option<Seq<char>> {
    match o {
        Some(s) => Some(s@),
        None => None,
    }
}

// ---------------------------------------------------------------- listing

/// The page asked for, 1 when none is given.
pub open spec fn effective_page(page: Option<i64>) -> int {
    match page {
        Some(p) => p as int,
        None => 1,
    }
}

/// The page size asked for, 10 when none is given.
pub open spec fn effective_per_page(per_page: Option<i64>) -> int {
    match per_page {
        Some(p) => p as int,
        None => 10,
    }
}

/// The order asked for, newest first when none is given.
pub open spec fn effective_sort(sort: Option<SortOrder>) -> SortOrder {
    match sort {
        Some(s) => s,
        None => SortOrder::DESC,
    }
}

/// Page and page size are both at least one.
pub open spec fn paging_valid(page: Option<i64>, per_page: Option<i64>) -> bool {
    effective_page(page) >= 1 && effective_per_page(per_page) >= 1
}

/// How many entries come before the page.
pub open spec fn page_offset(page: Option<i64>, per_page: Option<i64>) -> int {
    (effective_page(page) - 1) * effective_per_page(per_page)
}

/// The offset of a valid page fits in an `i64`.
pub open spec fn paging_fits(page: Option<i64>, per_page: Option<i64>) -> bool {
    paging_valid(page, per_page) ==> page_offset(page, per_page) <= i64::MAX
}

/// The `WHERE` clause of a listing, with the pinned filter first.
pub open spec fn listing_filter(d: Dialect, by_pinned: bool, by_substring: bool) -> Seq<char> {
    if by_pinned && by_substring {
        " WHERE "@ + "pinned = "@ + placeholder(1) + " AND "@ + content_match(d) + placeholder(2)
    } else if by_pinned {
        " WHERE "@ + "pinned = "@ + placeholder(1)
    } else if by_substring {
        " WHERE "@ + content_match(d) + placeholder(1)
    } else {
        Seq::empty()
    }
}

/// The number of filter parameters of a listing.
pub open spec fn filter_count(by_pinned: bool, by_substring: bool) -> nat {
    (if by_pinned { 1nat } else { 0nat }) + (if by_substring { 1nat } else { 0nat })
}

/// The text of a listing query.
pub open spec fn listing_sql(d: Dialect, by_pinned: bool, by_substring: bool, o: SortOrder) -> Seq<
    char,
> {
    let k = filter_count(by_pinned, by_substring);
    "SELECT * FROM entries"@ + listing_filter(d, by_pinned, by_substring)
        + " ORDER BY created_at "@ + order_keyword(o) + ", id "@ + order_keyword(o)
        + " LIMIT "@ + placeholder(k + 1) + " OFFSET "@ + placeholder(k + 2) + ";"@
}

/// The parameters of a listing: the filters, then the page size and the offset.
pub open spec fn listing_params(
    pinned: Option<bool>,
    substring: Option<Seq<char>>,
    limit: int,
    offset: int,
) -> Seq<ParamView> {
    let p = match pinned {
        Some(b) => seq![ParamView::Bool(b)],
        None => Seq::empty(),
    };
    let s = match substring {
        Some(t) => seq![ParamView::Text(like_pattern(t))],
        None => Seq::empty(),
    };
    p + s + seq![ParamView::Int(limit), ParamView::Int(offset)]
}

/// What listing entries asks of the database, or why it is refused.
pub open spec fn listing_spec(
    d: Dialect,
    page: Option<i64>,
    per_page: Option<i64>,
    sort: Option<SortOrder>,
    pinned: Option<bool>,
    substring: Option<Seq<char>>,
) -> Result<(Seq<char>, Seq<ParamView>), DbError> {
    if !paging_valid(page, per_page) {
        Err(DbError::PageNotPositive)
    } else {
        Ok(
            (
                listing_sql(d, pinned is Some, substring is Some, effective_sort(sort)),
                listing_params(
                    pinned,
                    substring,
                    effective_per_page(per_page),
                    page_offset(page, per_page),
                ),
            ),
        )
    }
}

fn listing_filter_string(d: Dialect, by_pinned: bool, by_substring: bool) -> (r: String)
    ensures
        r@ == listing_filter(d, by_pinned, by_substring),
{
    let mut s = String::new();
    if by_pinned && by_substring {
        s.append(" WHERE ");
        s.append("pinned = ");
        push_placeholder(&mut s, 1);
        s.append(" AND ");
        s.append(content_match_str(d));
        push_placeholder(&mut s, 2);
    } else if by_pinned {
        s.append(" WHERE ");
        s.append("pinned = ");
        push_placeholder(&mut s, 1);
    } else if by_substring {
        s.append(" WHERE ");
        s.append(content_match_str(d));
        push_placeholder(&mut s, 1);
    }
    assert(s@ =~= listing_filter(d, by_pinned, by_substring));
    s
}

fn like_pattern_string(t: &str) -> (r: String)
    ensures
        r@ == like_pattern(t@),
{
    let mut s = String::from_str("%");
    s.append(t);
    s.append("%");
    s
}

/// The query that lists one page of entries, optionally only pinned or only
/// unpinned ones, optionally only those whose content holds `substring`.
/// Pages count from 1; by default page 1 of 10 entries, newest first.
pub fn read_entries_statement(
    dialect: Dialect,
    page: Option<i64>,
    per_page: Option<i64>,
    sort: Option<SortOrder>,
    pinned: Option<bool>,
    substring: Option<&str>,
) -> (r: Result<Statement, DbError>)
    requires
        paging_fits(page, per_page),
    ensures
        result_view(r) == listing_spec(
            dialect,
            page,
            per_page,
            sort,
            pinned,
            opt_str_view(substring),
        ),
{
    let page_number: i64 = match page {
        Some(p) => p,
        None => 1,
    };
    let page_size: i64 = match per_page {
        Some(p) => p,
        None => 10,
    };
    if page_number < 1 || page_size < 1 {
        return Err(DbError::PageNotPositive);
    }
    let order = match sort {
        Some(s) => s,
        None => SortOrder::DESC,
    };
    assert(0 <= (page_number - 1) * page_size) by (nonlinear_arith)
        requires
            page_number >= 1,
            page_size >= 1,
    ;
    let offset: i64 = (page_number - 1) * page_size;

    let by_pinned = pinned.is_some();
    let by_substring = substring.is_some();
    let k: u64 = if by_pinned && by_substring {
        2
    } else if by_pinned || by_substring {
        1
    } else {
        0
    };
    let filter = listing_filter_string(dialect, by_pinned, by_substring);
    let mut sql = String::from_str("SELECT * FROM entries");
    sql.append(filter.as_str());
    sql.append(" ORDER BY created_at ");
    sql.append(order_str(order));
    sql.append(", id ");
    sql.append(order_str(order));
    sql.append(" LIMIT ");
    push_placeholder(&mut sql, k + 1);
    sql.append(" OFFSET ");
    push_placeholder(&mut sql, k + 2);
    sql.append(";");

    let mut params: Vec<SqlValue> = Vec::new();
    match pinned {
        Some(b) => params.push(SqlValue::Bool(b)),
        None => {},
    }
    match substring {
        Some(t) => params.push(SqlValue::Text(like_pattern_string(t))),
        None => {},
    }
    params.push(SqlValue::Int(page_size));
    params.push(SqlValue::Int(offset));

    let st = Statement { sql, params };
    assert(st@.1 =~= listing_params(pinned, opt_str_view(substring), page_size as int, offset as int));
    assert(st@.0 =~= listing_sql(dialect, by_pinned, by_substring, order));
    Ok(st)
}

// ---------------------------------------------------------------- single entries

/// The statement that stores a new entry and returns its row.
pub open spec fn create_spec(content: Seq<char>, pinned: bool) -> (Seq<char>, Seq<ParamView>) {
    (
        "INSERT INTO entries (content, pinned) VALUES("@ + placeholder(1) + ", "@ + placeholder(2)
            + ") RETURNING *;"@,
        seq![ParamView::Text(content), ParamView::Bool(pinned)],
    )
}

/// The statement that stores a new entry with the given content and pin.
pub fn create_entry_statement(content: &str, pinned: bool) -> (r: Statement)
    ensures
        r@ == create_spec(content@, pinned),
{
    let mut params: Vec<SqlValue> = Vec::new();
    params.push(SqlValue::Text(String::from_str(content)));
    params.push(SqlValue::Bool(pinned));
    let mut sql = String::from_str("INSERT INTO entries (content, pinned) VALUES(");
    push_placeholder(&mut sql, 1);
    sql.append(", ");
    push_placeholder(&mut sql, 2);
    sql.append(") RETURNING *;");
    let st = Statement { sql, params };
    assert(st@.0 =~= create_spec(content@, pinned).0);
    assert(st@.1 =~= create_spec(content@, pinned).1);
    st
}

/// The query that finds whether an entry with the id exists: it yields a row
/// exactly when one does.
pub open spec fn exists_spec(id: i64) -> (Seq<char>, Seq<ParamView>) {
    ("SELECT 1 FROM entries WHERE id = "@ + placeholder(1) + ";"@, seq![ParamView::Int(id as int)])
}

/// The query that finds whether an entry with the id exists.
pub fn entry_exists_statement(id: i64) -> (r: Statement)
    ensures
        r@ == exists_spec(id),
{
    let mut params: Vec<SqlValue> = Vec::new();
    params.push(SqlValue::Int(id));
    let mut sql = String::from_str("SELECT 1 FROM entries WHERE id = ");
    push_placeholder(&mut sql, 1);
    sql.append(";");
    let st = Statement { sql, params };
    assert(st@.0 =~= exists_spec(id).0);
    assert(st@.1 =~= exists_spec(id).1);
    st
}

/// The query that reads the entry with the id.
pub open spec fn read_one_spec(id: i64) -> (Seq<char>, Seq<ParamView>) {
    ("SELECT * FROM entries WHERE id = "@ + placeholder(1) + ";"@, seq![ParamView::Int(id as int)])
}

/// The query that reads the entry with the id.
pub fn read_entry_statement(id: i64) -> (r: Statement)
    ensures
        r@ == read_one_spec(id),
{
    let mut params: Vec<SqlValue> = Vec::new();
    params.push(SqlValue::Int(id));
    let mut sql = String::from_str("SELECT * FROM entries WHERE id = ");
    push_placeholder(&mut sql, 1);
    sql.append(";");
    let st = Statement { sql, params };
    assert(st@.0 =~= read_one_spec(id).0);
    assert(st@.1 =~= read_one_spec(id).1);
    st
}

/// The `SET` list of an update: content first, then the pin, numbered from `$2`.
pub open spec fn update_assignments(set_content: bool, set_pinned: bool) -> Seq<char> {
    if set_content && set_pinned {
        "content = "@ + placeholder(2) + ", "@ + "pinned = "@ + placeholder(3)
    } else if set_content {
        "content = "@ + placeholder(2)
    } else {
        "pinned = "@ + placeholder(2)
    }
}

/// What updating an entry asks of the database, given whether the entry
/// exists, or why it is refused. A missing entry is reported before a
/// request that changes nothing.
pub open spec fn update_spec(
    id: i64,
    content: Option<Seq<char>>,
    pinned: Option<bool>,
    exists: bool,
) -> Result<(Seq<char>, Seq<ParamView>), DbError> {
    if !exists {
        Err(DbError::EntryNotFound(id))
    } else if content is None && pinned is None {
        Err(DbError::NothingToUpdate)
    } else {
        Ok(
            (
                "UPDATE entries SET "@ + update_assignments(content is Some, pinned is Some)
                    + " WHERE id = "@ + placeholder(1) + " RETURNING *;"@,
                seq![ParamView::Int(id as int)] + match content {
                    Some(c) => seq![ParamView::Text(c)],
                    None => Seq::empty(),
                } + match pinned {
                    Some(b) => seq![ParamView::Bool(b)],
                    None => Seq::empty(),
                },
            ),
        )
    }
}

fn update_assignments_string(set_content: bool, set_pinned: bool) -> (r: String)
    requires
        set_content || set_pinned,
    ensures
        r@ == update_assignments(set_content, set_pinned),
{
    let mut s = String::new();
    if set_content {
        s.append("content = ");
        push_placeholder(&mut s, 2);
        if set_pinned {
            s.append(", ");
            s.append("pinned = ");
            push_placeholder(&mut s, 3);
        }
    } else {
        s.append("pinned = ");
        push_placeholder(&mut s, 2);
    }
    assert(s@ =~= update_assignments(set_content, set_pinned));
    s
}

/// The statement that changes the content, the pin, or both, of an existing
/// entry and returns its row; `exists` is whether the entry was found.
pub fn update_entry_statement(
    id: i64,
    content: Option<&str>,
    pinned: Option<bool>,
    exists: bool,
) -> (r: Result<Statement, DbError>)
    ensures
        result_view(r) == update_spec(id, opt_str_view(content), pinned, exists),
{
    if !exists {
        return Err(DbError::EntryNotFound(id));
    }
    if content.is_none() && pinned.is_none() {
        return Err(DbError::NothingToUpdate);
    }
    let assignments = update_assignments_string(content.is_some(), pinned.is_some());
    let mut sql = String::from_str("UPDATE entries SET ");
    sql.append(assignments.as_str());
    sql.append(" WHERE id = ");
    push_placeholder(&mut sql, 1);
    sql.append(" RETURNING *;");
    let mut params: Vec<SqlValue> = Vec::new();
    params.push(SqlValue::Int(id));
    match content {
        Some(c) => params.push(SqlValue::Text(String::from_str(c))),
        None => {},
    }
    match pinned {
        Some(b) => params.push(SqlValue::Bool(b)),
        None => {},
    }
    let st = Statement { sql, params };
    proof {
        let want = update_spec(id, opt_str_view(content), pinned, exists).unwrap();
        assert(st@.0 =~= want.0);
        assert(st@.1 =~= want.1);
    }
    Ok(st)
}

/// What deleting an entry asks of the database, given whether it exists.
pub open spec fn delete_spec(id: i64, exists: bool) -> Result<
    (Seq<char>, Seq<ParamView>),
    DbError,
> {
    if !exists {
        Err(DbError::EntryNotFound(id))
    } else {
        Ok(("DELETE FROM entries WHERE id = "@ + placeholder(1), seq![ParamView::Int(id as int)]))
    }
}

/// The statement that deletes an existing entry; `exists` is whether it was found.
pub fn delete_entry_statement(id: i64, exists: bool) -> (r: Result<Statement, DbError>)
    ensures
        result_view(r) == delete_spec(id, exists),
{
    if !exists {
        return Err(DbError::EntryNotFound(id));
    }
    let mut params: Vec<SqlValue> = Vec::new();
    params.push(SqlValue::Int(id));
    let mut sql = String::from_str("DELETE FROM entries WHERE id = ");
    push_placeholder(&mut sql, 1);
    let st = Statement { sql, params };
    assert(st@.0 =~= delete_spec(id, exists).unwrap().0);
    assert(st@.1 =~= delete_spec(id, exists).unwrap().1);
    Ok(st)
}

// ---------------------------------------------------------------- laws of listing

/// Listing with no page, no page size and no order is listing page 1 of 10
/// entries, newest first.
pub proof fn lemma_listing_defaults(
    d: Dialect,
    pinned: Option<bool>,
    substring: Option<Seq<char>>,
)
    ensures
        listing_spec(d, None, None, None, pinned, substring) == listing_spec(
            d,
            Some(1),
            Some(10),
            Some(SortOrder::DESC),
            pinned,
            substring,
        ),
{
}

/// A listing is refused exactly when the page or the page size is below one,
/// whatever the filters and the order.
pub proof fn lemma_listing_refused(
    d: Dialect,
    page: Option<i64>,
    per_page: Option<i64>,
    sort: Option<SortOrder>,
    pinned: Option<bool>,
    substring: Option<Seq<char>>,
)
    ensures
        listing_spec(d, page, per_page, sort, pinned, substring) is Err <==> (effective_page(page)
            < 1 || effective_per_page(per_page) < 1),
{
}

/// The pages of one size tile the entries in order: the next page starts
/// where the page before it ends, and a later page starts at or after the end
/// of an earlier one, so no entry is on two pages and none is skipped.
pub proof fn lemma_pages_tile(per_page: i64, p: i64, q: i64)
    requires
        per_page >= 1,
        1 <= p < q,
    ensures
        p < i64::MAX ==> page_offset(Some((p + 1) as i64), Some(per_page)) == page_offset(
            Some(p),
            Some(per_page),
        ) + per_page,
        page_offset(Some(p), Some(per_page)) + per_page <= page_offset(Some(q), Some(per_page)),
        page_offset(Some(1), Some(per_page)) == 0,
{
    assert((p + 1 - 1) * per_page == (p - 1) * per_page + per_page) by (nonlinear_arith);
    assert((1 - 1) * per_page == 0) by (nonlinear_arith);
    assert((p - 1) * per_page + per_page <= (q - 1) * per_page) by (nonlinear_arith)
        requires
            p < q,
            per_page >= 1,
    ;
}

/// Every entry position falls on exactly one page: position `i` (counting
/// from 0) is on page `i / per_page + 1`.
pub proof fn lemma_position_on_page(per_page: i64, i: int)
    requires
        per_page >= 1,
        i >= 0,
        i / (per_page as int) + 1 <= i64::MAX,
    ensures
        ({
            let p = (i / (per_page as int) + 1) as i64;
            page_offset(Some(p), Some(per_page)) <= i < page_offset(Some(p), Some(per_page))
                + per_page
        }),
{
    let pp = per_page as int;
    let p = (i / pp + 1) as i64;
    assert(page_offset(Some(p), Some(per_page)) == (i / pp) * pp);
    assert((i / pp) * pp <= i < (i / pp) * pp + pp) by (nonlinear_arith)
        requires
            pp >= 1,
            i >= 0,
    ;
}

/// The query that reads every entry, oldest first.
pub open spec fn all_entries_spec() -> (Seq<char>, Seq<ParamView>) {
    ("SELECT * FROM entries ORDER BY created_at ASC, id ASC;"@, Seq::empty())
}

/// The query that reads every entry, oldest first (ties by id).
pub fn all_entries_statement() -> (r: Statement)
    ensures
        r@ == all_entries_spec(),
{
    let st = Statement {
        sql: String::from_str("SELECT * FROM entries ORDER BY created_at ASC, id ASC;"),
        params: Vec::new(),
    };
    assert(st@.1 =~= all_entries_spec().1);
    st
}

/// A request about an entry that does not exist is refused with
/// `EntryNotFound`, whatever else it asks: an update is refused so even when
/// it changes nothing, and a deletion is refused.
pub proof fn lemma_missing_entry_refused(id: i64, content: Option<Seq<char>>, pinned: Option<bool>)
    ensures
        update_spec(id, content, pinned, false) == Err::<(Seq<char>, Seq<ParamView>), DbError>(
            DbError::EntryNotFound(id),
        ),
        delete_spec(id, false) == Err::<(Seq<char>, Seq<ParamView>), DbError>(
            DbError::EntryNotFound(id),
        ),
{
}

/// An update of an existing entry is refused exactly when it changes no
/// field; otherwise it binds the id to `$1` and one more value for each field
/// it changes, content before pin.
pub proof fn lemma_update_binds_given_fields(
    id: i64,
    content: Option<Seq<char>>,
    pinned: Option<bool>,
)
    ensures
        update_spec(id, content, pinned, true) is Err <==> (content is None && pinned is None),
        update_spec(id, content, pinned, true) matches Ok(st) ==> {
            &&& st.1.len() == 1 + (if content is Some { 1int } else { 0 }) + (if pinned is Some {
                1int
            } else {
                0
            })
            &&& st.1[0] == ParamView::Int(id as int)
            &&& content matches Some(c) ==> st.1[1] == ParamView::Text(c)
            &&& pinned matches Some(b) ==> st.1[st.1.len() - 1] == ParamView::Bool(b)
        },
{
}

// ---------------------------------------------------------------- laws of the statements' text

/// The conditions a listing filters by, in order: the pin compared with its
/// value, then the content matched against its pattern, each with the next
/// placeholder.
pub open spec fn listing_conditions(d: Dialect, by_pinned: bool, by_substring: bool) -> Seq<
    Seq<char>,
> {
    let pin: Seq<Seq<char>> = if by_pinned {
        seq!["pinned = "@ + placeholder(1)]
    } else {
        Seq::empty()
    };
    if by_substring {
        pin.push(content_match(d) + placeholder(pin.len() + 1))
    } else {
        pin
    }
}

/// A listing keeps only the entries that meet every one of its filters: in
/// every dialect its `WHERE` clause is its conditions joined by `AND` (and
/// there is none without filters); the rest of its text is the order and
/// the page window, bound to the two placeholders after the conditions'.
pub proof fn lemma_listing_filters_are_conjoined(
    d: Dialect,
    by_pinned: bool,
    by_substring: bool,
    o: SortOrder,
)
    ensures
        ({
            let conds = listing_conditions(d, by_pinned, by_substring);
            let n = conds.len();
            listing_sql(d, by_pinned, by_substring, o) == "SELECT * FROM entries"@ + (if n == 0 {
                Seq::empty()
            } else {
                " WHERE "@ + join(conds, " AND "@)
            }) + " ORDER BY created_at "@ + order_keyword(o) + ", id "@ + order_keyword(o)
                + " LIMIT "@ + placeholder(n + 1) + " OFFSET "@ + placeholder(n + 2) + ";"@
        }),
        filter_count(by_pinned, by_substring) == listing_conditions(
            d,
            by_pinned,
            by_substring,
        ).len(),
{
    let conds = listing_conditions(d, by_pinned, by_substring);
    let and = " AND "@;
    let pc = "pinned = "@ + placeholder(1);
    if by_pinned && by_substring {
        let sc = content_match(d) + placeholder(2);
        assert(conds =~= seq![pc, sc]);
        assert(conds.drop_last() =~= seq![pc]);
        assert(join(seq![pc], and) == pc);
        assert(conds.last() == sc);
        assert(join(conds, and) == join(conds.drop_last(), and) + and + conds.last());
        assert(join(conds, and) == pc + and + sc);
    } else if by_pinned {
        assert(conds =~= seq![pc]);
    } else if by_substring {
        assert(conds =~= seq![content_match(d) + placeholder(1)]);
    } else {
        assert(conds =~= Seq::<Seq<char>>::empty());
    }
    let n = conds.len();
    assert(listing_sql(d, by_pinned, by_substring, o) =~= "SELECT * FROM entries"@ + (if n == 0 {
        Seq::empty()
    } else {
        " WHERE "@ + join(conds, " AND "@)
    }) + " ORDER BY created_at "@ + order_keyword(o) + ", id "@ + order_keyword(o) + " LIMIT "@
        + placeholder(n + 1) + " OFFSET "@ + placeholder(n + 2) + ";"@);
}

/// The text of an update that changes the given fields: each given field is
/// set to its own placeholder, content (`$2`) before pin, and the row is the
/// one whose id is `$1`.
pub open spec fn update_text_for(set_content: bool, set_pinned: bool) -> Seq<char> {
    let pin_at: nat = if set_content {
        3
    } else {
        2
    };
    "UPDATE entries SET "@ + (if set_content {
        "content = "@ + placeholder(2)
    } else {
        Seq::empty()
    }) + (if set_content && set_pinned {
        ", "@
    } else {
        Seq::empty()
    }) + (if set_pinned {
        "pinned = "@ + placeholder(pin_at)
    } else {
        Seq::empty()
    }) + " WHERE id = "@ + placeholder(1) + " RETURNING *;"@
}

/// An update of an existing entry sets each given field to exactly the given
/// value: the text assigns each given field its own placeholder, and that
/// placeholder is bound to the given value (the id to `$1`).
pub proof fn lemma_update_sets_given_values(
    id: i64,
    content: Option<Seq<char>>,
    pinned: Option<bool>,
)
    requires
        content is Some || pinned is Some,
    ensures
        update_spec(id, content, pinned, true) matches Ok(st) && {
            let pin_at: int = if content is Some {
                3
            } else {
                2
            };
            &&& st.0 == update_text_for(content is Some, pinned is Some)
            &&& st.1[0] == ParamView::Int(id as int)
            &&& content matches Some(c) ==> st.1[1] == ParamView::Text(c)
            &&& pinned matches Some(b) ==> st.1.len() == pin_at && st.1[pin_at - 1]
                == ParamView::Bool(b)
        },
{
    let st = update_spec(id, content, pinned, true).unwrap();
    assert(st.0 =~= update_text_for(content is Some, pinned is Some));
}

/// The text of an update depends only on which fields it changes, never on
/// the id or the values: two updates that change the same fields run the
/// same text, and differ only in the values bound.
pub proof fn lemma_update_text_ignores_values(
    id1: i64,
    id2: i64,
    content1: Option<Seq<char>>,
    content2: Option<Seq<char>>,
    pinned1: Option<bool>,
    pinned2: Option<bool>,
)
    requires
        (content1 is Some) == (content2 is Some),
        (pinned1 is Some) == (pinned2 is Some),
        content1 is Some || pinned1 is Some,
    ensures
        update_spec(id1, content1, pinned1, true) matches Ok(st1) && update_spec(
            id2,
            content2,
            pinned2,
            true,
        ) matches Ok(st2) && st1.0 == st2.0 && st1.1.len() == st2.1.len(),
{
    lemma_update_sets_given_values(id1, content1, pinned1);
    lemma_update_sets_given_values(id2, content2, pinned2);
}

/// A listing binds the filters' values and then the page window: the pin
/// itself, the substring wrapped in `%` so that it matches anywhere, the
/// page size as the limit and (page - 1) * page size as the offset; its
/// order is ascending exactly when ascending was asked for.
pub proof fn lemma_listing_binds_values(
    d: Dialect,
    page: Option<i64>,
    per_page: Option<i64>,
    sort: Option<SortOrder>,
    pinned: Option<bool>,
    substring: Option<Seq<char>>,
)
    ensures
        listing_spec(d, page, per_page, sort, pinned, substring) matches Ok(st) ==> {
            let k = filter_count(pinned is Some, substring is Some) as int;
            let size = match per_page {
                Some(p) => p as int,
                None => 10,
            };
            let number = match page {
                Some(p) => p as int,
                None => 1,
            };
            &&& st.1.len() == k + 2
            &&& pinned matches Some(b) ==> st.1[0] == ParamView::Bool(b)
            &&& substring matches Some(t) ==> st.1[k - 1] == ParamView::Text("%"@ + t + "%"@)
            &&& st.1[k] == ParamView::Int(size)
            &&& st.1[k + 1] == ParamView::Int((number - 1) * size)
            &&& st.0 == listing_sql(
                d,
                pinned is Some,
                substring is Some,
                if sort == Some(SortOrder::ASC) {
                    SortOrder::ASC
                } else {
                    SortOrder::DESC
                },
            )
        },
        order_keyword(SortOrder::ASC) == "ASC"@,
        order_keyword(SortOrder::DESC) == "DESC"@,
{
}

/// The statements about one entry: a new entry is inserted with the given
/// content (`$1`) and pin (`$2`) and its row returned; the check for an
/// entry, the read of one entry and the deletion all select the row whose id
/// is `$1`; reading everything lists all entries oldest first.
pub proof fn lemma_single_entry_statements(id: i64, content: Seq<char>, pinned: bool)
    ensures
        create_spec(content, pinned) == (
            "INSERT INTO entries (content, pinned) VALUES("@ + placeholder(1) + ", "@ + placeholder(
                2,
            ) + ") RETURNING *;"@,
            seq![ParamView::Text(content), ParamView::Bool(pinned)],
        ),
        exists_spec(id) == (
            "SELECT 1 FROM entries WHERE id = "@ + placeholder(1) + ";"@,
            seq![ParamView::Int(id as int)],
        ),
        read_one_spec(id) == (
            "SELECT * FROM entries WHERE id = "@ + placeholder(1) + ";"@,
            seq![ParamView::Int(id as int)],
        ),
        delete_spec(id, true) == Ok::<(Seq<char>, Seq<ParamView>), DbError>(
            (
                "DELETE FROM entries WHERE id = "@ + placeholder(1),
                seq![ParamView::Int(id as int)],
            ),
        ),
        all_entries_spec() == (
            "SELECT * FROM entries ORDER BY created_at ASC, id ASC;"@,
            Seq::<ParamView>::empty(),
        ),
{
}

} // verus!
