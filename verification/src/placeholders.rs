//! The numbered placeholders (`$1`, `$2`, ...) in the text of a statement,
//! and the law that every statement the store builds uses exactly the
//! placeholders `$1` to `$n` for its `n` bound values, each once.
use crate::backend::{create_database_spec, database_exists_spec};
use crate::query::{
    all_entries_spec, content_match, create_spec, delete_spec, exists_spec, filter_count,
    listing_filter, listing_spec, listing_sql, order_keyword, placeholder, read_one_spec,
    update_assignments, update_spec, Dialect, ParamView, SortOrder,
};
use crate::text::{decimal, digit_char};
use vstd::prelude::*;

verus! {

pub open spec fn is_digit(c: char) -> bool {
    '0' <= c && c <= '9'
}

pub open spec fn digit_value(c: char) -> nat {
    (c as int - '0' as int) as nat
}

/// Where a scan of a statement's text stands.
pub enum ScanState {
    /// Not in a placeholder.
    Outside,
    /// Just after a `$`.
    AfterDollar,
    /// In the digits of a placeholder, having read the number so far.
    InNumber(nat),
}

/// The numbers of the placeholders (a `$` followed by digits) met when
/// reading `s` from the state `st`, in the order they occur.
pub open spec fn scan(s: Seq<char>, st: ScanState) -> Seq<nat>
    decreases s.len(),
{
    if s.len() == 0 {
        match st {
            ScanState::InNumber(n) => seq![n],
            _ => Seq::empty(),
        }
    } else {
        let c = s[0];
        let rest = s.drop_first();
        let next = if c == '$' {
            ScanState::AfterDollar
        } else {
            ScanState::Outside
        };
        match st {
            ScanState::InNumber(n) => if is_digit(c) {
                scan(rest, ScanState::InNumber(n * 10 + digit_value(c)))
            } else {
                seq![n] + scan(rest, next)
            },
            _ => if st is AfterDollar && is_digit(c) {
                scan(rest, ScanState::InNumber(digit_value(c)))
            } else {
                scan(rest, next)
            },
        }
    }
}

/// The numbers of the placeholders of a statement's text, in textual order.
pub open spec fn placeholder_numbers(sql: Seq<char>) -> Seq<nat> {
    scan(sql, ScanState::Outside)
}

/// The text uses the placeholders `$1` to `$n`, each exactly once, and no other.
pub open spec fn uses_placeholders_once(sql: Seq<char>, n: nat) -> bool {
    let ps = placeholder_numbers(sql);
    &&& ps.len() == n
    &&& forall|j: int| 1 <= j <= n ==> #[trigger] ps.contains(j as nat)
}

/// A statement binds exactly one value to each of its placeholders.
pub open spec fn binds_each_placeholder(st: (Seq<char>, Seq<ParamView>)) -> bool {
    uses_placeholders_once(st.0, st.1.len())
}

pub open spec fn no_dollar(s: Seq<char>) -> bool {
    forall|i: int| 0 <= i < s.len() ==> s[i] != '$'
}

/// Text that ends a placeholder read before it: empty, or starting with
/// something other than a digit or a `$`.
pub open spec fn ends_number(s: Seq<char>) -> bool {
    s.len() == 0 || (!is_digit(s[0]) && s[0] != '$')
}

proof fn lemma_digit(d: nat)
    requires
        d < 10,
    ensures
        is_digit(digit_char(d)),
        digit_value(digit_char(d)) == d,
{
}

proof fn lemma_decimal_digits(n: nat, b: Seq<char>)
    ensures
        scan(decimal(n) + b, ScanState::AfterDollar) == scan(b, ScanState::InNumber(n)),
    decreases n,
{
    if n < 10 {
        lemma_digit(n);
        let s = decimal(n) + b;
        assert(s[0] == digit_char(n));
        assert(s.drop_first() =~= b);
    } else {
        lemma_digit(n % 10);
        let tail = seq![digit_char(n % 10)] + b;
        assert(decimal(n) + b =~= decimal(n / 10) + tail);
        lemma_decimal_digits(n / 10, tail);
        assert(tail.drop_first() =~= b);
        assert((n / 10) * 10 + n % 10 == n);
    }
}

proof fn lemma_scan_plain(a: Seq<char>, b: Seq<char>)
    requires
        no_dollar(a),
    ensures
        scan(a + b, ScanState::Outside) == scan(b, ScanState::Outside),
    decreases a.len(),
{
    if a.len() > 0 {
        assert((a + b).drop_first() =~= a.drop_first() + b);
        assert((a + b)[0] == a[0]);
        lemma_scan_plain(a.drop_first(), b);
    } else {
        assert(a + b =~= b);
    }
}

proof fn lemma_scan_placeholder(n: nat, b: Seq<char>)
    requires
        ends_number(b),
    ensures
        scan(placeholder(n) + b, ScanState::Outside) == seq![n] + scan(b, ScanState::Outside),
{
    reveal_strlit("$");
    let s = placeholder(n) + b;
    assert(s[0] == '$');
    assert(s.drop_first() =~= decimal(n) + b);
    lemma_decimal_digits(n, b);
    if b.len() > 0 {
        assert(scan(b, ScanState::Outside) == scan(b.drop_first(), ScanState::Outside));
    } else {
        assert(seq![n] + scan(b, ScanState::Outside) =~= seq![n]);
    }
}

proof fn lemma_order_keyword(o: SortOrder)
    ensures
        no_dollar(order_keyword(o)),
        ends_number(order_keyword(o)),
{
    reveal_strlit("ASC");
    reveal_strlit("DESC");
}

proof fn lemma_content_match(d: Dialect)
    ensures
        no_dollar(content_match(d)),
        ends_number(content_match(d)),
{
    reveal_strlit("content LIKE ");
    reveal_strlit("content ILIKE ");
}

/// The placeholders of a listing's filter are `$1` for the pin and then one
/// for the content pattern.
proof fn lemma_filter_numbers(d: Dialect, by_pinned: bool, by_substring: bool, t: Seq<char>)
    requires
        ends_number(t),
    ensures
        scan(listing_filter(d, by_pinned, by_substring) + t, ScanState::Outside) == (if by_pinned
            && by_substring {
            seq![1nat, 2nat]
        } else if by_pinned || by_substring {
            seq![1nat]
        } else {
            Seq::empty()
        }) + scan(t, ScanState::Outside),
{
    reveal_strlit(" WHERE ");
    reveal_strlit("pinned = ");
    reveal_strlit(" AND ");
    lemma_content_match(d);
    let w = " WHERE "@;
    let p = "pinned = "@;
    let a = " AND "@;
    let c = content_match(d);
    let tt = scan(t, ScanState::Outside);
    if by_pinned && by_substring {
        assert(listing_filter(d, by_pinned, by_substring) + t =~= w + (p + (placeholder(1) + (a + (c
            + (placeholder(2) + t))))));
        lemma_scan_placeholder(2, t);
        lemma_scan_plain(c, placeholder(2) + t);
        lemma_scan_plain(a, c + (placeholder(2) + t));
        lemma_scan_placeholder(1, a + (c + (placeholder(2) + t)));
        lemma_scan_plain(p, placeholder(1) + (a + (c + (placeholder(2) + t))));
        lemma_scan_plain(w, p + (placeholder(1) + (a + (c + (placeholder(2) + t)))));
        assert(seq![1nat] + (seq![2nat] + tt) =~= seq![1nat, 2nat] + tt);
    } else if by_pinned {
        assert(listing_filter(d, by_pinned, by_substring) + t =~= w + (p + (placeholder(1) + t)));
        lemma_scan_placeholder(1, t);
        lemma_scan_plain(p, placeholder(1) + t);
        lemma_scan_plain(w, p + (placeholder(1) + t));
    } else if by_substring {
        assert(listing_filter(d, by_pinned, by_substring) + t =~= w + (c + (placeholder(1) + t)));
        lemma_scan_placeholder(1, t);
        lemma_scan_plain(c, placeholder(1) + t);
        lemma_scan_plain(w, c + (placeholder(1) + t));
    } else {
        assert(listing_filter(d, by_pinned, by_substring) + t =~= t);
        assert(Seq::<nat>::empty() + tt =~= tt);
    }
}

spec fn listing_tail(k: nat, o: Seq<char>) -> Seq<char> {
    " ORDER BY created_at "@ + (o + (", id "@ + (o + (" LIMIT "@ + (placeholder(k + 1) + (
    " OFFSET "@ + (placeholder(k + 2) + ";"@)))))))
}

proof fn lemma_listing_tail(k: nat, o: Seq<char>)
    requires
        no_dollar(o),
        ends_number(o),
    ensures
        scan(listing_tail(k, o), ScanState::Outside) == seq![k + 1, k + 2],
        ends_number(listing_tail(k, o)),
{
    reveal_strlit(";");
    reveal_strlit(" OFFSET ");
    reveal_strlit(" LIMIT ");
    reveal_strlit(", id ");
    reveal_strlit(" ORDER BY created_at ");
    let t6 = ";"@;
    let t5 = placeholder(k + 2) + t6;
    let t4 = " OFFSET "@ + t5;
    let t3 = placeholder(k + 1) + t4;
    let t2 = " LIMIT "@ + t3;
    let t1 = o + t2;
    let t0 = ", id "@ + t1;
    let tm = o + t0;
    lemma_scan_plain(t6, Seq::empty());
    assert(t6 + Seq::<char>::empty() =~= t6);
    assert(scan(Seq::<char>::empty(), ScanState::Outside) =~= Seq::<nat>::empty());
    lemma_scan_placeholder(k + 2, t6);
    lemma_scan_plain(" OFFSET "@, t5);
    lemma_scan_placeholder(k + 1, t4);
    lemma_scan_plain(" LIMIT "@, t3);
    lemma_scan_plain(o, t2);
    lemma_scan_plain(", id "@, t1);
    lemma_scan_plain(o, t0);
    lemma_scan_plain(" ORDER BY created_at "@, tm);
    assert(seq![k + 1] + seq![k + 2] =~= seq![k + 1, k + 2]);
    assert(listing_tail(k, o)[0] == ' ');
}

proof fn lemma_listing_sql_shape(d: Dialect, bp: bool, bs: bool, ord: SortOrder)
    ensures
        listing_sql(d, bp, bs, ord) == "SELECT * FROM entries"@ + (listing_filter(d, bp, bs)
            + listing_tail(filter_count(bp, bs), order_keyword(ord))),
{
    assert(listing_sql(d, bp, bs, ord) =~= "SELECT * FROM entries"@ + (listing_filter(d, bp, bs)
        + listing_tail(filter_count(bp, bs), order_keyword(ord))));
}

proof fn lemma_listing_sql_numbers(d: Dialect, bp: bool, bs: bool, ord: SortOrder)
    ensures
        placeholder_numbers(listing_sql(d, bp, bs, ord)) == Seq::new(
            filter_count(bp, bs) + 2,
            |i: int| (i + 1) as nat,
        ),
{
    let k = filter_count(bp, bs);
    let o = order_keyword(ord);
    let tl = listing_tail(k, o);
    let f = listing_filter(d, bp, bs);
    lemma_listing_sql_shape(d, bp, bs, ord);
    lemma_order_keyword(ord);
    lemma_listing_tail(k, o);
    lemma_filter_numbers(d, bp, bs, tl);
    reveal_strlit("SELECT * FROM entries");
    lemma_scan_plain("SELECT * FROM entries"@, f + tl);
    let ps = placeholder_numbers(listing_sql(d, bp, bs, ord));
    assert(ps =~= Seq::new(k + 2, |i: int| (i + 1) as nat));
}

/// Every listing binds one value to each of its placeholders: `$1`, `$2`, ...
/// in the order they occur.
pub proof fn lemma_listing_binds_each_placeholder(
    d: Dialect,
    page: Option<i64>,
    per_page: Option<i64>,
    sort: Option<SortOrder>,
    pinned: Option<bool>,
    substring: Option<Seq<char>>,
)
    ensures
        listing_spec(d, page, per_page, sort, pinned, substring) matches Ok(st)
            ==> binds_each_placeholder(st) && placeholder_numbers(st.0) == Seq::new(
            st.1.len(),
            |i: int| (i + 1) as nat,
        ),
{
    if let Ok(st) = listing_spec(d, page, per_page, sort, pinned, substring) {
        let bp = pinned is Some;
        let bs = substring is Some;
        let ord = crate::query::effective_sort(sort);
        lemma_listing_sql_numbers(d, bp, bs, ord);
        assert(st.1.len() == filter_count(bp, bs) + 2);
        let ps = placeholder_numbers(st.0);
        assert forall|j: int| 1 <= j <= st.1.len() implies #[trigger] ps.contains(j as nat) by {
            assert(ps[j - 1] == j as nat);
        }
    }
}

/// Every update binds the id to `$1` and one value to each other placeholder.
pub proof fn lemma_update_binds_each_placeholder(
    id: i64,
    content: Option<Seq<char>>,
    pinned: Option<bool>,
    exists: bool,
)
    ensures
        update_spec(id, content, pinned, exists) matches Ok(st) ==> binds_each_placeholder(st),
{
    if let Ok(st) = update_spec(id, content, pinned, exists) {
        reveal_strlit("UPDATE entries SET ");
        reveal_strlit(" WHERE id = ");
        reveal_strlit(" RETURNING *;");
        reveal_strlit("content = ");
        reveal_strlit(", ");
        reveal_strlit("pinned = ");
        let head = "UPDATE entries SET "@;
        let wh = " WHERE id = "@;
        let ret = " RETURNING *;"@;
        let c = "content = "@;
        let sep = ", "@;
        let p = "pinned = "@;
        let tail = wh + (placeholder(1) + ret);
        lemma_scan_plain(ret, Seq::empty());
        assert(ret + Seq::<char>::empty() =~= ret);
        assert(scan(Seq::<char>::empty(), ScanState::Outside) =~= Seq::<nat>::empty());
        lemma_scan_placeholder(1, ret);
        lemma_scan_plain(wh, placeholder(1) + ret);
        assert(scan(tail, ScanState::Outside) =~= seq![1nat]);
        let a = update_assignments(content is Some, pinned is Some);
        assert(st.0 =~= head + (a + tail));
        let ps = placeholder_numbers(st.0);
        if content is Some && pinned is Some {
            assert(a + tail =~= c + (placeholder(2) + (sep + (p + (placeholder(3) + tail)))));
            lemma_scan_placeholder(3, tail);
            lemma_scan_plain(p, placeholder(3) + tail);
            lemma_scan_plain(sep, p + (placeholder(3) + tail));
            lemma_scan_placeholder(2, sep + (p + (placeholder(3) + tail)));
            lemma_scan_plain(c, placeholder(2) + (sep + (p + (placeholder(3) + tail))));
            lemma_scan_plain(head, a + tail);
            assert(ps =~= seq![2nat, 3nat, 1nat]);
            assert(st.1.len() == 3);
            assert forall|j: int| 1 <= j <= 3 implies #[trigger] ps.contains(j as nat) by {
                if j == 1 {
                    assert(ps[2] == 1);
                } else if j == 2 {
                    assert(ps[0] == 2);
                } else {
                    assert(ps[1] == 3);
                }
            }
        } else {
            let lhs = if content is Some {
                c
            } else {
                p
            };
            assert(a + tail =~= lhs + (placeholder(2) + tail));
            lemma_scan_placeholder(2, tail);
            lemma_scan_plain(lhs, placeholder(2) + tail);
            lemma_scan_plain(head, a + tail);
            assert(ps =~= seq![2nat, 1nat]);
            assert(st.1.len() == 2);
            assert forall|j: int| 1 <= j <= 2 implies #[trigger] ps.contains(j as nat) by {
                if j == 1 {
                    assert(ps[1] == 1);
                } else {
                    assert(ps[0] == 2);
                }
            }
        }
    }
}

proof fn lemma_one_placeholder_at_end(head: Seq<char>, sql: Seq<char>, end: Seq<char>)
    requires
        no_dollar(head),
        no_dollar(end),
        ends_number(end),
        sql =~= head + (placeholder(1) + end),
    ensures
        uses_placeholders_once(sql, 1),
{
    lemma_scan_plain(end, Seq::empty());
    assert(end + Seq::<char>::empty() =~= end);
    assert(scan(Seq::<char>::empty(), ScanState::Outside) =~= Seq::<nat>::empty());
    lemma_scan_placeholder(1, end);
    lemma_scan_plain(head, placeholder(1) + end);
    let ps = placeholder_numbers(sql);
    assert(ps =~= seq![1nat]);
    assert forall|j: int| 1 <= j <= 1 implies #[trigger] ps.contains(j as nat) by {
        assert(ps[0] == 1);
    }
}

/// The statements about one entry, and the check for a database, bind one
/// value to each of their placeholders.
pub proof fn lemma_single_statements_bind_each_placeholder(
    id: i64,
    content: Seq<char>,
    pinned: bool,
    name: Seq<char>,
)
    ensures
        binds_each_placeholder(create_spec(content, pinned)),
        binds_each_placeholder(exists_spec(id)),
        binds_each_placeholder(read_one_spec(id)),
        binds_each_placeholder(all_entries_spec()),
        binds_each_placeholder(database_exists_spec(name)),
        delete_spec(id, true) matches Ok(st) && binds_each_placeholder(st),
{
    reveal_strlit("SELECT 1 FROM entries WHERE id = ");
    reveal_strlit(";");
    lemma_one_placeholder_at_end(
        "SELECT 1 FROM entries WHERE id = "@,
        exists_spec(id).0,
        ";"@,
    );

    reveal_strlit("SELECT * FROM entries WHERE id = ");
    lemma_one_placeholder_at_end(
        "SELECT * FROM entries WHERE id = "@,
        read_one_spec(id).0,
        ";"@,
    );

    reveal_strlit("DELETE FROM entries WHERE id = ");
    lemma_one_placeholder_at_end(
        "DELETE FROM entries WHERE id = "@,
        delete_spec(id, true).unwrap().0,
        Seq::empty(),
    );

    reveal_strlit("SELECT TRUE FROM pg_database WHERE datname = ");
    lemma_one_placeholder_at_end(
        "SELECT TRUE FROM pg_database WHERE datname = "@,
        database_exists_spec(name).0,
        Seq::empty(),
    );

    reveal_strlit("SELECT * FROM entries ORDER BY created_at ASC, id ASC;");
    lemma_scan_plain(all_entries_spec().0, Seq::empty());
    assert(all_entries_spec().0 + Seq::<char>::empty() =~= all_entries_spec().0);
    assert(placeholder_numbers(all_entries_spec().0) =~= Seq::<nat>::empty());

    reveal_strlit("INSERT INTO entries (content, pinned) VALUES(");
    reveal_strlit(", ");
    reveal_strlit(") RETURNING *;");
    let head = "INSERT INTO entries (content, pinned) VALUES("@;
    let sep = ", "@;
    let end = ") RETURNING *;"@;
    let sql = create_spec(content, pinned).0;
    assert(sql =~= head + (placeholder(1) + (sep + (placeholder(2) + end))));
    lemma_scan_plain(end, Seq::empty());
    assert(end + Seq::<char>::empty() =~= end);
    assert(scan(Seq::<char>::empty(), ScanState::Outside) =~= Seq::<nat>::empty());
    lemma_scan_placeholder(2, end);
    lemma_scan_plain(sep, placeholder(2) + end);
    lemma_scan_placeholder(1, sep + (placeholder(2) + end));
    lemma_scan_plain(head, placeholder(1) + (sep + (placeholder(2) + end)));
    let ps = placeholder_numbers(sql);
    assert(ps =~= seq![1nat, 2nat]);
    assert forall|j: int| 1 <= j <= 2 implies #[trigger] ps.contains(j as nat) by {
        assert(ps[j - 1] == j as nat);
    }
}

/// The statement that creates a database binds nothing and has no
/// placeholder, provided the database's name holds no `$` (the name is
/// written into the text).
pub proof fn lemma_create_database_has_no_placeholder(name: Seq<char>)
    requires
        no_dollar(name),
    ensures
        binds_each_placeholder(create_database_spec(name)),
{
    reveal_strlit("CREATE DATABASE \"");
    reveal_strlit("\";");
    let sql = create_database_spec(name).0;
    assert(no_dollar(sql));
    lemma_scan_plain(sql, Seq::empty());
    assert(sql + Seq::<char>::empty() =~= sql);
    assert(placeholder_numbers(sql) =~= Seq::<nat>::empty());
}

} // verus!
