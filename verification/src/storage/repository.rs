//! The parts of the history store's operations that are computed rather than executed:
//! the text and parameters of a history search, how many records a trim removes, and what
//! an insertion reports.
use vstd::prelude::*;
use crate::storage::models::SearchQuery;
use crate::utils::text::{chars_of, decimal, push_char, push_decimal};

verus! {

/// A parameter bound to a placeholder of a statement.
#[derive(Debug, Clone, PartialEq)]
pub enum SqlValue {
    Text(String),
    Integer(i64),
}

/// What a parameter holds.
pub enum SqlArg {
    Text(Seq<char>),
    Integer(i64),
}

impl View for SqlValue {
    type V = SqlArg;

    open spec fn view(&self) -> SqlArg {
        match self {
            SqlValue::Text(s) => SqlArg::Text(s@),
            SqlValue::Integer(i) => SqlArg::Integer(*i),
        }
    }
}

/// A statement with numbered placeholders `?1`, `?2`, ... and the values bound to them.
pub struct SqlStatement {
    pub sql: String,
    pub params: Vec<SqlValue>,
}

/// The columns of a search result; the image bytes are not loaded.
pub open spec fn search_select() -> Seq<char> {
    "SELECT id, content_hash, content_type, content_text, NULL, source_app, source, is_favorite, created_at, updated_at FROM clip_records "@
}

/// The full-text condition on placeholder `?idx`.
pub open spec fn keyword_condition(idx: nat) -> Seq<char> {
    "EXISTS (SELECT 1 FROM clip_records_fts WHERE clip_records_fts MATCH ?"@ + decimal(idx)
        + " AND clip_records_fts.rowid = clip_records.id)"@
}

/// The content-type condition on placeholder `?idx`.
pub open spec fn type_condition(idx: nat) -> Seq<char> {
    "content_type = ?"@ + decimal(idx)
}

/// The favourites condition on placeholder `?idx`.
pub open spec fn favorite_condition(idx: nat) -> Seq<char> {
    "is_favorite = ?"@ + decimal(idx)
}

/// The keyword inside a quoted full-text string: each `"` doubled.
pub open spec fn fts_escape(k: Seq<char>) -> Seq<char>
    decreases k.len(),
{
    if k.len() == 0 {
        Seq::empty()
    } else {
        fts_escape(k.drop_last()) + (if k.last() == '"' { seq!['"', '"'] } else { seq![k.last()] })
    }
}

/// A character that separates words in a full-text query.
pub open spec fn is_fts_space(c: char) -> bool {
    c == ' ' || c == '\t' || c == '\n' || c == '\r'
}

/// Splitting a text into words: the words completed so far (none empty) and the word
/// being read.
pub open spec fn fts_split(s: Seq<char>) -> (Seq<Seq<char>>, Seq<char>)
    decreases s.len(),
{
    if s.len() == 0 {
        (Seq::empty(), Seq::empty())
    } else {
        let (done, cur) = fts_split(s.drop_last());
        if is_fts_space(s.last()) {
            if cur.len() > 0 {
                (done.push(cur), Seq::empty())
            } else {
                (done, Seq::empty())
            }
        } else {
            (done, cur.push(s.last()))
        }
    }
}

/// The words of a text, in order: its maximal runs without separators.
pub open spec fn fts_words(s: Seq<char>) -> Seq<Seq<char>> {
    let (done, cur) = fts_split(s);
    if cur.len() > 0 {
        done.push(cur)
    } else {
        done
    }
}

/// A text as a quoted full-text string.
pub open spec fn fts_quoted(t: Seq<char>) -> Seq<char> {
    "\""@ + fts_escape(t) + "\""@
}

/// Quoted words separated by spaces (each a term; together they must all match).
pub open spec fn fts_terms(ws: Seq<Seq<char>>) -> Seq<char>
    decreases ws.len(),
{
    if ws.len() == 0 {
        Seq::empty()
    } else if ws.len() == 1 {
        fts_quoted(ws[0])
    } else {
        fts_terms(ws.drop_last()) + " "@ + fts_quoted(ws.last())
    }
}

/// The full-text query for a keyword: the keyword as a phrase, or its words with the last
/// one as a prefix (`"k" OR w1 w2*`), each quoted so that no character of the keyword is
/// read as query syntax. A keyword of separators alone is searched as a phrase only.
pub open spec fn fts_query(keyword: Seq<char>) -> Seq<char> {
    let ws = fts_words(keyword);
    if ws.len() == 0 {
        fts_quoted(keyword)
    } else {
        fts_quoted(keyword) + " OR "@ + fts_terms(ws) + "*"@
    }
}

/// The keyword with each `"` doubled.
fn fts_escaped(keyword: &str) -> (r: String)
    ensures
        r@ == fts_escape(keyword@),
{
    let cs = chars_of(keyword);
    let mut r = String::new();
    let mut i: usize = 0;
    while i < cs.len()
        invariant
            i <= cs.len(),
            cs@ == keyword@,
            r@ == fts_escape(cs@.take(i as int)),
        decreases cs.len() - i,
    {
        let c = cs[i];
        proof {
            assert(cs@.take(i + 1).drop_last() =~= cs@.take(i as int));
        }
        push_char(&mut r, c);
        if c == '"' {
            push_char(&mut r, '"');
        }
        i += 1;
        proof {
            assert(r@ =~= fts_escape(cs@.take(i as int)));
        }
    }
    proof {
        assert(cs@.take(cs.len() as int) =~= cs@);
    }
    r
}

/// A non-empty keyword is searched for.
pub open spec fn keyword_active(q: SearchQuery) -> bool {
    q.keyword is Some && q.keyword.unwrap()@.len() > 0
}

/// The conditions of a search, in order: keyword, content type, favourites.
pub open spec fn search_conditions(q: SearchQuery) -> Seq<Seq<char>> {
    let a: Seq<Seq<char>> = if keyword_active(q) { seq![keyword_condition(1)] } else { Seq::empty() };
    let b: Seq<Seq<char>> = if q.content_type_filter is Some {
        seq![type_condition(a.len() + 1)]
    } else {
        Seq::empty()
    };
    let c: Seq<Seq<char>> = if q.favorite_only {
        seq![favorite_condition(a.len() + b.len() + 1)]
    } else {
        Seq::empty()
    };
    a + b + c
}

/// Conditions joined by ` AND `.
pub open spec fn join_and(cs: Seq<Seq<char>>) -> Seq<char>
    decreases cs.len(),
{
    if cs.len() == 0 {
        Seq::empty()
    } else if cs.len() == 1 {
        cs[0]
    } else {
        join_and(cs.drop_last()) + " AND "@ + cs.last()
    }
}

/// The text of a search: matching records, newest first, one page of them.
pub open spec fn search_sql(q: SearchQuery) -> Seq<char> {
    let cs = search_conditions(q);
    search_select() + (if cs.len() == 0 { Seq::empty() } else { "WHERE "@ + join_and(cs) })
        + " ORDER BY created_at DESC LIMIT ?"@ + decimal(cs.len() + 1) + " OFFSET ?"@ + decimal(
        cs.len() + 2,
    )
}

/// The parameters of a search, in placeholder order.
pub open spec fn search_params(q: SearchQuery) -> Seq<SqlArg> {
    (if keyword_active(q) { seq![SqlArg::Text(fts_query(q.keyword.unwrap()@))] } else { Seq::empty() })
        + (if q.content_type_filter is Some {
        seq![SqlArg::Text(q.content_type_filter.unwrap()@)]
    } else {
        Seq::empty()
    }) + (if q.favorite_only { seq![SqlArg::Integer(1)] } else { Seq::empty() }) + seq![
        SqlArg::Integer(q.limit),
        SqlArg::Integer(q.offset),
    ]
}

proof fn lemma_join_push(cs: Seq<Seq<char>>, c: Seq<char>)
    ensures
        join_and(cs.push(c)) == (if cs.len() == 0 { c } else { join_and(cs) + " AND "@ + c }),
{
    assert(cs.push(c).drop_last() =~= cs);
}

fn add_condition(sql: &mut String, count: u64)
    ensures
        final(sql)@ == old(sql)@ + (if count == 0 { "WHERE "@ } else { " AND "@ }),
{
    if count == 0 {
        sql.append("WHERE ");
    } else {
        sql.append(" AND ");
    }
}

/// The statement that runs a history search.
pub fn search_statement(query: &SearchQuery) -> (r: SqlStatement)
    ensures
        r.sql@ == search_sql(*query),
        r.params@.map_values(|v: SqlValue| v@) == search_params(*query),
{
    let ghost q = *query;
    let mut sql = String::from_str(
        "SELECT id, content_hash, content_type, content_text, NULL, source_app, source, is_favorite, created_at, updated_at FROM clip_records ",
    );
    let mut params: Vec<SqlValue> = Vec::new();
    let mut count: u64 = 0;
    let ghost mut conds: Seq<Seq<char>> = Seq::empty();
    let ghost mut args: Seq<SqlArg> = Seq::empty();
    let ghost start = sql@;
    if let Some(keyword) = &query.keyword {
        if !keyword.as_str().is_empty() {
            add_condition(&mut sql, count);
            sql.append("EXISTS (SELECT 1 FROM clip_records_fts WHERE clip_records_fts MATCH ?");
            push_decimal(&mut sql, count + 1);
            sql.append(" AND clip_records_fts.rowid = clip_records.id)");
            let fts = fts_query_text(keyword.as_str());
            params.push(SqlValue::Text(fts));
            proof {
                conds = conds.push(keyword_condition(1));
                args = args.push(SqlArg::Text(fts_query(keyword@)));
            }
            count = count + 1;
        }
    }
    assert(conds.len() == count);
    assert(sql@ =~= start + (if count == 0 { Seq::empty() } else { "WHERE "@ + join_and(conds) }));
    if let Some(ct) = &query.content_type_filter {
        let ghost before = sql@;
        add_condition(&mut sql, count);
        sql.append("content_type = ?");
        push_decimal(&mut sql, count + 1);
        params.push(SqlValue::Text(ct.clone()));
        proof {
            lemma_join_push(conds, type_condition((count + 1) as nat));
            conds = conds.push(type_condition((count + 1) as nat));
            args = args.push(SqlArg::Text(ct@));
        }
        count = count + 1;
    }
    assert(conds.len() == count);
    assert(sql@ =~= start + (if count == 0 { Seq::empty() } else { "WHERE "@ + join_and(conds) }));
    if query.favorite_only {
        let ghost before = sql@;
        add_condition(&mut sql, count);
        sql.append("is_favorite = ?");
        push_decimal(&mut sql, count + 1);
        params.push(SqlValue::Integer(1));
        proof {
            lemma_join_push(conds, favorite_condition((count + 1) as nat));
            conds = conds.push(favorite_condition((count + 1) as nat));
            args = args.push(SqlArg::Integer(1));
        }
        count = count + 1;
    }
    assert(conds =~= search_conditions(q));
    assert(sql@ =~= start + (if count == 0 { Seq::empty() } else { "WHERE "@ + join_and(conds) }));
    sql.append(" ORDER BY created_at DESC LIMIT ?");
    push_decimal(&mut sql, count + 1);
    sql.append(" OFFSET ?");
    push_decimal(&mut sql, count + 2);
    params.push(SqlValue::Integer(query.limit));
    params.push(SqlValue::Integer(query.offset));
    proof {
        args = args.push(SqlArg::Integer(q.limit)).push(SqlArg::Integer(q.offset));
        assert(params@.map_values(|v: SqlValue| v@) =~= args);
        assert(args =~= search_params(q));
    }
    SqlStatement { sql, params }
}

/// The words of a keyword.
fn fts_words_of(keyword: &str) -> (r: Vec<String>)
    ensures
        r@.map_values(|w: String| w@) == fts_words(keyword@),
{
    let cs = chars_of(keyword);
    let mut done: Vec<String> = Vec::new();
    let mut cur = String::new();
    let mut i: usize = 0;
    while i < cs.len()
        invariant
            i <= cs.len(),
            cs@ == keyword@,
            (done@.map_values(|w: String| w@), cur@) == fts_split(cs@.take(i as int)),
        decreases cs.len() - i,
    {
        let c = cs[i];
        proof {
            assert(cs@.take(i + 1).drop_last() =~= cs@.take(i as int));
            assert(cs@.take(i + 1).last() == c);
        }
        if c == ' ' || c == '\t' || c == '\n' || c == '\r' {
            if cur.as_str().unicode_len() > 0 {
                let ghost before = done@.map_values(|w: String| w@);
                let mut word = String::new();
                std::mem::swap(&mut word, &mut cur);
                done.push(word);
                proof {
                    assert(done@.map_values(|w: String| w@) =~= before.push(word@));
                }
            }
        } else {
            push_char(&mut cur, c);
        }
        i += 1;
    }
    proof {
        assert(cs@.take(cs.len() as int) =~= cs@);
    }
    if cur.as_str().unicode_len() > 0 {
        let ghost before = done@.map_values(|w: String| w@);
        done.push(cur);
        proof {
            assert(done@.map_values(|w: String| w@) =~= before.push(cur@));
        }
    }
    done
}

proof fn lemma_terms_push(ws: Seq<Seq<char>>, w: Seq<char>)
    ensures
        fts_terms(ws.push(w)) == (if ws.len() == 0 { fts_quoted(w) } else { fts_terms(ws) + " "@
            + fts_quoted(w) }),
{
    assert(ws.push(w).drop_last() =~= ws);
}

/// The full-text query for a keyword.
fn fts_query_text(keyword: &str) -> (r: String)
    ensures
        r@ == fts_query(keyword@),
{
    let words = fts_words_of(keyword);
    let ghost ws = words@.map_values(|w: String| w@);
    let mut r = String::from_str("\"");
    let escaped = fts_escaped(keyword);
    r.append(escaped.as_str());
    r.append("\"");
    proof {
        assert(r@ =~= fts_quoted(keyword@));
    }
    if words.len() == 0 {
        return r;
    }
    r.append(" OR ");
    let ghost head = r@;
    let mut i: usize = 0;
    while i < words.len()
        invariant
            i <= words.len(),
            ws == words@.map_values(|w: String| w@),
            r@ == head + fts_terms(ws.take(i as int)),
        decreases words.len() - i,
    {
        proof {
            assert(ws.take(i + 1) =~= ws.take(i as int).push(ws[i as int]));
            lemma_terms_push(ws.take(i as int), ws[i as int]);
        }
        if i > 0 {
            r.append(" ");
        }
        r.append("\"");
        let e = fts_escaped(words[i].as_str());
        r.append(e.as_str());
        r.append("\"");
        i += 1;
        proof {
            assert(r@ =~= head + fts_terms(ws.take(i as int)));
        }
    }
    proof {
        assert(ws.take(words.len() as int) =~= ws);
    }
    r.append("*");
    proof {
        assert(r@ =~= fts_query(keyword@));
    }
    r
}

/// How many of the oldest records a trim to `max_records` removes: none when unlimited
/// (negative) or within the limit, otherwise the excess.
pub open spec fn trim_excess_spec(max_records: int, count: int) -> int {
    if max_records < 0 || count <= max_records {
        0
    } else {
        count - max_records
    }
}

pub fn trim_excess(max_records: i64, count: i64) -> (r: i64)
    ensures
        r == trim_excess_spec(max_records as int, count as int),
{
    if max_records < 0 {
        return 0;
    }
    if count <= max_records {
        return 0;
    }
    count - max_records
}

/// The id reported by an insertion that ignores duplicates: none when no row was inserted
/// (`changes` is the number of rows the statement inserted; the last inserted row id is not
/// reset by an ignored insertion), else the new row's id.
pub fn inserted_id(changes: usize, last_insert_rowid: i64) -> (r: Option<i64>)
    ensures
        r == (if changes == 0 { None } else { Some(last_insert_rowid) }),
{
    if changes == 0 {
        None
    } else {
        Some(last_insert_rowid)
    }
}

/// Each condition of a search names the parameter bound to it, numbered from 1 in the
/// order keyword, content type, favourites: the keyword condition (when there is a keyword)
/// is placeholder 1 bound to the keyword's query; the content-type condition is the next
/// placeholder, bound to the type; the favourites condition the next, bound to 1; the limit
/// and offset take the two placeholders after the conditions.
pub proof fn lemma_search_placeholders_bound(q: SearchQuery)
    ensures
        ({
            let conds = search_conditions(q);
            let ps = search_params(q);
            let kt: int = if keyword_active(q) { 1 } else { 0 };
            let kf: int = kt + (if q.content_type_filter is Some { 1int } else { 0int });
            let n: int = kf + (if q.favorite_only { 1int } else { 0int });
            &&& conds.len() == n
            &&& ps.len() == n + 2
            &&& keyword_active(q) ==> conds[0] == "EXISTS (SELECT 1 FROM clip_records_fts WHERE clip_records_fts MATCH ?"@
                + decimal(1) + " AND clip_records_fts.rowid = clip_records.id)"@ && ps[0] == SqlArg::Text(
                fts_query(q.keyword.unwrap()@),
            )
            &&& q.content_type_filter is Some ==> conds[kt] == "content_type = ?"@ + decimal(
                (kt + 1) as nat,
            ) && ps[kt] == SqlArg::Text(q.content_type_filter.unwrap()@)
            &&& q.favorite_only ==> conds[kf] == "is_favorite = ?"@ + decimal((kf + 1) as nat) && ps[kf]
                == SqlArg::Integer(1)
            &&& ps[n] == SqlArg::Integer(q.limit)
            &&& ps[n + 1] == SqlArg::Integer(q.offset)
            &&& search_sql(q) == search_select() + (if n == 0 { Seq::empty() } else { "WHERE "@ + join_and(conds) })
                + " ORDER BY created_at DESC LIMIT ?"@ + decimal((n + 1) as nat) + " OFFSET ?"@ + decimal(
                (n + 2) as nat,
            )
        }),
{
    let conds = search_conditions(q);
    let ps = search_params(q);
    let a: Seq<SqlArg> = if keyword_active(q) { seq![SqlArg::Text(fts_query(q.keyword.unwrap()@))] } else { Seq::empty() };
    let b: Seq<SqlArg> = if q.content_type_filter is Some {
        seq![SqlArg::Text(q.content_type_filter.unwrap()@)]
    } else {
        Seq::empty()
    };
    let c: Seq<SqlArg> = if q.favorite_only { seq![SqlArg::Integer(1)] } else { Seq::empty() };
    assert(ps == a + b + c + seq![SqlArg::Integer(q.limit), SqlArg::Integer(q.offset)]);
}

/// Every placeholder of a search statement has a value: one per condition, then the
/// limit and the offset.
pub proof fn lemma_search_params_match_placeholders(q: SearchQuery)
    ensures
        search_params(q).len() == search_conditions(q).len() + 2,
        search_params(q)[search_params(q).len() - 2] == SqlArg::Integer(q.limit),
        search_params(q)[search_params(q).len() - 1] == SqlArg::Integer(q.offset),
{
}

/// After a trim, a limited store holds at most `max_records` records, and a trim never
/// removes more records than there are.
pub proof fn lemma_trim_within_limit(max_records: int, count: int)
    requires
        count >= 0,
    ensures
        0 <= trim_excess_spec(max_records, count) <= count,
        max_records >= 0 ==> count - trim_excess_spec(max_records, count) <= max_records,
        max_records >= 0 && count >= max_records ==> count - trim_excess_spec(max_records, count)
            == max_records,
        max_records < 0 ==> trim_excess_spec(max_records, count) == 0,
{
}

} // verus!
