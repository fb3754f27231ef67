//! The key-value store in Turso (libSQL over HTTP): the table, the SQL
//! statements, the pipeline request that carries them, and the reading of
//! the pipeline's reply.

use vstd::prelude::*;
use crate::feed::{header_view, push_header};
use crate::text::opt_text;
use crate::json::{
    element, get_element, get_member, get_text, json_text, json_to_text, member, text_value, Json,
};
use crate::text::{
    contains_text, lemma_trim_end_char_shape, law_replace_without_occurrence, is_white_space, lemma_replace_keeps_last_non_white, law_trim_idempotent, lemma_trim_shape,
    lemma_trim_unchanged, append_all, append_str, chars_of, replace_all, replace_all_exec, starts_with_exec, string_of,
    trim, trim_end_char, trim_end_char_exec, trimmed,
};

verus! {

// ---------------------------------------------------------------------------
// The table and the statements
// ---------------------------------------------------------------------------

/// The table used when none is configured.
pub open spec fn default_table() -> Seq<char> {
    "lachuoi_kv_store"@
}

/// The table of the store: the configured name trimmed, or the default
/// where none is configured or the name is blank.
pub open spec fn table_name(configured: Option<Seq<char>>) -> Seq<char> {
    let t = trim(
        match configured {
            Some(c) => c,
            None => default_table(),
        },
    );
    if t.len() == 0 {
        default_table()
    } else {
        t
    }
}

/// The statement that creates the table where it is missing.
pub open spec fn create_table_sql(table: Seq<char>) -> Seq<char> {
    "CREATE TABLE IF NOT EXISTS "@ + table
        + " (key TEXT PRIMARY KEY, value TEXT, created_at DATETIME DEFAULT CURRENT_TIMESTAMP, updated_at DATETIME DEFAULT CURRENT_TIMESTAMP)"@
}

/// The statement that reads the value of a key (the key is its argument).
pub open spec fn select_value_sql(table: Seq<char>) -> Seq<char> {
    "SELECT value FROM "@ + table + " WHERE key = ?"@
}

/// The statement that writes the value of a key, replacing an older one
/// (key and value are its arguments).
pub open spec fn upsert_sql(table: Seq<char>) -> Seq<char> {
    "INSERT INTO "@ + table
        + " (key, value) VALUES (?, ?) ON CONFLICT(key) DO UPDATE SET value = excluded.value, updated_at = CURRENT_TIMESTAMP"@
}

/// The table of the store, `configured` being the configured name, if any.
pub fn kv_table_name(configured: Option<String>) -> (r: String)
    ensures
        r@ == table_name(opt_text(configured)),
{
    let raw = match configured {
        Some(c) => chars_of(c.as_str()),
        None => chars_of("lachuoi_kv_store"),
    };
    let t = trimmed(&raw);
    if t.len() == 0 {
        "lachuoi_kv_store".to_owned()
    } else {
        string_of(&t)
    }
}

/// `prefix`, `middle` and `suffix` one after the other.
fn concat3(prefix: &str, middle: &str, suffix: &str) -> (r: String)
    ensures
        r@ == prefix@ + middle@ + suffix@,
{
    let mut v = chars_of(prefix);
    append_str(&mut v, middle);
    append_str(&mut v, suffix);
    string_of(&v)
}

/// The statement that creates the table where it is missing.
pub fn create_table_statement(table: &str) -> (r: String)
    ensures
        r@ == create_table_sql(table@),
{
    concat3(
        "CREATE TABLE IF NOT EXISTS ",
        table,
        " (key TEXT PRIMARY KEY, value TEXT, created_at DATETIME DEFAULT CURRENT_TIMESTAMP, updated_at DATETIME DEFAULT CURRENT_TIMESTAMP)",
    )
}

/// The statement that reads the value of a key.
pub fn select_value_statement(table: &str) -> (r: String)
    ensures
        r@ == select_value_sql(table@),
{
    concat3("SELECT value FROM ", table, " WHERE key = ?")
}

/// The statement that writes the value of a key.
pub fn upsert_statement(table: &str) -> (r: String)
    ensures
        r@ == upsert_sql(table@),
{
    concat3(
        "INSERT INTO ",
        table,
        " (key, value) VALUES (?, ?) ON CONFLICT(key) DO UPDATE SET value = excluded.value, updated_at = CURRENT_TIMESTAMP",
    )
}

// ---------------------------------------------------------------------------
// Where and how the pipeline is sent
// ---------------------------------------------------------------------------

/// The database's address made an HTTPS one: trimmed; `libsql://` turned
/// into `https://` (everywhere, as `str::replace` does) where the address
/// starts with it; `https://` put in front where it starts with neither
/// `http://` nor `https://`.
pub open spec fn database_url(raw: Seq<char>) -> Seq<char> {
    let t = trim(raw);
    let u = if "libsql://"@.is_prefix_of(t) {
        replace_all(t, "libsql://"@, "https://"@)
    } else {
        t
    };
    if "http://"@.is_prefix_of(u) || "https://"@.is_prefix_of(u) {
        u
    } else {
        "https://"@ + u
    }
}

/// The address of the pipeline endpoint: the database's address without
/// trailing slashes, followed by `/v2/pipeline`.
pub open spec fn pipeline_url(raw: Seq<char>) -> Seq<char> {
    trim_end_char(database_url(raw), '/') + "/v2/pipeline"@
}

/// The headers of the pipeline request, `raw_token` being the configured
/// token.
pub open spec fn pipeline_header_list(raw_token: Seq<char>) -> Seq<(Seq<char>, Seq<char>)> {
    seq![
        ("Authorization"@, "Bearer "@ + trim(raw_token)),
        ("Content-Type"@, "application/json"@),
    ]
}

/// The database's address made an HTTPS one.
pub fn database_base_url(raw: &str) -> (r: Vec<char>)
    ensures
        r@ == database_url(raw@),
{
    let t = trimmed(&chars_of(raw));
    let libsql = chars_of("libsql://");
    let https = chars_of("https://");
    let http = chars_of("http://");
    proof {
        reveal_strlit("libsql://");
    }
    let u = if starts_with_exec(&t, &libsql) {
        replace_all_exec(&t, &libsql, &https)
    } else {
        t
    };
    if starts_with_exec(&u, &http) || starts_with_exec(&u, &https) {
        u
    } else {
        let mut r = https;
        append_all(&mut r, &u);
        r
    }
}

/// The address of the pipeline endpoint, from the configured address.
pub fn pipeline_endpoint(raw_url: &str) -> (r: String)
    ensures
        r@ == pipeline_url(raw_url@),
{
    let base = database_base_url(raw_url);
    let mut r = trim_end_char_exec(&base, '/');
    append_str(&mut r, "/v2/pipeline");
    string_of(&r)
}

/// The headers of the pipeline request, from the configured token.
pub fn pipeline_headers(raw_token: &str) -> (r: Vec<(String, String)>)
    ensures
        header_view(r@) == pipeline_header_list(raw_token@),
{
    let mut auth = chars_of("Bearer ");
    append_all(&mut auth, &trimmed(&chars_of(raw_token)));
    let mut r: Vec<(String, String)> = Vec::new();
    push_header(&mut r, "Authorization", string_of(&auth));
    push_header(&mut r, "Content-Type", "application/json".to_owned());
    assert(header_view(r@) =~= pipeline_header_list(raw_token@));
    r
}

// ---------------------------------------------------------------------------
// The pipeline
// ---------------------------------------------------------------------------

/// An argument of a statement, written as `{"type": .., "value": ..}`.
pub struct SqlArg {
    pub value_type: String,
    pub value: String,
}

/// A statement and its arguments.
pub struct Statement {
    pub sql: String,
    pub args: Vec<SqlArg>,
}

/// A request of a pipeline, written with its kind under `"type"`.
pub struct PipelineRequest {
    pub req_type: String,
    pub stmt: Statement,
}

/// What is sent to the pipeline endpoint.
pub struct Pipeline {
    pub requests: Vec<PipelineRequest>,
}

/// A text argument.
pub fn text_arg(value: &str) -> (r: SqlArg)
    ensures
        r.value_type@ == "text"@,
        r.value@ == value@,
{
    SqlArg { value_type: "text".to_owned(), value: value.to_owned() }
}

/// The pipeline that runs `sql` with `args` and then closes the stream.
pub fn build_pipeline(sql: &str, args: Vec<SqlArg>) -> (r: Pipeline)
    ensures
        r.requests@.len() == 2,
        r.requests@[0].req_type@ == "execute"@,
        r.requests@[0].stmt.sql@ == sql@,
        r.requests@[0].stmt.args == args,
        r.requests@[1].req_type@ == "close"@,
        r.requests@[1].stmt.sql@ == Seq::<char>::empty(),
        r.requests@[1].stmt.args@.len() == 0,
{
    let mut requests: Vec<PipelineRequest> = Vec::new();
    requests.push(
        PipelineRequest {
            req_type: "execute".to_owned(),
            stmt: Statement { sql: sql.to_owned(), args },
        },
    );
    requests.push(
        PipelineRequest {
            req_type: "close".to_owned(),
            stmt: Statement { sql: "".to_owned(), args: Vec::new() },
        },
    );
    proof {
        reveal_strlit("");
    }
    Pipeline { requests }
}

// ---------------------------------------------------------------------------
// The reply
// ---------------------------------------------------------------------------

/// Why a pipeline reply gives no response.
pub enum DbError {
    /// The reply holds no result.
    NoResults { sql: String },
    /// The first result reports an error (its JSON text).
    Turso { sql: String, error: String },
    /// The first result holds no response.
    NoResponse { sql: String },
}

impl DbError {
    /// The message of the error.
    pub open spec fn message_text(&self) -> Seq<char> {
        match self {
            DbError::NoResults { sql } => "No results in pipeline response for SQL: "@ + sql@,
            DbError::Turso { sql, error } => "Turso error for SQL '"@ + sql@ + "': "@ + error@,
            DbError::NoResponse { sql } => "No response in pipeline result for SQL: "@ + sql@,
        }
    }

    /// The message of the error.
    pub fn message(&self) -> (r: String)
        ensures
            r@ == self.message_text(),
    {
        proof {
            reveal_strlit("");
        }
        match self {
            DbError::NoResults { sql } => concat3(
                "No results in pipeline response for SQL: ",
                sql.as_str(),
                "",
            ),
            DbError::Turso { sql, error } => {
                let mut v = chars_of("Turso error for SQL '");
                append_str(&mut v, sql.as_str());
                append_str(&mut v, "': ");
                append_str(&mut v, error.as_str());
                string_of(&v)
            },
            DbError::NoResponse { sql } => concat3(
                "No response in pipeline result for SQL: ",
                sql.as_str(),
                "",
            ),
        }
    }
}

/// The response of the statement `sql`, given the results of its pipeline:
/// the member `"response"` of the first result, unless there is no result
/// or the first result has a member `"error"` (or has no response).
pub fn statement_response<'a>(results: &'a Vec<Json>, sql: &str) -> (r: Result<&'a Json, DbError>)
    ensures
        results@.len() == 0 ==> (r matches Err(DbError::NoResults { sql: s }) && s@ == sql@),
        results@.len() > 0 ==> {
            let first = results@[0];
            match member(first, "error"@) {
                Some(e) => (r matches Err(DbError::Turso { sql: s, error: t }) && s@ == sql@ && t@
                    == json_text(e)),
                None => match member(first, "response"@) {
                    Some(resp) => (r matches Ok(v) && *v == resp),
                    None => (r matches Err(DbError::NoResponse { sql: s }) && s@ == sql@),
                },
            }
        },
{
    if results.len() == 0 {
        return Err(DbError::NoResults { sql: sql.to_owned() });
    }
    let first = &results[0];
    match get_member(first, "error") {
        Some(e) => {
            return Err(DbError::Turso { sql: sql.to_owned(), error: json_to_text(e) });
        },
        None => {},
    }
    match get_member(first, "response") {
        Some(resp) => Ok(resp),
        None => Err(DbError::NoResponse { sql: sql.to_owned() }),
    }
}

/// The text of a value as the store reports it: the string itself, or the
/// value's JSON text.
pub open spec fn value_text(j: Json) -> Seq<char> {
    match text_value(j) {
        Some(s) => s,
        None => json_text(j),
    }
}

/// The value that a `SELECT` response reports: the first column of the first
/// row under `/result/rows`; of a typed cell (an object with a member
/// `"value"`) that member's text, else the cell's text. `None` where there
/// is no such cell.
pub open spec fn stored_value(response: Json) -> Option<Seq<char>> {
    match member(response, "result"@) {
        None => None,
        Some(result) => match member(result, "rows"@) {
            None => None,
            Some(rows) => match element(rows, 0) {
                None => None,
                Some(row) => match element(row, 0) {
                    None => None,
                    Some(cell) => match member(cell, "value"@) {
                        Some(v) => Some(value_text(v)),
                        None => Some(value_text(cell)),
                    },
                },
            },
        },
    }
}

/// The text of a value as the store reports it.
fn value_text_of(j: &Json) -> (r: String)
    ensures
        r@ == value_text(*j),
{
    match get_text(j) {
        Some(s) => s.clone(),
        None => json_to_text(j),
    }
}

/// The value that a `SELECT` response reports (the pointer `/result/rows`,
/// whose tokens are no array indices, is followed member by member).
pub fn value_from_response(response: &Json) -> (r: Option<String>)
    ensures
        opt_text(r) == stored_value(*response),
{
    let result = match get_member(response, "result") {
        Some(x) => x,
        None => {
            return None;
        },
    };
    let rows = match get_member(result, "rows") {
        Some(x) => x,
        None => {
            return None;
        },
    };
    let row = match get_element(rows, 0) {
        Some(x) => x,
        None => {
            return None;
        },
    };
    let cell = match get_element(row, 0) {
        Some(x) => x,
        None => {
            return None;
        },
    };
    match get_member(cell, "value") {
        Some(v) => Some(value_text_of(v)),
        None => Some(value_text_of(cell)),
    }
}

// ---------------------------------------------------------------------------
// Laws
// ---------------------------------------------------------------------------

/// The database's address is always an HTTP one: it starts with `http://`
/// or `https://`.
pub proof fn law_database_url_is_http(raw: Seq<char>)
    ensures
        "http://"@.is_prefix_of(database_url(raw)) || "https://"@.is_prefix_of(database_url(raw)),
{
    let t = trim(raw);
    let u = if "libsql://"@.is_prefix_of(t) {
        replace_all(t, "libsql://"@, "https://"@)
    } else {
        t
    };
    if !("http://"@.is_prefix_of(u) || "https://"@.is_prefix_of(u)) {
        assert(("https://"@ + u).subrange(0, "https://"@.len() as int) =~= "https://"@);
    }
}

/// A text starts with the first character of each of its non-empty prefixes.
proof fn lemma_prefix_first(p: Seq<char>, s: Seq<char>)
    requires
        p.len() > 0,
        p.is_prefix_of(s),
    ensures
        s[0] == p[0],
{
    assert(s.subrange(0, p.len() as int)[0] == s[0]);
}

/// The first and the last character of the database's address are not
/// white space.
proof fn lemma_database_url_ends(raw: Seq<char>)
    ensures
        database_url(raw).len() > 0,
        !is_white_space(database_url(raw)[0]),
        !is_white_space(database_url(raw).last()),
{
    reveal_strlit("libsql://");
    reveal_strlit("https://");
    reveal_strlit("http://");
    let t = trim(raw);
    lemma_trim_shape(raw);
    let u = if "libsql://"@.is_prefix_of(t) {
        lemma_replace_keeps_last_non_white(t, "libsql://"@, "https://"@);
        replace_all(t, "libsql://"@, "https://"@)
    } else {
        t
    };
    law_database_url_is_http(raw);
    let r = database_url(raw);
    if "http://"@.is_prefix_of(r) {
        lemma_prefix_first("http://"@, r);
    } else {
        lemma_prefix_first("https://"@, r);
    }
    assert(r[0] == 'h');
    if "http://"@.is_prefix_of(u) || "https://"@.is_prefix_of(u) {
        assert(r == u);
    } else {
        assert(r == "https://"@ + u);
        if u.len() > 0 {
            assert(r.last() == u.last());
        }
    }
}

/// Making the address an HTTPS one twice changes nothing the second time.
pub proof fn law_database_url_idempotent(raw: Seq<char>)
    ensures
        database_url(database_url(raw)) == database_url(raw),
{
    reveal_strlit("libsql://");
    let r = database_url(raw);
    lemma_database_url_ends(raw);
    lemma_trim_unchanged(r);
    law_database_url_is_http(raw);
    reveal_strlit("https://");
    reveal_strlit("http://");
    if "http://"@.is_prefix_of(r) {
        lemma_prefix_first("http://"@, r);
    } else {
        lemma_prefix_first("https://"@, r);
    }
    assert(r[0] == 'h');
    assert(!"libsql://"@.is_prefix_of(r)) by {
        if "libsql://"@.is_prefix_of(r) {
            lemma_prefix_first("libsql://"@, r);
        }
    }
}

/// The table's name is never blank and is already trimmed.
pub proof fn law_table_name_trimmed(configured: Option<Seq<char>>)
    ensures
        table_name(configured).len() > 0,
        trim(table_name(configured)) == table_name(configured),
{
    reveal_strlit("lachuoi_kv_store");
    let d = default_table();
    assert(d[0] == 'l' && d.last() == 'e');
    lemma_trim_unchanged(d);
    let raw = match configured {
        Some(c) => c,
        None => d,
    };
    law_trim_idempotent(raw);
}

/// How the configured address becomes the database's address, by its
/// trimmed text `t`: an `http://` or `https://` address is kept whole; one
/// that starts with `libsql://` starts with `https://` instead (and is
/// otherwise unchanged where `libsql://` occurs nowhere else); any other is
/// put behind `https://`.
pub proof fn law_database_url_cases(raw: Seq<char>)
    ensures
        ({
            let t = trim(raw);
            &&& ("http://"@.is_prefix_of(t) || "https://"@.is_prefix_of(t)) ==> database_url(raw)
                == t
            &&& "libsql://"@.is_prefix_of(t) ==> "https://"@.is_prefix_of(database_url(raw))
            &&& "libsql://"@.is_prefix_of(t) && !contains_text(t.skip(9), "libsql://"@)
                ==> database_url(raw) == "https://"@ + t.skip(9)
            &&& !"libsql://"@.is_prefix_of(t) && !"http://"@.is_prefix_of(t)
                && !"https://"@.is_prefix_of(t) ==> database_url(raw) == "https://"@ + t
        }),
{
    reveal_strlit("libsql://");
    reveal_strlit("https://");
    reveal_strlit("http://");
    let t = trim(raw);
    if "http://"@.is_prefix_of(t) || "https://"@.is_prefix_of(t) {
        assert(!"libsql://"@.is_prefix_of(t)) by {
            if "libsql://"@.is_prefix_of(t) {
                lemma_prefix_first("libsql://"@, t);
                if "http://"@.is_prefix_of(t) {
                    lemma_prefix_first("http://"@, t);
                } else {
                    lemma_prefix_first("https://"@, t);
                }
            }
        }
    }
    if "libsql://"@.is_prefix_of(t) {
        let u = replace_all(t, "libsql://"@, "https://"@);
        assert(u == "https://"@ + replace_all(t.skip(9), "libsql://"@, "https://"@));
        assert(u.subrange(0, 8) =~= "https://"@);
        if !contains_text(t.skip(9), "libsql://"@) {
            law_replace_without_occurrence(t.skip(9), "libsql://"@, "https://"@);
        }
    }
}

/// The pipeline endpoint is the database's address with its trailing `/`
/// removed and nothing else, followed by `/v2/pipeline`.
pub proof fn law_pipeline_url_shape(raw: Seq<char>)
    ensures
        ({
            let d = database_url(raw);
            let u = pipeline_url(raw);
            let suffix = "/v2/pipeline"@;
            let p = u.take(u.len() - suffix.len());
            &&& u.len() >= suffix.len()
            &&& u.skip(u.len() - suffix.len()) == suffix
            &&& p.is_prefix_of(d)
            &&& forall|k: int| p.len() <= k < d.len() ==> d[k] == '/'
            &&& (p.len() == 0 || p.last() != '/')
            &&& (d.len() == 0 || d.last() != '/') ==> u == d + suffix
        }),
{
    let d = database_url(raw);
    let q = trim_end_char(d, '/');
    lemma_trim_end_char_shape(d, '/');
    let u = pipeline_url(raw);
    let suffix = "/v2/pipeline"@;
    assert(u.take(u.len() - suffix.len()) =~= q);
    assert(u.skip(u.len() - suffix.len()) =~= suffix);
    if d.len() == 0 || d.last() != '/' {
        assert(q == d);
    }
}

/// The table is the configured name trimmed where that is not blank, and
/// `lachuoi_kv_store` otherwise.
pub proof fn law_table_name_choice(configured: Option<Seq<char>>)
    ensures
        match configured {
            Some(c) => if trim(c).len() > 0 {
                table_name(configured) == trim(c)
            } else {
                table_name(configured) == "lachuoi_kv_store"@
            },
            None => table_name(configured) == "lachuoi_kv_store"@,
        },
{
    reveal_strlit("lachuoi_kv_store");
    let d = default_table();
    assert(d[0] == 'l' && d.last() == 'e');
    lemma_trim_unchanged(d);
}

} // verus!
