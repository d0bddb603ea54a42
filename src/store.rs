use vstd::prelude::*;

use crate::codes::{has_prefix, starts_with};
use crate::models::{Link, User};
use crate::text::push_char;

verus! {

/// The SQL dialect of the backend in use.
#[derive(Debug)]
pub enum Dialect {
    Postgres,
    Sqlite,
}

/// How a statement against the relational store failed.
#[derive(Debug)]
pub enum StoreError {
    /// A uniqueness constraint rejected a write; carries the constraint's name.
    UniqueViolation { constraint: String },
    /// A statement that must return a row returned none.
    NotFound,
    /// The backend could not be reached.
    ConnectionFailed,
    /// Any other failure, with the backend's message.
    Other(String),
}

/// A statement that the link and analytics operations issue, with its parameters.
#[derive(Debug)]
pub enum Statement {
    /// The link with this code, if any.
    FindLinkByCode { short_code: String },
    /// Inserts a link with no clicks and returns the stored row.
    InsertLink { original_url: String, short_code: String, user_id: i32 },
    /// Appends one click row.
    InsertClick { link_id: i32, source: Option<String>, query_source: Option<String> },
    /// Adds one to the click count of the link with this code and returns
    /// the updated row, in one statement.
    IncrementClicks { short_code: String },
    /// Whether a link with this id belongs to this user.
    FindOwnedLink { link_id: i32, user_id: i32 },
    /// Removes every click row of the link.
    DeleteClicksOf { link_id: i32 },
    /// Removes the link.
    DeleteLink { link_id: i32 },
    /// The user's links, newest first.
    LinksOfUser { user_id: i32 },
    /// The calendar date (`YYYY-MM-DD`, UTC) of each click row of the link.
    ClickDates { link_id: i32 },
    /// The referral tag of each click row of the link.
    ClickTags { link_id: i32 },
    /// How many users exist.
    CountUsers,
    /// The user with this email, if any.
    FindUserByEmail { email: String },
    /// Inserts a user and returns the stored row.
    InsertUser { email: String, password_hash: String },
    /// Inserts a user unless one with this email exists.
    InsertUserIfAbsent { email: String, password_hash: String },
    /// Inserts a link unless one with this code exists.
    InsertLinkIfAbsent { original_url: String, short_code: String, user_id: i32 },
    /// Checks that the backend answers.
    Ping,
}

/// What the store answered to the last statement or commit.
#[derive(Debug)]
pub enum Reply {
    Row(Option<Link>),
    Found(bool),
    Executed,
    Links(Vec<Link>),
    Dates(Vec<String>),
    Tags(Vec<Option<String>>),
    Count(i64),
    UserRow(Option<User>),
    Committed,
    Failed(StoreError),
}

/// The statement's text with numbered `$n` parameters, as Postgres writes them.
pub open spec fn sql_template(stmt: Statement) -> Seq<char> {
    match stmt {
        Statement::FindLinkByCode { .. } => "SELECT * FROM links WHERE short_code = $1"@,
        Statement::InsertLink { .. } => "INSERT INTO links (original_url, short_code, user_id) VALUES ($1, $2, $3) RETURNING *"@,
        Statement::InsertClick { .. } => "INSERT INTO clicks (link_id, source, query_source) VALUES ($1, $2, $3)"@,
        Statement::IncrementClicks { .. } => "UPDATE links SET clicks = clicks + 1 WHERE short_code = $1 RETURNING *"@,
        Statement::FindOwnedLink { .. } => "SELECT id FROM links WHERE id = $1 AND user_id = $2"@,
        Statement::DeleteClicksOf { .. } => "DELETE FROM clicks WHERE link_id = $1"@,
        Statement::DeleteLink { .. } => "DELETE FROM links WHERE id = $1"@,
        Statement::LinksOfUser { .. } => "SELECT * FROM links WHERE user_id = $1 ORDER BY created_at DESC"@,
        Statement::ClickDates { .. } => "SELECT CAST(DATE(created_at) AS TEXT) AS date FROM clicks WHERE link_id = $1"@,
        Statement::ClickTags { .. } => "SELECT query_source FROM clicks WHERE link_id = $1"@,
        Statement::CountUsers => "SELECT CAST(COUNT(*) AS BIGINT) FROM users"@,
        Statement::FindUserByEmail { .. } => "SELECT * FROM users WHERE email = $1"@,
        Statement::InsertUser { .. } => "INSERT INTO users (email, password_hash) VALUES ($1, $2) RETURNING *"@,
        Statement::InsertUserIfAbsent { .. } => "INSERT INTO users (email, password_hash) VALUES ($1, $2) ON CONFLICT (email) DO NOTHING"@,
        Statement::InsertLinkIfAbsent { .. } => "INSERT INTO links (original_url, short_code, user_id) VALUES ($1, $2, $3) ON CONFLICT (short_code) DO NOTHING"@,
        Statement::Ping => "SELECT 1"@,
    }
}

/// A statement text with each `$` parameter marker written as SQLite's `?`.
pub open spec fn sqlite_form(text: Seq<char>) -> Seq<char> {
    text.map_values(|c: char| if c == '$' { '?' } else { c })
}

/// The text of `stmt` in `dialect`.
pub open spec fn sql_text(stmt: Statement, dialect: Dialect) -> Seq<char> {
    match dialect {
        Dialect::Postgres => sql_template(stmt),
        Dialect::Sqlite => sqlite_form(sql_template(stmt)),
    }
}

impl Statement {
    fn template(&self) -> (r: &'static str)
        ensures
            r@ == sql_template(*self),
    {
        match self {
            Statement::FindLinkByCode { .. } => "SELECT * FROM links WHERE short_code = $1",
            Statement::InsertLink { .. } => "INSERT INTO links (original_url, short_code, user_id) VALUES ($1, $2, $3) RETURNING *",
            Statement::InsertClick { .. } => "INSERT INTO clicks (link_id, source, query_source) VALUES ($1, $2, $3)",
            Statement::IncrementClicks { .. } => "UPDATE links SET clicks = clicks + 1 WHERE short_code = $1 RETURNING *",
            Statement::FindOwnedLink { .. } => "SELECT id FROM links WHERE id = $1 AND user_id = $2",
            Statement::DeleteClicksOf { .. } => "DELETE FROM clicks WHERE link_id = $1",
            Statement::DeleteLink { .. } => "DELETE FROM links WHERE id = $1",
            Statement::LinksOfUser { .. } => "SELECT * FROM links WHERE user_id = $1 ORDER BY created_at DESC",
            Statement::ClickDates { .. } => "SELECT CAST(DATE(created_at) AS TEXT) AS date FROM clicks WHERE link_id = $1",
            Statement::ClickTags { .. } => "SELECT query_source FROM clicks WHERE link_id = $1",
            Statement::CountUsers => "SELECT CAST(COUNT(*) AS BIGINT) FROM users",
            Statement::FindUserByEmail { .. } => "SELECT * FROM users WHERE email = $1",
            Statement::InsertUser { .. } => "INSERT INTO users (email, password_hash) VALUES ($1, $2) RETURNING *",
            Statement::InsertUserIfAbsent { .. } => "INSERT INTO users (email, password_hash) VALUES ($1, $2) ON CONFLICT (email) DO NOTHING",
            Statement::InsertLinkIfAbsent { .. } => "INSERT INTO links (original_url, short_code, user_id) VALUES ($1, $2, $3) ON CONFLICT (short_code) DO NOTHING",
            Statement::Ping => "SELECT 1",
        }
    }

    /// The statement's text for the backend's dialect: the two differ only
    /// in how parameters are marked (`$1` for Postgres, `?1` for SQLite).
    pub fn sql(&self, dialect: &Dialect) -> (r: String)
        ensures
            r@ == sql_text(*self, *dialect),
    {
        let t = self.template();
        let n = t.unicode_len();
        let mut out = String::new();
        let mut i: usize = 0;
        while i < n
            invariant
                n == t@.len(),
                i <= n,
                out@ == (match *dialect {
                    Dialect::Postgres => t@.subrange(0, i as int),
                    Dialect::Sqlite => sqlite_form(t@.subrange(0, i as int)),
                }),
            decreases n - i,
        {
            let c = t.get_char(i);
            let d = match dialect {
                Dialect::Postgres => c,
                Dialect::Sqlite => if c == '$' {
                    '?'
                } else {
                    c
                },
            };
            push_char(&mut out, d);
            i = i + 1;
            assert(t@.subrange(0, i as int) =~= t@.subrange(0, i - 1).push(c));
            assert(sqlite_form(t@.subrange(0, i as int)) =~= sqlite_form(t@.subrange(0, i - 1)).push(
                if c == '$' { '?' } else { c },
            ));
        }
        assert(t@.subrange(0, n as int) =~= t@);
        out
    }
}

/// The backend that a connection URL selects: Postgres for a
/// `postgres://` URL, the embedded SQLite file otherwise.
pub fn select_dialect(database_url: &Option<String>) -> (r: Dialect)
    ensures
        r is Postgres <==> (database_url matches Some(u) && starts_with(u@, "postgres://"@)),
{
    match database_url {
        Some(u) => if has_prefix(u.as_str(), "postgres://") {
            Dialect::Postgres
        } else {
            Dialect::Sqlite
        },
        None => Dialect::Sqlite,
    }
}

} // verus!
