//! The SQL dialect family and its documented per-dialect behaviors:
//! placeholder syntax, identifier quoting, transaction-isolation ordering,
//! and the version expression.
use vstd::prelude::*;

verus! {

/// The SQL dialect family a connection speaks.
#[derive(Clone, Copy, Debug, PartialEq, Eq, Structural)]
pub enum SqlFamily {
    Postgres,
    Mysql,
    Sqlite,
    Mssql,
}

/// How a dialect renders bind-parameter placeholders: an optional numbering
/// appended to a prefix, or a bare unnumbered marker.
#[derive(Debug)]
pub struct PlaceholderFormat {
    /// Text put before the number, or the whole marker when unnumbered.
    pub prefix: String,
    /// The number of the first parameter, when the dialect numbers its
    /// placeholders.
    pub base_index: Option<usize>,
}

impl SqlFamily {
    /// The placeholder format of the dialect: `$N` from one for Postgres,
    /// a bare `?` for MySQL and SQLite, `@PN` from one for SQL Server.
    pub fn placeholder_format(&self) -> (r: PlaceholderFormat)
        ensures
            *self == SqlFamily::Postgres ==> r.prefix@ == "$"@ && r.base_index == Some(1usize),
            *self == SqlFamily::Mysql ==> r.prefix@ == "?"@ && r.base_index is None,
            *self == SqlFamily::Sqlite ==> r.prefix@ == "?"@ && r.base_index is None,
            *self == SqlFamily::Mssql ==> r.prefix@ == "@P"@ && r.base_index == Some(1usize),
    {
        match self {
            SqlFamily::Postgres => PlaceholderFormat {
                prefix: String::from_str("$"),
                base_index: Some(1),
            },
            SqlFamily::Mysql => PlaceholderFormat {
                prefix: String::from_str("?"),
                base_index: None,
            },
            SqlFamily::Sqlite => PlaceholderFormat {
                prefix: String::from_str("?"),
                base_index: None,
            },
            SqlFamily::Mssql => PlaceholderFormat {
                prefix: String::from_str("@P"),
                base_index: Some(1),
            },
        }
    }

    /// The opening quote of a dialect identifier.
    pub fn quote_open(&self) -> (r: &'static str)
        ensures
            *self == SqlFamily::Postgres ==> r@ == "\""@,
            *self == SqlFamily::Mysql ==> r@ == "`"@,
            *self == SqlFamily::Sqlite ==> r@ == "\""@,
            *self == SqlFamily::Mssql ==> r@ == "["@,
    {
        match self {
            SqlFamily::Postgres => "\"",
            SqlFamily::Mysql => "`",
            SqlFamily::Sqlite => "\"",
            SqlFamily::Mssql => "[",
        }
    }

    /// The closing quote of a dialect identifier.
    pub fn quote_close(&self) -> (r: &'static str)
        ensures
            *self == SqlFamily::Postgres ==> r@ == "\""@,
            *self == SqlFamily::Mysql ==> r@ == "`"@,
            *self == SqlFamily::Sqlite ==> r@ == "\""@,
            *self == SqlFamily::Mssql ==> r@ == "]"@,
    {
        match self {
            SqlFamily::Postgres => "\"",
            SqlFamily::Mysql => "`",
            SqlFamily::Sqlite => "\"",
            SqlFamily::Mssql => "]",
        }
    }

    /// The model of a quoted identifier: the identifier's characters between
    /// the dialect's quotes.
    pub open spec fn spec_quoted(self, name: Seq<char>) -> Seq<char> {
        match self {
            SqlFamily::Postgres => seq!['"'] + name + seq!['"'],
            SqlFamily::Mysql => seq!['`'] + name + seq!['`'],
            SqlFamily::Sqlite => seq!['"'] + name + seq!['"'],
            SqlFamily::Mssql => seq!['['] + name + seq![']'],
        }
    }

    /// Quotes an identifier in the dialect's style.
    pub fn quote_ident(&self, name: &String) -> (r: String)
        ensures
            r@ == self.spec_quoted(name@),
    {
        let mut out = String::new();
        out.append(self.quote_open());
        out.append(name.as_str());
        out.append(self.quote_close());
        proof {
            reveal_strlit("\"");
            reveal_strlit("`");
            reveal_strlit("[");
            reveal_strlit("]");
            assert(out@ =~= self.spec_quoted(name@));
        }
        out
    }

    /// Whether this is the MySQL dialect.
    pub fn is_mysql(&self) -> (r: bool)
        ensures
            r == (*self == SqlFamily::Mysql),
    {
        matches!(self, SqlFamily::Mysql)
    }

    /// Whether the transaction isolation level must be set before `BEGIN`:
    /// true for MySQL and SQL Server, false for Postgres and SQLite.
    pub fn requires_isolation_first(&self) -> (r: bool)
        ensures
            r == (*self == SqlFamily::Mysql || *self == SqlFamily::Mssql),
    {
        match self {
            SqlFamily::Mysql => true,
            SqlFamily::Postgres => false,
            SqlFamily::Sqlite => false,
            SqlFamily::Mssql => true,
        }
    }

    /// The model of the dialect's version expression.
    pub open spec fn spec_version_expr(self) -> Seq<char> {
        match self {
            SqlFamily::Postgres => "version()"@,
            SqlFamily::Mysql => "@@version"@,
            SqlFamily::Sqlite => "sqlite_version()"@,
            SqlFamily::Mssql => "@@VERSION"@,
        }
    }

    /// The dialect's expression that evaluates to the server version.
    pub fn version_expr(&self) -> (r: &'static str)
        ensures
            r@ == self.spec_version_expr(),
    {
        match self {
            SqlFamily::Postgres => "version()",
            SqlFamily::Mysql => "@@version",
            SqlFamily::Sqlite => "sqlite_version()",
            SqlFamily::Mssql => "@@VERSION",
        }
    }
}

/// The model of the comment that stands in for a query the driver ran
/// implicitly.
pub open spec fn spec_phantom_message(stmt: Seq<char>) -> Seq<char> {
    "-- Implicit \""@ + stmt + "\" query via underlying driver"@
}

/// The comment logged in place of a query the driver ran implicitly.
pub fn phantom_query_message(stmt: &String) -> (r: String)
    ensures
        r@ == spec_phantom_message(stmt@),
{
    let mut out = String::from_str("-- Implicit \"");
    out.append(stmt.as_str());
    out.append("\" query via underlying driver");
    out
}

/// The model of the query that reads the server version.
pub open spec fn spec_version_query(expr: Seq<char>) -> Seq<char> {
    "SELECT "@ + expr + " AS version"@
}

impl SqlFamily {
    /// The query that reads the server version through the dialect's own
    /// version expression.
    pub fn version_query(&self) -> (r: String)
        ensures
            r@ == spec_version_query(self.spec_version_expr()),
    {
        let expr = self.version_expr();
        let mut out = String::from_str("SELECT ");
        out.append(expr);
        out.append(" AS version");
        out
    }
}

/// The model of the command that sets the transaction isolation level.
pub open spec fn spec_isolation_cmd(level: Seq<char>) -> Seq<char> {
    "SET TRANSACTION ISOLATION LEVEL "@ + level
}

/// The command that sets the transaction isolation level; for MySQL and SQL
/// Server it must be issued before `BEGIN`, for Postgres and SQLite after.
pub fn set_tx_isolation_cmd(level: &String) -> (r: String)
    ensures
        r@ == spec_isolation_cmd(level@),
{
    let mut out = String::from_str("SET TRANSACTION ISOLATION LEVEL ");
    out.append(level.as_str());
    out
}

} // verus!
