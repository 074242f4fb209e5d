use vstd::prelude::*;
use crate::schema::EnumDef;
use crate::text::{joined, push_joined, push_str, views};

verus! {

/// A SQL dialect: one database engine's variant of SQL and its capabilities.
#[derive(Debug, Clone, Copy, PartialEq, Eq, Structural)]
pub enum Dialect {
    Postgres,
    MySql,
    Sqlite,
    SqlServer,
}

pub open spec fn native_enums(d: Dialect) -> bool {
    d is Postgres || d is MySql
}

impl Dialect {
    /// Whether the dialect has enum types of its own.
    pub fn supports_native_enums(&self) -> (r: bool)
        ensures
            r == native_enums(*self),
    {
        match self {
            Dialect::Postgres | Dialect::MySql => true,
            _ => false,
        }
    }

    /// Whether DDL statements can run inside a transaction that rolls them back.
    pub fn supports_transactional_ddl(&self) -> (r: bool)
        ensures
            r == !(*self is MySql),
    {
        match self {
            Dialect::MySql => false,
            _ => true,
        }
    }
}

/// The name of the database enum behind a column: MySQL enums belong to their
/// column and are named `<table>_<column>`; elsewhere the enum keeps its name.
pub open spec fn enum_name_in(d: Dialect, enum_name: Seq<char>, table: Seq<char>, column: Seq<char>) -> Seq<char> {
    if d is MySql {
        table + "_"@ + column
    } else {
        enum_name
    }
}

pub fn enum_type_name(d: Dialect, enum_name: &String, table: &String, column: &String) -> (r: String)
    ensures
        r@ == enum_name_in(d, enum_name@, table@, column@),
{
    let mut m = String::new();
    match d {
        Dialect::MySql => {
            push_str(&mut m, table.as_str());
            push_str(&mut m, "_");
            push_str(&mut m, column.as_str());
        },
        _ => push_str(&mut m, enum_name.as_str()),
    }
    assert(m@ =~= enum_name_in(d, enum_name@, table@, column@));
    m
}

/// The variants as SQL string literals, separated by commas.
pub open spec fn variant_list(vs: Seq<Seq<char>>) -> Seq<char> {
    joined(vs, ", "@, "'"@)
}

/// The statement that creates an enum type, where the dialect has a separate
/// one: `CREATE TYPE "<name>" AS ENUM ('A', 'B')` on Postgres.
pub open spec fn create_enum_sql(d: Dialect, name: Seq<char>, variants: Seq<Seq<char>>) -> Option<Seq<char>> {
    if d is Postgres {
        Some("CREATE TYPE \""@ + name + "\" AS ENUM ("@ + variant_list(variants) + ")"@)
    } else {
        None
    }
}

pub fn render_create_enum(d: Dialect, e: &EnumDef) -> (r: Option<String>)
    ensures
        match r {
            Some(s) => create_enum_sql(d, e.name@, views(e.variants@)) == Some(s@),
            None => create_enum_sql(d, e.name@, views(e.variants@)) is None,
        },
{
    match d {
        Dialect::Postgres => {
            let mut m = String::new();
            push_str(&mut m, "CREATE TYPE \"");
            push_str(&mut m, e.name.as_str());
            push_str(&mut m, "\" AS ENUM (");
            push_joined(&mut m, &e.variants, ", ", "'");
            push_str(&mut m, ")");
            assert(m@ =~= "CREATE TYPE \""@ + e.name@ + "\" AS ENUM ("@ + variant_list(views(e.variants@)) + ")"@);
            Some(m)
        },
        _ => None,
    }
}

/// The SQL type of a column that holds values of enum `e`: the enum type itself
/// on Postgres, an inline `ENUM(...)` on MySQL, and plain text where the
/// dialect has no enums.
pub open spec fn enum_column_sql(d: Dialect, name: Seq<char>, variants: Seq<Seq<char>>) -> Seq<char> {
    match d {
        Dialect::Postgres => "\""@ + name + "\""@,
        Dialect::MySql => "ENUM("@ + variant_list(variants) + ")"@,
        Dialect::Sqlite => "TEXT"@,
        Dialect::SqlServer => "NVARCHAR(1000)"@,
    }
}

pub fn render_enum_column_type(d: Dialect, e: &EnumDef) -> (r: String)
    ensures
        r@ == enum_column_sql(d, e.name@, views(e.variants@)),
{
    let mut m = String::new();
    match d {
        Dialect::Postgres => {
            push_str(&mut m, "\"");
            push_str(&mut m, e.name.as_str());
            push_str(&mut m, "\"");
        },
        Dialect::MySql => {
            push_str(&mut m, "ENUM(");
            push_joined(&mut m, &e.variants, ", ", "'");
            push_str(&mut m, ")");
        },
        Dialect::Sqlite => push_str(&mut m, "TEXT"),
        Dialect::SqlServer => push_str(&mut m, "NVARCHAR(1000)"),
    }
    assert(m@ =~= enum_column_sql(d, e.name@, views(e.variants@)));
    m
}

} // verus!
