use vstd::prelude::*;
use crate::dialect::{create_enum_sql, render_create_enum, Dialect};
use crate::schema::{Column, ColumnType, ColumnV, ForeignKey, Index, IndexV, ReferentialAction, Table, TableV, TypeV};
use crate::step::{Step, StepV};
use crate::text::{decimal, joined, push_decimal, push_joined, push_str, views};

verus! {

/// An identifier between double quotes.
pub open spec fn quoted(n: Seq<char>) -> Seq<char> {
    "\""@ + n + "\""@
}

pub open spec fn pg_type(t: TypeV, autoincrement: bool) -> Seq<char> {
    match t {
        TypeV::Int => if autoincrement { "SERIAL"@ } else { "INTEGER"@ },
        TypeV::BigInt => if autoincrement { "BIGSERIAL"@ } else { "BIGINT"@ },
        TypeV::Boolean => "BOOLEAN"@,
        TypeV::DateTime => "TIMESTAMP(3)"@,
        TypeV::VarChar(n) => "VARCHAR("@ + decimal(n as nat) + ")"@,
        TypeV::Text => "TEXT"@,
        TypeV::Enum(e) => quoted(e),
    }
}

/// A default value as SQL: an enum variant is a string literal, any other
/// default is written as given.
pub open spec fn default_sql(t: TypeV, d: Seq<char>) -> Seq<char> {
    if t is Enum { "'"@ + d + "'"@ } else { d }
}

pub open spec fn column_def(c: ColumnV) -> Seq<char> {
    quoted(c.name) + " "@ + pg_type(c.tpe, c.autoincrement)
        + (if c.nullable { Seq::<char>::empty() } else { " NOT NULL"@ })
        + match c.default {
            Some(d) => " DEFAULT "@ + default_sql(c.tpe, d),
            None => Seq::<char>::empty(),
        }
}

pub open spec fn column_defs(cs: Seq<ColumnV>) -> Seq<char>
    decreases cs.len(),
{
    if cs.len() == 0 {
        Seq::empty()
    } else if cs.len() == 1 {
        column_def(cs[0])
    } else {
        column_defs(cs.drop_last()) + ", "@ + column_def(cs.last())
    }
}

pub open spec fn name_list(vs: Seq<Seq<char>>) -> Seq<char> {
    joined(vs, ", "@, "\""@)
}

pub open spec fn create_table_sql(t: TableV) -> Seq<char> {
    "CREATE TABLE "@ + quoted(t.name) + " ("@ + column_defs(t.columns)
        + (if t.primary_key.len() == 0 {
            Seq::<char>::empty()
        } else {
            ", PRIMARY KEY ("@ + name_list(t.primary_key) + ")"@
        }) + ")"@
}

pub open spec fn create_index_sql(table: Seq<char>, ix: IndexV) -> Seq<char> {
    "CREATE "@ + (if ix.unique { "UNIQUE "@ } else { Seq::<char>::empty() }) + "INDEX "@ + quoted(ix.name)
        + " ON "@ + quoted(table) + "("@ + name_list(ix.columns) + ")"@
}

pub open spec fn action_sql(a: ReferentialAction) -> Seq<char> {
    match a {
        ReferentialAction::NoAction => "NO ACTION"@,
        ReferentialAction::Restrict => "RESTRICT"@,
        ReferentialAction::Cascade => "CASCADE"@,
        ReferentialAction::SetNull => "SET NULL"@,
    }
}

/// The name of a foreign key's constraint: `<table>_<columns>_fkey`.
pub open spec fn fk_name(table: Seq<char>, columns: Seq<Seq<char>>) -> Seq<char> {
    table + "_"@ + joined(columns, "_"@, ""@) + "_fkey"@
}

pub open spec fn alter_prefix(table: Seq<char>, column: Seq<char>) -> Seq<char> {
    "ALTER TABLE "@ + quoted(table) + " ALTER COLUMN "@ + quoted(column) + " "@
}

/// The Postgres statements of a step, in the order in which they run.
pub open spec fn pg_statements(s: StepV) -> Seq<Seq<char>> {
    match s {
        StepV::CreateTable(t) => seq![create_table_sql(t)]
            + t.indexes.map_values(|ix: IndexV| create_index_sql(t.name, ix)),
        StepV::DropTable(n) => seq!["DROP TABLE "@ + quoted(n)],
        StepV::AddColumn { table, column } => seq!["ALTER TABLE "@ + quoted(table) + " ADD COLUMN "@ + column_def(column)],
        StepV::DropColumn { table, column } => seq!["ALTER TABLE "@ + quoted(table) + " DROP COLUMN "@ + quoted(column)],
        StepV::AlterColumn { table, previous, next } => seq![
            alter_prefix(table, next.name) + "SET DATA TYPE "@ + pg_type(next.tpe, false) + " USING "@
                + quoted(next.name) + "::text::"@ + pg_type(next.tpe, false),
            alter_prefix(table, next.name) + if next.nullable { "DROP NOT NULL"@ } else { "SET NOT NULL"@ },
            alter_prefix(table, next.name) + match next.default {
                Some(d) => "SET DEFAULT "@ + default_sql(next.tpe, d),
                None => "DROP DEFAULT"@,
            },
        ],
        StepV::CreateEnum(e) => seq![create_enum_sql(Dialect::Postgres, e.name, e.variants)->Some_0],
        StepV::DropEnum(n) => seq!["DROP TYPE "@ + quoted(n)],
        StepV::AddEnumVariant { enum_name, variant } => seq!["ALTER TYPE "@ + quoted(enum_name) + " ADD VALUE '"@ + variant + "'"@],
        StepV::RemoveEnumVariant { enum_name, variant } => seq![
            "DELETE FROM pg_enum WHERE enumtypid = '"@ + quoted(enum_name) + "'::regtype AND enumlabel = '"@ + variant + "'"@,
        ],
        StepV::AddForeignKey { table, foreign_key } => seq![
            "ALTER TABLE "@ + quoted(table) + " ADD CONSTRAINT "@ + quoted(fk_name(table, foreign_key.columns))
                + " FOREIGN KEY ("@ + name_list(foreign_key.columns) + ") REFERENCES "@
                + quoted(foreign_key.referenced_table) + "("@ + name_list(foreign_key.referenced_columns)
                + ") ON DELETE "@ + action_sql(foreign_key.on_delete) + " ON UPDATE "@ + action_sql(foreign_key.on_update),
        ],
        StepV::DropForeignKey { table, foreign_key } => seq![
            "ALTER TABLE "@ + quoted(table) + " DROP CONSTRAINT "@ + quoted(fk_name(table, foreign_key.columns)),
        ],
        StepV::CreateIndex { table, index } => seq![create_index_sql(table, index)],
        StepV::DropIndex { table, index } => seq!["DROP INDEX "@ + quoted(index.name)],
        StepV::RawScript(sql) => seq![sql],
    }
}

fn push_quoted(m: &mut String, n: &String)
    ensures
        final(m)@ == old(m)@ + quoted(n@),
{
    push_str(m, "\"");
    push_str(m, n.as_str());
    push_str(m, "\"");
    assert(m@ =~= old(m)@ + quoted(n@));
}

fn push_pg_type(m: &mut String, t: &ColumnType, autoincrement: bool)
    ensures
        final(m)@ == old(m)@ + pg_type(t@, autoincrement),
{
    match t {
        ColumnType::Int => if autoincrement { push_str(m, "SERIAL") } else { push_str(m, "INTEGER") },
        ColumnType::BigInt => if autoincrement { push_str(m, "BIGSERIAL") } else { push_str(m, "BIGINT") },
        ColumnType::Boolean => push_str(m, "BOOLEAN"),
        ColumnType::DateTime => push_str(m, "TIMESTAMP(3)"),
        ColumnType::VarChar(n) => {
            push_str(m, "VARCHAR(");
            push_decimal(m, *n as u64);
            push_str(m, ")");
        },
        ColumnType::Text => push_str(m, "TEXT"),
        ColumnType::Enum(e) => push_quoted(m, e),
    }
    assert(m@ =~= old(m)@ + pg_type(t@, autoincrement));
}

fn push_default(m: &mut String, t: &ColumnType, d: &String)
    ensures
        final(m)@ == old(m)@ + default_sql(t@, d@),
{
    if t.is_enum() {
        push_str(m, "'");
        push_str(m, d.as_str());
        push_str(m, "'");
    } else {
        push_str(m, d.as_str());
    }
    assert(m@ =~= old(m)@ + default_sql(t@, d@));
}

fn push_column_def(m: &mut String, c: &Column)
    ensures
        final(m)@ == old(m)@ + column_def(c@),
{
    push_quoted(m, &c.name);
    push_str(m, " ");
    push_pg_type(m, &c.tpe, c.autoincrement);
    if !c.nullable {
        push_str(m, " NOT NULL");
    }
    match &c.default {
        Some(d) => {
            push_str(m, " DEFAULT ");
            push_default(m, &c.tpe, d);
        },
        None => {},
    }
    assert(m@ =~= old(m)@ + column_def(c@));
}

fn push_column_defs(m: &mut String, cs: &Vec<Column>)
    ensures
        final(m)@ == old(m)@ + column_defs(views(cs@)),
{
    let ghost start = m@;
    let ghost cv = views(cs@);
    let mut i: usize = 0;
    while i < cs.len()
        invariant
            i <= cs.len(),
            cv == views(cs@),
            m@ == start + column_defs(cv.subrange(0, i as int)),
        decreases cs.len() - i,
    {
        let ghost prefix = cv.subrange(0, i as int + 1);
        assert(prefix.drop_last() =~= cv.subrange(0, i as int));
        if i > 0 {
            push_str(m, ", ");
        }
        push_column_def(m, &cs[i]);
        proof {
            if i == 0 {
                assert(column_defs(cv.subrange(0, 0)) =~= Seq::<char>::empty());
            }
        }
        assert(m@ =~= start + column_defs(prefix));
        i += 1;
    }
    assert(cv.subrange(0, cv.len() as int) =~= cv);
}

fn create_table_statement(t: &Table) -> (r: String)
    ensures
        r@ == create_table_sql(t@),
{
    let mut m = String::new();
    push_str(&mut m, "CREATE TABLE ");
    push_quoted(&mut m, &t.name);
    push_str(&mut m, " (");
    push_column_defs(&mut m, &t.columns);
    if t.primary_key.len() > 0 {
        push_str(&mut m, ", PRIMARY KEY (");
        push_joined(&mut m, &t.primary_key, ", ", "\"");
        push_str(&mut m, ")");
    }
    push_str(&mut m, ")");
    assert(m@ =~= create_table_sql(t@));
    m
}

fn create_index_statement(table: &String, ix: &Index) -> (r: String)
    ensures
        r@ == create_index_sql(table@, ix@),
{
    let mut m = String::new();
    push_str(&mut m, "CREATE ");
    if ix.unique {
        push_str(&mut m, "UNIQUE ");
    }
    push_str(&mut m, "INDEX ");
    push_quoted(&mut m, &ix.name);
    push_str(&mut m, " ON ");
    push_quoted(&mut m, table);
    push_str(&mut m, "(");
    push_joined(&mut m, &ix.columns, ", ", "\"");
    push_str(&mut m, ")");
    assert(m@ =~= create_index_sql(table@, ix@));
    m
}

fn action_str(a: ReferentialAction) -> (r: &'static str)
    ensures
        r@ == action_sql(a),
{
    match a {
        ReferentialAction::NoAction => "NO ACTION",
        ReferentialAction::Restrict => "RESTRICT",
        ReferentialAction::Cascade => "CASCADE",
        ReferentialAction::SetNull => "SET NULL",
    }
}

fn push_fk_name(m: &mut String, table: &String, fk: &ForeignKey)
    ensures
        final(m)@ == old(m)@ + quoted(fk_name(table@, views(fk.columns@))),
{
    push_str(m, "\"");
    push_str(m, table.as_str());
    push_str(m, "_");
    push_joined(m, &fk.columns, "_", "");
    push_str(m, "_fkey");
    push_str(m, "\"");
    assert(m@ =~= old(m)@ + quoted(fk_name(table@, views(fk.columns@))));
}

fn alter_statement(table: &String, column: &String) -> (r: String)
    ensures
        r@ == alter_prefix(table@, column@),
{
    let mut m = String::new();
    push_str(&mut m, "ALTER TABLE ");
    push_quoted(&mut m, table);
    push_str(&mut m, " ALTER COLUMN ");
    push_quoted(&mut m, column);
    push_str(&mut m, " ");
    assert(m@ =~= alter_prefix(table@, column@));
    m
}

/// Renders a step as Postgres DDL: the statements that carry it out, in order.
/// A raw script is passed through verbatim.
pub fn render_postgres(s: &Step) -> (r: Vec<String>)
    ensures
        views(r@) == pg_statements(s@),
{
    let mut out: Vec<String> = Vec::new();
    match s {
        Step::CreateTable(t) => {
            out.push(create_table_statement(t));
            let ghost iv = views(t.indexes@);
            let mut i: usize = 0;
            while i < t.indexes.len()
                invariant
                    i <= t.indexes.len(),
                    iv == views(t.indexes@),
                    out@.len() == i + 1,
                    out@[0]@ == create_table_sql(t@),
                    forall|j: int| 0 <= j < i ==> out@[j + 1]@ == create_index_sql(t.name@, #[trigger] iv[j]),
                decreases t.indexes.len() - i,
            {
                out.push(create_index_statement(&t.name, &t.indexes[i]));
                i += 1;
            }
            assert(views(out@) =~= pg_statements(s@));
        },
        Step::DropTable(n) => {
            let mut m = String::new();
            push_str(&mut m, "DROP TABLE ");
            push_quoted(&mut m, n);
            out.push(m);
            assert(views(out@) =~= pg_statements(s@));
        },
        Step::AddColumn { table, column } => {
            let mut m = String::new();
            push_str(&mut m, "ALTER TABLE ");
            push_quoted(&mut m, table);
            push_str(&mut m, " ADD COLUMN ");
            push_column_def(&mut m, column);
            out.push(m);
            assert(views(out@) =~= pg_statements(s@));
        },
        Step::DropColumn { table, column } => {
            let mut m = String::new();
            push_str(&mut m, "ALTER TABLE ");
            push_quoted(&mut m, table);
            push_str(&mut m, " DROP COLUMN ");
            push_quoted(&mut m, column);
            out.push(m);
            assert(views(out@) =~= pg_statements(s@));
        },
        Step::AlterColumn { table, previous: _, next } => {
            let mut m = alter_statement(table, &next.name);
            push_str(&mut m, "SET DATA TYPE ");
            push_pg_type(&mut m, &next.tpe, false);
            push_str(&mut m, " USING ");
            push_quoted(&mut m, &next.name);
            push_str(&mut m, "::text::");
            push_pg_type(&mut m, &next.tpe, false);
            assert(m@ =~= alter_prefix(table@, next.name@) + "SET DATA TYPE "@ + pg_type(next.tpe@, false) + " USING "@
                + quoted(next.name@) + "::text::"@ + pg_type(next.tpe@, false));
            out.push(m);
            let mut m = alter_statement(table, &next.name);
            if next.nullable {
                push_str(&mut m, "DROP NOT NULL");
            } else {
                push_str(&mut m, "SET NOT NULL");
            }
            assert(m@ =~= alter_prefix(table@, next.name@) + if next.nullable { "DROP NOT NULL"@ } else { "SET NOT NULL"@ });
            out.push(m);
            let mut m = alter_statement(table, &next.name);
            match &next.default {
                Some(d) => {
                    push_str(&mut m, "SET DEFAULT ");
                    push_default(&mut m, &next.tpe, d);
                },
                None => push_str(&mut m, "DROP DEFAULT"),
            }
            assert(m@ =~= alter_prefix(table@, next.name@) + match next@.default {
                Some(d) => "SET DEFAULT "@ + default_sql(next.tpe@, d),
                None => "DROP DEFAULT"@,
            });
            out.push(m);
            assert(views(out@) =~= pg_statements(s@));
        },
        Step::CreateEnum(e) => {
            match render_create_enum(Dialect::Postgres, e) {
                Some(m) => out.push(m),
                None => {},
            }
            assert(views(out@) =~= pg_statements(s@));
        },
        Step::DropEnum(n) => {
            let mut m = String::new();
            push_str(&mut m, "DROP TYPE ");
            push_quoted(&mut m, n);
            out.push(m);
            assert(views(out@) =~= pg_statements(s@));
        },
        Step::AddEnumVariant { enum_name, variant } => {
            let mut m = String::new();
            push_str(&mut m, "ALTER TYPE ");
            push_quoted(&mut m, enum_name);
            push_str(&mut m, " ADD VALUE '");
            push_str(&mut m, variant.as_str());
            push_str(&mut m, "'");
            out.push(m);
            assert(views(out@) =~= pg_statements(s@));
        },
        Step::RemoveEnumVariant { enum_name, variant } => {
            let mut m = String::new();
            push_str(&mut m, "DELETE FROM pg_enum WHERE enumtypid = '");
            push_quoted(&mut m, enum_name);
            push_str(&mut m, "'::regtype AND enumlabel = '");
            push_str(&mut m, variant.as_str());
            push_str(&mut m, "'");
            out.push(m);
            assert(views(out@) =~= pg_statements(s@));
        },
        Step::AddForeignKey { table, foreign_key } => {
            let mut m = String::new();
            push_str(&mut m, "ALTER TABLE ");
            push_quoted(&mut m, table);
            push_str(&mut m, " ADD CONSTRAINT ");
            push_fk_name(&mut m, table, foreign_key);
            push_str(&mut m, " FOREIGN KEY (");
            push_joined(&mut m, &foreign_key.columns, ", ", "\"");
            push_str(&mut m, ") REFERENCES ");
            push_quoted(&mut m, &foreign_key.referenced_table);
            push_str(&mut m, "(");
            push_joined(&mut m, &foreign_key.referenced_columns, ", ", "\"");
            push_str(&mut m, ") ON DELETE ");
            push_str(&mut m, action_str(foreign_key.on_delete));
            push_str(&mut m, " ON UPDATE ");
            push_str(&mut m, action_str(foreign_key.on_update));
            out.push(m);
            assert(views(out@) =~= pg_statements(s@));
        },
        Step::DropForeignKey { table, foreign_key } => {
            let mut m = String::new();
            push_str(&mut m, "ALTER TABLE ");
            push_quoted(&mut m, table);
            push_str(&mut m, " DROP CONSTRAINT ");
            push_fk_name(&mut m, table, foreign_key);
            out.push(m);
            assert(views(out@) =~= pg_statements(s@));
        },
        Step::CreateIndex { table, index } => {
            out.push(create_index_statement(table, index));
            assert(views(out@) =~= pg_statements(s@));
        },
        Step::DropIndex { table: _, index } => {
            let mut m = String::new();
            push_str(&mut m, "DROP INDEX ");
            push_quoted(&mut m, &index.name);
            out.push(m);
            assert(views(out@) =~= pg_statements(s@));
        },
        Step::RawScript(sql) => {
            out.push(sql.clone());
            assert(views(out@) =~= pg_statements(s@));
        },
    }
    out
}

} // verus!
