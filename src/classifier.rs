use vstd::prelude::*;
use crate::differ::{first_from, lookup};
use crate::schema::{ColumnType, TypeV};
use crate::step::{Step, StepV};
use crate::text::{decimal, push_decimal, push_str, views};

verus! {

/// How dangerous a step is.
#[derive(Debug, Clone, Copy, PartialEq, Eq, Structural)]
pub enum Risk {
    /// Runs without touching existing data.
    Safe,
    /// May lose data; runs only once the operator acknowledges it.
    Warning,
    /// Cannot run on the data as it stands; may fail at runtime even when forced.
    Unexecutable,
}

/// The number of rows of a table, as the database reported it.
#[derive(Debug)]
pub struct RowCount {
    pub table: String,
    pub rows: u64,
}

/// The number of non-null values of a column, as the database reported it.
#[derive(Debug)]
pub struct ValueCount {
    pub table: String,
    pub column: String,
    pub non_null: u64,
}

/// A message on a step that is not safe, with its severity and the position of
/// the step in the plan.
#[derive(Debug)]
pub struct Warning {
    pub severity: Risk,
    pub message: String,
    pub step_index: usize,
}

pub struct WarningV {
    pub severity: Risk,
    pub message: Seq<char>,
    pub step_index: int,
}

impl View for Warning {
    type V = WarningV;

    open spec fn view(&self) -> WarningV {
        WarningV { severity: self.severity, message: self.message@, step_index: self.step_index as int }
    }
}

// ---------------------------------------------------------------------------
// What the database reported
// ---------------------------------------------------------------------------

/// The reported row count of a table: the first report on it, if any.
pub open spec fn rows_of(counts: Seq<RowCount>, table: Seq<char>) -> Option<u64> {
    match lookup(counts.map_values(|c: RowCount| c.table@), table) {
        Some(i) => Some(counts[i].rows),
        None => None,
    }
}

pub open spec fn values_from(counts: Seq<ValueCount>, table: Seq<char>, column: Seq<char>, i: int) -> Option<u64>
    decreases counts.len() - i,
{
    if i < 0 || i >= counts.len() {
        None
    } else if counts[i].table@ == table && counts[i].column@ == column {
        Some(counts[i].non_null)
    } else {
        values_from(counts, table, column, i + 1)
    }
}

/// The reported number of non-null values of a column: the first report on it, if any.
pub open spec fn values_of(counts: Seq<ValueCount>, table: Seq<char>, column: Seq<char>) -> Option<u64> {
    values_from(counts, table, column, 0)
}

fn row_count_of(counts: &Vec<RowCount>, table: &String) -> (r: Option<u64>)
    ensures
        r == rows_of(counts@, table@),
{
    let ghost keys = counts@.map_values(|c: RowCount| c.table@);
    let mut i: usize = 0;
    while i < counts.len()
        invariant
            i <= counts.len(),
            keys == counts@.map_values(|c: RowCount| c.table@),
            keys.len() == counts@.len(),
            first_from(keys, table@, 0) == first_from(keys, table@, i as int),
        decreases counts.len() - i,
    {
        assert(keys[i as int] == counts@[i as int].table@);
        if counts[i].table == *table {
            return Some(counts[i].rows);
        }
        i += 1;
    }
    None
}

fn value_count_of(counts: &Vec<ValueCount>, table: &String, column: &String) -> (r: Option<u64>)
    ensures
        r == values_of(counts@, table@, column@),
{
    let mut i: usize = 0;
    while i < counts.len()
        invariant
            i <= counts.len(),
            values_from(counts@, table@, column@, 0) == values_from(counts@, table@, column@, i as int),
        decreases counts.len() - i,
    {
        if counts[i].table == *table && counts[i].column == *column {
            return Some(counts[i].non_null);
        }
        i += 1;
    }
    None
}

// ---------------------------------------------------------------------------
// Types
// ---------------------------------------------------------------------------

/// A type's name as messages show it.
pub open spec fn type_label(t: TypeV) -> Seq<char> {
    match t {
        TypeV::Int => "Int"@,
        TypeV::BigInt => "BigInt"@,
        TypeV::Boolean => "Boolean"@,
        TypeV::DateTime => "DateTime"@,
        TypeV::VarChar(n) => "VarChar("@ + decimal(n as nat) + ")"@,
        TypeV::Text => "Text"@,
        TypeV::Enum(e) => "Enum(\""@ + e + "\")"@,
    }
}

pub fn type_label_of(t: &ColumnType) -> (r: String)
    ensures
        r@ == type_label(t@),
{
    let mut m = String::new();
    match t {
        ColumnType::Int => push_str(&mut m, "Int"),
        ColumnType::BigInt => push_str(&mut m, "BigInt"),
        ColumnType::Boolean => push_str(&mut m, "Boolean"),
        ColumnType::DateTime => push_str(&mut m, "DateTime"),
        ColumnType::VarChar(n) => {
            push_str(&mut m, "VarChar(");
            push_decimal(&mut m, *n as u64);
            push_str(&mut m, ")");
        },
        ColumnType::Text => push_str(&mut m, "Text"),
        ColumnType::Enum(e) => {
            push_str(&mut m, "Enum(\"");
            push_str(&mut m, e.as_str());
            push_str(&mut m, "\")");
        },
    }
    assert(m@ =~= type_label(t@));
    m
}

/// A change of type that keeps every value as it is.
pub open spec fn widening(a: TypeV, b: TypeV) -> bool {
    ||| a == b
    ||| (a is Int && b is BigInt)
    ||| (a is VarChar && b is VarChar && a->VarChar_0 <= b->VarChar_0)
    ||| (a is VarChar && b is Text)
}

pub fn is_widening(a: &ColumnType, b: &ColumnType) -> (r: bool)
    ensures
        r == widening(a@, b@),
{
    if a.same_as(b) {
        return true;
    }
    match (a, b) {
        (ColumnType::Int, ColumnType::BigInt) => true,
        (ColumnType::VarChar(x), ColumnType::VarChar(y)) => *x <= *y,
        (ColumnType::VarChar(_), ColumnType::Text) => true,
        _ => false,
    }
}

// ---------------------------------------------------------------------------
// Messages
// ---------------------------------------------------------------------------

pub open spec fn drop_table_msg(table: Seq<char>, rows: Option<u64>) -> Seq<char> {
    "You are about to drop the `"@ + table + match rows {
        Some(k) => "` table, which is not empty ("@ + decimal(k as nat) + " rows)."@,
        None => "` table. If the table is not empty, all the data it contains will be lost."@,
    }
}

pub open spec fn drop_column_msg(table: Seq<char>, column: Seq<char>, rows: Option<u64>) -> Seq<char> {
    "You are about to drop the column `"@ + column + "` on the `"@ + table + match rows {
        Some(k) => "` table, which still contains "@ + decimal(k as nat) + " rows. All the data in the column will be lost."@,
        None => "` table. All the data in the column will be lost."@,
    }
}

pub open spec fn remove_variant_msg(enum_name: Seq<char>, variant: Seq<char>) -> Seq<char> {
    "The migration will remove the values ["@ + variant + "] on the enum `"@ + enum_name
        + "`. If these variants are still used in the database, the migration will fail."@
}

pub open spec fn cast_msg(table: Seq<char>, column: Seq<char>, values: Option<u64>, from: TypeV, to: TypeV) -> Seq<char> {
    "You are about to alter the column `"@ + column + "` on the `"@ + table + match values {
        Some(k) => "` table, which contains "@ + decimal(k as nat) + " non-null values."@,
        None => "` table."@,
    } + " The data in that column will be cast from `"@ + type_label(from) + "` to `"@ + type_label(to) + "`."@
}

pub open spec fn required_msg(table: Seq<char>, column: Seq<char>, rows: Option<u64>) -> Seq<char> {
    "You are about to make the column `"@ + column + "` on the `"@ + table + match rows {
        Some(k) => "` table required, but the table holds "@ + decimal(k as nat) + " rows."@,
        None => "` table required."@,
    } + " The migration will fail if the column contains null values."@
}

pub open spec fn add_required_msg(table: Seq<char>, column: Seq<char>, rows: Option<u64>) -> Seq<char> {
    "Added the required column `"@ + column + "` to the `"@ + table + "` table without a default value."@
        + match rows {
        Some(k) => " There are "@ + decimal(k as nat) + " rows in this table, it is not possible to execute this step."@,
        None => " The migration will fail if the table is not empty."@,
    }
}

fn drop_table_message(table: &String, rows: Option<u64>) -> (r: String)
    ensures
        r@ == drop_table_msg(table@, rows),
{
    let mut m = String::new();
    push_str(&mut m, "You are about to drop the `");
    push_str(&mut m, table.as_str());
    let ghost head = m@;
    match rows {
        Some(k) => {
            push_str(&mut m, "` table, which is not empty (");
            push_decimal(&mut m, k);
            push_str(&mut m, " rows).");
        },
        None => push_str(&mut m, "` table. If the table is not empty, all the data it contains will be lost."),
    }
    assert(m@ =~= drop_table_msg(table@, rows));
    m
}

fn drop_column_message(table: &String, column: &String, rows: Option<u64>) -> (r: String)
    ensures
        r@ == drop_column_msg(table@, column@, rows),
{
    let mut m = String::new();
    push_str(&mut m, "You are about to drop the column `");
    push_str(&mut m, column.as_str());
    push_str(&mut m, "` on the `");
    push_str(&mut m, table.as_str());
    match rows {
        Some(k) => {
            push_str(&mut m, "` table, which still contains ");
            push_decimal(&mut m, k);
            push_str(&mut m, " rows. All the data in the column will be lost.");
        },
        None => push_str(&mut m, "` table. All the data in the column will be lost."),
    }
    assert(m@ =~= drop_column_msg(table@, column@, rows));
    m
}

fn remove_variant_message(enum_name: &String, variant: &String) -> (r: String)
    ensures
        r@ == remove_variant_msg(enum_name@, variant@),
{
    let mut m = String::new();
    push_str(&mut m, "The migration will remove the values [");
    push_str(&mut m, variant.as_str());
    push_str(&mut m, "] on the enum `");
    push_str(&mut m, enum_name.as_str());
    push_str(&mut m, "`. If these variants are still used in the database, the migration will fail.");
    assert(m@ =~= remove_variant_msg(enum_name@, variant@));
    m
}

fn cast_message(table: &String, column: &String, values: Option<u64>, from: &ColumnType, to: &ColumnType) -> (r: String)
    ensures
        r@ == cast_msg(table@, column@, values, from@, to@),
{
    let mut m = String::new();
    push_str(&mut m, "You are about to alter the column `");
    push_str(&mut m, column.as_str());
    push_str(&mut m, "` on the `");
    push_str(&mut m, table.as_str());
    match values {
        Some(k) => {
            push_str(&mut m, "` table, which contains ");
            push_decimal(&mut m, k);
            push_str(&mut m, " non-null values.");
        },
        None => push_str(&mut m, "` table."),
    }
    push_str(&mut m, " The data in that column will be cast from `");
    push_str(&mut m, type_label_of(from).as_str());
    push_str(&mut m, "` to `");
    push_str(&mut m, type_label_of(to).as_str());
    push_str(&mut m, "`.");
    assert(m@ =~= cast_msg(table@, column@, values, from@, to@));
    m
}

fn required_message(table: &String, column: &String, rows: Option<u64>) -> (r: String)
    ensures
        r@ == required_msg(table@, column@, rows),
{
    let mut m = String::new();
    push_str(&mut m, "You are about to make the column `");
    push_str(&mut m, column.as_str());
    push_str(&mut m, "` on the `");
    push_str(&mut m, table.as_str());
    match rows {
        Some(k) => {
            push_str(&mut m, "` table required, but the table holds ");
            push_decimal(&mut m, k);
            push_str(&mut m, " rows.");
        },
        None => push_str(&mut m, "` table required."),
    }
    push_str(&mut m, " The migration will fail if the column contains null values.");
    assert(m@ =~= required_msg(table@, column@, rows));
    m
}

fn add_required_message(table: &String, column: &String, rows: Option<u64>) -> (r: String)
    ensures
        r@ == add_required_msg(table@, column@, rows),
{
    let mut m = String::new();
    push_str(&mut m, "Added the required column `");
    push_str(&mut m, column.as_str());
    push_str(&mut m, "` to the `");
    push_str(&mut m, table.as_str());
    push_str(&mut m, "` table without a default value.");
    match rows {
        Some(k) => {
            push_str(&mut m, " There are ");
            push_decimal(&mut m, k);
            push_str(&mut m, " rows in this table, it is not possible to execute this step.");
        },
        None => push_str(&mut m, " The migration will fail if the table is not empty."),
    }
    assert(m@ =~= add_required_msg(table@, column@, rows));
    m
}

// ---------------------------------------------------------------------------
// Classification
// ---------------------------------------------------------------------------

/// The risk of a step and, for a step that is not safe, its message. Row
/// counts that the database did not report are taken as possibly non-zero.
pub open spec fn assess(s: StepV, rows: Seq<RowCount>, values: Seq<ValueCount>) -> (Risk, Seq<char>) {
    match s {
        StepV::DropTable(t) => if rows_of(rows, t) == Some(0u64) {
            (Risk::Safe, Seq::empty())
        } else {
            (Risk::Warning, drop_table_msg(t, rows_of(rows, t)))
        },
        StepV::DropColumn { table, column } => if rows_of(rows, table) == Some(0u64) {
            (Risk::Safe, Seq::empty())
        } else {
            (Risk::Warning, drop_column_msg(table, column, rows_of(rows, table)))
        },
        StepV::RemoveEnumVariant { enum_name, variant } => (Risk::Warning, remove_variant_msg(enum_name, variant)),
        StepV::AlterColumn { table, previous, next } => if !widening(previous.tpe, next.tpe) {
            if values_of(values, table, next.name) == Some(0u64) {
                (Risk::Safe, Seq::empty())
            } else {
                (Risk::Warning, cast_msg(table, next.name, values_of(values, table, next.name), previous.tpe, next.tpe))
            }
        } else if previous.nullable && !next.nullable {
            if rows_of(rows, table) == Some(0u64) {
                (Risk::Safe, Seq::empty())
            } else {
                (Risk::Warning, required_msg(table, next.name, rows_of(rows, table)))
            }
        } else {
            (Risk::Safe, Seq::empty())
        },
        StepV::AddColumn { table, column } => if !column.nullable && column.default is None && !column.autoincrement {
            if rows_of(rows, table) == Some(0u64) {
                (Risk::Safe, Seq::empty())
            } else {
                (Risk::Unexecutable, add_required_msg(table, column.name, rows_of(rows, table)))
            }
        } else {
            (Risk::Safe, Seq::empty())
        },
        _ => (Risk::Safe, Seq::empty()),
    }
}

/// The warning on the step at position `i`, if it is not safe.
pub open spec fn warning_at(steps: Seq<StepV>, rows: Seq<RowCount>, values: Seq<ValueCount>, i: int) -> Seq<WarningV> {
    let a = assess(steps[i], rows, values);
    if a.0 == Risk::Safe {
        Seq::empty()
    } else {
        seq![WarningV { severity: a.0, message: a.1, step_index: i }]
    }
}

/// The warnings on the first `n` steps, in plan order.
pub open spec fn warnings_upto(steps: Seq<StepV>, rows: Seq<RowCount>, values: Seq<ValueCount>, n: int) -> Seq<WarningV>
    decreases n,
{
    if n <= 0 {
        Seq::empty()
    } else {
        warnings_upto(steps, rows, values, n - 1) + warning_at(steps, rows, values, n - 1)
    }
}

pub open spec fn warnings_spec(steps: Seq<StepV>, rows: Seq<RowCount>, values: Seq<ValueCount>) -> Seq<WarningV> {
    warnings_upto(steps, rows, values, steps.len() as int)
}

/// The risk of one step, and its message where it is not safe.
pub fn assess_step(s: &Step, rows: &Vec<RowCount>, values: &Vec<ValueCount>) -> (r: (Risk, String))
    ensures
        r.0 == assess(s@, rows@, values@).0,
        r.1@ == assess(s@, rows@, values@).1,
{
    match s {
        Step::DropTable(t) => {
            let n = row_count_of(rows, t);
            if n == Some(0u64) {
                (Risk::Safe, String::new())
            } else {
                (Risk::Warning, drop_table_message(t, n))
            }
        },
        Step::DropColumn { table, column } => {
            let n = row_count_of(rows, table);
            if n == Some(0u64) {
                (Risk::Safe, String::new())
            } else {
                (Risk::Warning, drop_column_message(table, column, n))
            }
        },
        Step::RemoveEnumVariant { enum_name, variant } => (Risk::Warning, remove_variant_message(enum_name, variant)),
        Step::AlterColumn { table, previous, next } => {
            if !is_widening(&previous.tpe, &next.tpe) {
                let n = value_count_of(values, table, &next.name);
                if n == Some(0u64) {
                    (Risk::Safe, String::new())
                } else {
                    (Risk::Warning, cast_message(table, &next.name, n, &previous.tpe, &next.tpe))
                }
            } else if previous.nullable && !next.nullable {
                let n = row_count_of(rows, table);
                if n == Some(0u64) {
                    (Risk::Safe, String::new())
                } else {
                    (Risk::Warning, required_message(table, &next.name, n))
                }
            } else {
                (Risk::Safe, String::new())
            }
        },
        Step::AddColumn { table, column } => {
            if !column.nullable && column.default.is_none() && !column.autoincrement {
                let n = row_count_of(rows, table);
                if n == Some(0u64) {
                    (Risk::Safe, String::new())
                } else {
                    (Risk::Unexecutable, add_required_message(table, &column.name, n))
                }
            } else {
                (Risk::Safe, String::new())
            }
        },
        _ => (Risk::Safe, String::new()),
    }
}

/// The risk of each step of a plan, and the warnings, in plan order.
pub struct Classification {
    /// One for each step, at the step's position.
    pub risks: Vec<Risk>,
    pub warnings: Vec<Warning>,
}

/// Labels each step of a plan. This only annotates: it never blocks a plan.
pub fn classify(steps: &Vec<Step>, rows: &Vec<RowCount>, values: &Vec<ValueCount>) -> (r: Classification)
    ensures
        r.risks@.len() == steps@.len(),
        forall|i: int| 0 <= i < steps@.len() ==> r.risks@[i] == (#[trigger] assess(steps@[i]@, rows@, values@)).0,
        views(r.warnings@) == warnings_spec(views(steps@), rows@, values@),
{
    let ghost sv = views(steps@);
    let mut risks: Vec<Risk> = Vec::new();
    let mut warnings: Vec<Warning> = Vec::new();
    let mut i: usize = 0;
    while i < steps.len()
        invariant
            i <= steps.len(),
            sv == views(steps@),
            risks@.len() == i,
            forall|j: int| 0 <= j < i ==> risks@[j] == (#[trigger] assess(steps@[j]@, rows@, values@)).0,
            views(warnings@) == warnings_upto(sv, rows@, values@, i as int),
        decreases steps.len() - i,
    {
        let (risk, message) = assess_step(&steps[i], rows, values);
        let ghost before = views(warnings@);
        risks.push(risk);
        if risk != Risk::Safe {
            warnings.push(Warning { severity: risk, message, step_index: i });
        }
        assert(views(warnings@) =~= warnings_upto(sv, rows@, values@, i as int + 1));
        i += 1;
    }
    Classification { risks, warnings }
}

} // verus!
