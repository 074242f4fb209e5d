use vstd::prelude::*;
use crate::schema::{Column, ColumnV, EnumDef, EnumV, ForeignKey, ForeignKeyV, Index, IndexV, Table, TableV};
use crate::text::Duplicate;

verus! {

/// One atomic, independently renderable schema change.
#[derive(Debug)]
pub enum Step {
    CreateTable(Table),
    DropTable(String),
    AddColumn { table: String, column: Column },
    DropColumn { table: String, column: String },
    /// Carries the definitions before and after, so that the transition can be judged.
    AlterColumn { table: String, previous: Column, next: Column },
    CreateEnum(EnumDef),
    DropEnum(String),
    AddEnumVariant { enum_name: String, variant: String },
    RemoveEnumVariant { enum_name: String, variant: String },
    AddForeignKey { table: String, foreign_key: ForeignKey },
    DropForeignKey { table: String, foreign_key: ForeignKey },
    CreateIndex { table: String, index: Index },
    DropIndex { table: String, index: Index },
    /// An operator-authored script, run verbatim.
    RawScript(String),
}

pub enum StepV {
    CreateTable(TableV),
    DropTable(Seq<char>),
    AddColumn { table: Seq<char>, column: ColumnV },
    DropColumn { table: Seq<char>, column: Seq<char> },
    AlterColumn { table: Seq<char>, previous: ColumnV, next: ColumnV },
    CreateEnum(EnumV),
    DropEnum(Seq<char>),
    AddEnumVariant { enum_name: Seq<char>, variant: Seq<char> },
    RemoveEnumVariant { enum_name: Seq<char>, variant: Seq<char> },
    AddForeignKey { table: Seq<char>, foreign_key: ForeignKeyV },
    DropForeignKey { table: Seq<char>, foreign_key: ForeignKeyV },
    CreateIndex { table: Seq<char>, index: IndexV },
    DropIndex { table: Seq<char>, index: IndexV },
    RawScript(Seq<char>),
}

impl View for Step {
    type V = StepV;

    open spec fn view(&self) -> StepV {
        match self {
            Step::CreateTable(t) => StepV::CreateTable(t@),
            Step::DropTable(n) => StepV::DropTable(n@),
            Step::AddColumn { table, column } => StepV::AddColumn { table: table@, column: column@ },
            Step::DropColumn { table, column } => StepV::DropColumn { table: table@, column: column@ },
            Step::AlterColumn { table, previous, next } => StepV::AlterColumn {
                table: table@,
                previous: previous@,
                next: next@,
            },
            Step::CreateEnum(e) => StepV::CreateEnum(e@),
            Step::DropEnum(n) => StepV::DropEnum(n@),
            Step::AddEnumVariant { enum_name, variant } => StepV::AddEnumVariant {
                enum_name: enum_name@,
                variant: variant@,
            },
            Step::RemoveEnumVariant { enum_name, variant } => StepV::RemoveEnumVariant {
                enum_name: enum_name@,
                variant: variant@,
            },
            Step::AddForeignKey { table, foreign_key } => StepV::AddForeignKey {
                table: table@,
                foreign_key: foreign_key@,
            },
            Step::DropForeignKey { table, foreign_key } => StepV::DropForeignKey {
                table: table@,
                foreign_key: foreign_key@,
            },
            Step::CreateIndex { table, index } => StepV::CreateIndex { table: table@, index: index@ },
            Step::DropIndex { table, index } => StepV::DropIndex { table: table@, index: index@ },
            Step::RawScript(s) => StepV::RawScript(s@),
        }
    }
}

impl Duplicate for Step {
    fn duplicate(&self) -> (r: Step) {
        match self {
            Step::CreateTable(t) => Step::CreateTable(t.duplicate()),
            Step::DropTable(n) => Step::DropTable(n.clone()),
            Step::AddColumn { table, column } => Step::AddColumn {
                table: table.clone(),
                column: column.duplicate(),
            },
            Step::DropColumn { table, column } => Step::DropColumn {
                table: table.clone(),
                column: column.clone(),
            },
            Step::AlterColumn { table, previous, next } => Step::AlterColumn {
                table: table.clone(),
                previous: previous.duplicate(),
                next: next.duplicate(),
            },
            Step::CreateEnum(e) => Step::CreateEnum(e.duplicate()),
            Step::DropEnum(n) => Step::DropEnum(n.clone()),
            Step::AddEnumVariant { enum_name, variant } => Step::AddEnumVariant {
                enum_name: enum_name.clone(),
                variant: variant.clone(),
            },
            Step::RemoveEnumVariant { enum_name, variant } => Step::RemoveEnumVariant {
                enum_name: enum_name.clone(),
                variant: variant.clone(),
            },
            Step::AddForeignKey { table, foreign_key } => Step::AddForeignKey {
                table: table.clone(),
                foreign_key: foreign_key.duplicate(),
            },
            Step::DropForeignKey { table, foreign_key } => Step::DropForeignKey {
                table: table.clone(),
                foreign_key: foreign_key.duplicate(),
            },
            Step::CreateIndex { table, index } => Step::CreateIndex {
                table: table.clone(),
                index: index.duplicate(),
            },
            Step::DropIndex { table, index } => Step::DropIndex {
                table: table.clone(),
                index: index.duplicate(),
            },
            Step::RawScript(s) => Step::RawScript(s.clone()),
        }
    }
}

} // verus!
