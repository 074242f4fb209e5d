use vstd::prelude::*;
use crate::text::{duplicate_all, names_equal, views, Duplicate};

verus! {

/// The logical type of a column, independent of any SQL dialect.
#[derive(Debug)]
pub enum ColumnType {
    Int,
    BigInt,
    Boolean,
    DateTime,
    /// A bounded string of at most the given number of characters.
    VarChar(u32),
    /// An unbounded string.
    Text,
    /// A value of the named enum.
    Enum(String),
}

/// What happens to referencing rows when the referenced row goes away.
#[derive(Debug, Clone, Copy, PartialEq, Eq, Structural)]
pub enum ReferentialAction {
    NoAction,
    Restrict,
    Cascade,
    SetNull,
}

#[derive(Debug)]
pub struct Column {
    pub name: String,
    pub tpe: ColumnType,
    pub nullable: bool,
    /// A literal default value, or the name of an enum variant.
    pub default: Option<String>,
    pub autoincrement: bool,
}

#[derive(Debug)]
pub struct Index {
    pub name: String,
    pub columns: Vec<String>,
    pub unique: bool,
}

#[derive(Debug)]
pub struct ForeignKey {
    pub columns: Vec<String>,
    pub referenced_table: String,
    pub referenced_columns: Vec<String>,
    pub on_delete: ReferentialAction,
    pub on_update: ReferentialAction,
}

#[derive(Debug)]
pub struct Table {
    pub name: String,
    /// In declaration order.
    pub columns: Vec<Column>,
    pub indexes: Vec<Index>,
    pub foreign_keys: Vec<ForeignKey>,
    /// The primary key's columns; empty where the table has none.
    pub primary_key: Vec<String>,
}

#[derive(Debug)]
pub struct EnumDef {
    pub name: String,
    /// In declaration order.
    pub variants: Vec<String>,
}

#[derive(Debug)]
pub struct Schema {
    pub tables: Vec<Table>,
    pub enums: Vec<EnumDef>,
}

/// The mathematical model of a column type: names as character sequences.
pub enum TypeV {
    Int,
    BigInt,
    Boolean,
    DateTime,
    VarChar(u32),
    Text,
    Enum(Seq<char>),
}

pub struct ColumnV {
    pub name: Seq<char>,
    pub tpe: TypeV,
    pub nullable: bool,
    pub default: Option<Seq<char>>,
    pub autoincrement: bool,
}

pub struct IndexV {
    pub name: Seq<char>,
    pub columns: Seq<Seq<char>>,
    pub unique: bool,
}

pub struct ForeignKeyV {
    pub columns: Seq<Seq<char>>,
    pub referenced_table: Seq<char>,
    pub referenced_columns: Seq<Seq<char>>,
    pub on_delete: ReferentialAction,
    pub on_update: ReferentialAction,
}

pub struct TableV {
    pub name: Seq<char>,
    pub columns: Seq<ColumnV>,
    pub indexes: Seq<IndexV>,
    pub foreign_keys: Seq<ForeignKeyV>,
    pub primary_key: Seq<Seq<char>>,
}

pub struct EnumV {
    pub name: Seq<char>,
    pub variants: Seq<Seq<char>>,
}

pub struct SchemaV {
    pub tables: Seq<TableV>,
    pub enums: Seq<EnumV>,
}

impl View for ColumnType {
    type V = TypeV;

    open spec fn view(&self) -> TypeV {
        match self {
            ColumnType::Int => TypeV::Int,
            ColumnType::BigInt => TypeV::BigInt,
            ColumnType::Boolean => TypeV::Boolean,
            ColumnType::DateTime => TypeV::DateTime,
            ColumnType::VarChar(n) => TypeV::VarChar(*n),
            ColumnType::Text => TypeV::Text,
            ColumnType::Enum(e) => TypeV::Enum(e@),
        }
    }
}

pub open spec fn opt_view(o: Option<String>) -> Option<Seq<char>> {
    match o {
        Some(s) => Some(s@),
        None => None,
    }
}

impl View for Column {
    type V = ColumnV;

    open spec fn view(&self) -> ColumnV {
        ColumnV {
            name: self.name@,
            tpe: self.tpe@,
            nullable: self.nullable,
            default: opt_view(self.default),
            autoincrement: self.autoincrement,
        }
    }
}

impl View for Index {
    type V = IndexV;

    open spec fn view(&self) -> IndexV {
        IndexV { name: self.name@, columns: views(self.columns@), unique: self.unique }
    }
}

impl View for ForeignKey {
    type V = ForeignKeyV;

    open spec fn view(&self) -> ForeignKeyV {
        ForeignKeyV {
            columns: views(self.columns@),
            referenced_table: self.referenced_table@,
            referenced_columns: views(self.referenced_columns@),
            on_delete: self.on_delete,
            on_update: self.on_update,
        }
    }
}

impl View for Table {
    type V = TableV;

    open spec fn view(&self) -> TableV {
        TableV {
            name: self.name@,
            columns: views(self.columns@),
            indexes: views(self.indexes@),
            foreign_keys: views(self.foreign_keys@),
            primary_key: views(self.primary_key@),
        }
    }
}

impl View for EnumDef {
    type V = EnumV;

    open spec fn view(&self) -> EnumV {
        EnumV { name: self.name@, variants: views(self.variants@) }
    }
}

impl View for Schema {
    type V = SchemaV;

    open spec fn view(&self) -> SchemaV {
        SchemaV { tables: views(self.tables@), enums: views(self.enums@) }
    }
}

/// No two items share a name.
pub open spec fn unique_names(s: Seq<Seq<char>>) -> bool {
    forall|i: int, j: int| 0 <= i < s.len() && 0 <= j < s.len() && i != j ==> s[i] != s[j]
}

pub open spec fn table_names(ts: Seq<TableV>) -> Seq<Seq<char>> {
    ts.map_values(|t: TableV| t.name)
}

pub open spec fn column_names(cs: Seq<ColumnV>) -> Seq<Seq<char>> {
    cs.map_values(|c: ColumnV| c.name)
}

pub open spec fn enum_names(es: Seq<EnumV>) -> Seq<Seq<char>> {
    es.map_values(|e: EnumV| e.name)
}

/// A schema whose names are unique at every level: tables, the columns of each
/// table, enums and the variants of each enum.
pub open spec fn schema_wf(s: SchemaV) -> bool {
    &&& unique_names(table_names(s.tables))
    &&& forall|i: int| 0 <= i < s.tables.len() ==> unique_names(column_names(#[trigger] s.tables[i].columns))
    &&& unique_names(enum_names(s.enums))
    &&& forall|i: int| 0 <= i < s.enums.len() ==> unique_names(#[trigger] s.enums[i].variants)
}

impl Duplicate for ColumnType {
    fn duplicate(&self) -> (r: ColumnType) {
        match self {
            ColumnType::Int => ColumnType::Int,
            ColumnType::BigInt => ColumnType::BigInt,
            ColumnType::Boolean => ColumnType::Boolean,
            ColumnType::DateTime => ColumnType::DateTime,
            ColumnType::VarChar(n) => ColumnType::VarChar(*n),
            ColumnType::Text => ColumnType::Text,
            ColumnType::Enum(e) => ColumnType::Enum(e.clone()),
        }
    }
}

impl ColumnType {
    pub fn same_as(&self, o: &ColumnType) -> (r: bool)
        ensures
            r == (self@ == o@),
    {
        match (self, o) {
            (ColumnType::Int, ColumnType::Int) => true,
            (ColumnType::BigInt, ColumnType::BigInt) => true,
            (ColumnType::Boolean, ColumnType::Boolean) => true,
            (ColumnType::DateTime, ColumnType::DateTime) => true,
            (ColumnType::VarChar(x), ColumnType::VarChar(y)) => *x == *y,
            (ColumnType::Text, ColumnType::Text) => true,
            (ColumnType::Enum(x), ColumnType::Enum(y)) => *x == *y,
            _ => false,
        }
    }

    pub fn is_enum(&self) -> (r: bool)
        ensures
            r == (self@ is Enum),
    {
        match self {
            ColumnType::Enum(_) => true,
            _ => false,
        }
    }
}

fn duplicate_opt(a: &Option<String>) -> (r: Option<String>)
    ensures
        opt_view(r) == opt_view(*a),
{
    match a {
        None => None,
        Some(s) => Some(s.clone()),
    }
}

fn opt_equal(a: &Option<String>, b: &Option<String>) -> (r: bool)
    ensures
        r == (opt_view(*a) == opt_view(*b)),
{
    match (a, b) {
        (None, None) => true,
        (Some(x), Some(y)) => *x == *y,
        _ => false,
    }
}

impl Duplicate for Column {
    fn duplicate(&self) -> (r: Column) {
        Column {
            name: self.name.clone(),
            tpe: self.tpe.duplicate(),
            nullable: self.nullable,
            default: duplicate_opt(&self.default),
            autoincrement: self.autoincrement,
        }
    }
}

impl Column {
    pub fn same_as(&self, o: &Column) -> (r: bool)
        ensures
            r == (self@ == o@),
    {
        self.name == o.name && self.tpe.same_as(&o.tpe) && self.nullable == o.nullable
            && opt_equal(&self.default, &o.default) && self.autoincrement == o.autoincrement
    }
}

impl Duplicate for Index {
    fn duplicate(&self) -> (r: Index) {
        Index { name: self.name.clone(), columns: duplicate_all(&self.columns), unique: self.unique }
    }
}

impl Index {
    pub fn same_as(&self, o: &Index) -> (r: bool)
        ensures
            r == (self@ == o@),
    {
        self.name == o.name && names_equal(&self.columns, &o.columns) && self.unique == o.unique
    }
}

impl Duplicate for ForeignKey {
    fn duplicate(&self) -> (r: ForeignKey) {
        ForeignKey {
            columns: duplicate_all(&self.columns),
            referenced_table: self.referenced_table.clone(),
            referenced_columns: duplicate_all(&self.referenced_columns),
            on_delete: self.on_delete,
            on_update: self.on_update,
        }
    }
}

impl ForeignKey {
    pub fn same_as(&self, o: &ForeignKey) -> (r: bool)
        ensures
            r == (self@ == o@),
    {
        names_equal(&self.columns, &o.columns) && self.referenced_table == o.referenced_table
            && names_equal(&self.referenced_columns, &o.referenced_columns)
            && self.on_delete == o.on_delete && self.on_update == o.on_update
    }
}

impl Duplicate for Table {
    fn duplicate(&self) -> (r: Table) {
        Table {
            name: self.name.clone(),
            columns: duplicate_all(&self.columns),
            indexes: duplicate_all(&self.indexes),
            foreign_keys: duplicate_all(&self.foreign_keys),
            primary_key: duplicate_all(&self.primary_key),
        }
    }
}

impl Duplicate for EnumDef {
    fn duplicate(&self) -> (r: EnumDef) {
        EnumDef { name: self.name.clone(), variants: duplicate_all(&self.variants) }
    }
}

impl Schema {
    /// A schema with no tables and no enums.
    pub fn empty() -> (r: Schema)
        ensures
            r@.tables.len() == 0,
            r@.enums.len() == 0,
    {
        Schema { tables: Vec::new(), enums: Vec::new() }
    }
}

} // verus!
