use vstd::prelude::*;
use crate::differ::{find_enum, find_table};
use crate::schema::{Schema, SchemaV, TableV};

verus! {

/// A reference in the desired schema that nothing resolves: planning stops
/// before any statement reaches the database.
#[derive(Debug)]
pub enum PlanningError {
    /// A foreign key of `table` references a table that the schema lacks.
    UnknownTable { table: String, referenced: String },
    /// A column has the type of an enum that the schema lacks.
    UnknownEnum { table: String, column: String, enum_name: String },
}

pub open spec fn table_refs_resolve(s: SchemaV, t: TableV) -> bool {
    forall|k: int| 0 <= k < t.foreign_keys.len()
        ==> find_table(s.tables, #[trigger] t.foreign_keys[k].referenced_table) is Some
}

pub open spec fn enum_refs_resolve(s: SchemaV, t: TableV) -> bool {
    forall|k: int| 0 <= k < t.columns.len() && (#[trigger] t.columns[k]).tpe is Enum
        ==> find_enum(s.enums, t.columns[k].tpe->Enum_0) is Some
}

/// Every foreign key references a table of the schema, and every enum column
/// an enum of the schema.
pub open spec fn references_resolve(s: SchemaV) -> bool {
    forall|i: int| 0 <= i < s.tables.len()
        ==> table_refs_resolve(s, #[trigger] s.tables[i]) && enum_refs_resolve(s, s.tables[i])
}

/// What an error says is missing is indeed missing from the schema.
pub open spec fn error_is_real(s: SchemaV, e: PlanningError) -> bool {
    match e {
        PlanningError::UnknownTable { table, referenced } => {
            &&& find_table(s.tables, table@) is Some
            &&& find_table(s.tables, referenced@) is None
        },
        PlanningError::UnknownEnum { table, column, enum_name } => {
            &&& find_table(s.tables, table@) is Some
            &&& find_enum(s.enums, enum_name@) is None
        },
    }
}

/// Checks that the references of a schema resolve within it.
pub fn check_references(s: &Schema) -> (r: Result<(), PlanningError>)
    ensures
        r is Ok <==> references_resolve(s@),
        r is Err ==> error_is_real(s@, r->Err_0),
{
    let mut i: usize = 0;
    while i < s.tables.len()
        invariant
            i <= s.tables.len(),
            forall|j: int| 0 <= j < i ==> table_refs_resolve(s@, #[trigger] s@.tables[j]) && enum_refs_resolve(s@, s@.tables[j]),
        decreases s.tables.len() - i,
    {
        let t = &s.tables[i];
        assert(s@.tables[i as int] == t@);
        let ghost tv = t@;
        let found = crate::differ::lookup_table(&s.tables, &t.name);
        proof { crate::differ::lemma_lookup_self(s@.tables, i as int); }
        let mut k: usize = 0;
        while k < t.foreign_keys.len()
            invariant
                k <= t.foreign_keys.len(),
                tv == t@,
                i < s.tables.len(),
                s@.tables[i as int] == tv,
                find_table(s@.tables, tv.name) is Some,
                forall|j: int| 0 <= j < i ==> table_refs_resolve(s@, #[trigger] s@.tables[j]) && enum_refs_resolve(s@, s@.tables[j]),
                forall|m: int| 0 <= m < k ==> find_table(s@.tables, #[trigger] tv.foreign_keys[m].referenced_table) is Some,
            decreases t.foreign_keys.len() - k,
        {
            let target = &t.foreign_keys[k].referenced_table;
            assert(tv.foreign_keys[k as int].referenced_table == target@);
            if crate::differ::lookup_table(&s.tables, target).is_none() {
                assert(!table_refs_resolve(s@, s@.tables[i as int]));
                return Err(PlanningError::UnknownTable { table: t.name.clone(), referenced: target.clone() });
            }
            k += 1;
        }
        let mut k: usize = 0;
        while k < t.columns.len()
            invariant
                k <= t.columns.len(),
                tv == t@,
                i < s.tables.len(),
                s@.tables[i as int] == tv,
                find_table(s@.tables, tv.name) is Some,
                forall|j: int| 0 <= j < i ==> table_refs_resolve(s@, #[trigger] s@.tables[j]) && enum_refs_resolve(s@, s@.tables[j]),
                table_refs_resolve(s@, tv),
                forall|m: int| 0 <= m < k && (#[trigger] tv.columns[m]).tpe is Enum
                    ==> find_enum(s@.enums, tv.columns[m].tpe->Enum_0) is Some,
            decreases t.columns.len() - k,
        {
            let c = &t.columns[k];
            assert(tv.columns[k as int] == c@);
            match &c.tpe {
                crate::schema::ColumnType::Enum(e) => {
                    if crate::differ::lookup_enum(&s.enums, e).is_none() {
                        assert(tv.columns[k as int].tpe is Enum);
                        assert(!enum_refs_resolve(s@, s@.tables[i as int]));
                        return Err(PlanningError::UnknownEnum {
                            table: t.name.clone(),
                            column: c.name.clone(),
                            enum_name: e.clone(),
                        });
                    }
                },
                _ => {},
            }
            k += 1;
        }
        assert(enum_refs_resolve(s@, tv));
        i += 1;
    }
    Ok(())
}

} // verus!
