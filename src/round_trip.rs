//! What running a plan does to a database, modelled name by name: which
//! tables and enums exist, which columns a kept table has, and which variants a
//! kept enum holds. Running the plan for two schemas on the first reaches the
//! second in each of these respects, whatever the order of the plan's phases.
use vstd::prelude::*;
use crate::differ::{
    added_fk_fn, added_index_fn, added_variant, changed_table, column_change_fn, diff_spec,
    dropped_column_fn, dropped_enum_fn, dropped_fk_fn, dropped_index_fn, dropped_table_fn,
    enum_steps, enum_steps_fn, find_enum, find_table, first_from, removed_variant,
    table_steps, table_steps_fn,
};
use crate::orderer::{in_phase, order_spec, phase, phases_before, PHASES};
use crate::schema::{column_names, enum_names, table_names, unique_names, EnumV, SchemaV, TableV};
use crate::step::StepV;

verus! {

/// The names of the tables of a schema.
pub open spec fn table_set(s: SchemaV) -> Set<Seq<char>> {
    Set::new(|n: Seq<char>| table_names(s.tables).contains(n))
}

/// The table names after running `steps` on a database whose tables are `names`.
pub open spec fn tables_after(names: Set<Seq<char>>, steps: Seq<StepV>) -> Set<Seq<char>>
    decreases steps.len(),
{
    if steps.len() == 0 {
        names
    } else {
        let before = tables_after(names, steps.drop_last());
        match steps.last() {
            StepV::CreateTable(t) => before.insert(t.name),
            StepV::DropTable(n) => before.remove(n),
            _ => before,
        }
    }
}

pub open spec fn creates(steps: Seq<StepV>, n: Seq<char>) -> bool {
    exists|i: int| 0 <= i < steps.len() && (#[trigger] steps[i]) is CreateTable && steps[i]->CreateTable_0.name == n
}

pub open spec fn drops(steps: Seq<StepV>, n: Seq<char>) -> bool {
    steps.contains(StepV::DropTable(n))
}

pub open spec fn touches_tables(s: StepV) -> bool {
    s is CreateTable || s is DropTable
}

proof fn lemma_tables_after(names: Set<Seq<char>>, steps: Seq<StepV>, x: Seq<char>)
    requires
        !(creates(steps, x) && drops(steps, x)),
    ensures
        tables_after(names, steps).contains(x) <==> (creates(steps, x) || (names.contains(x) && !drops(steps, x))),
    decreases steps.len(),
{
    if steps.len() > 0 {
        let p = steps.drop_last();
        let l = steps.last();
        assert forall|i: int| 0 <= i < p.len() implies p[i] == steps[i] by {}
        if creates(p, x) {
            let i = choose|i: int| 0 <= i < p.len() && (#[trigger] p[i]) is CreateTable && p[i]->CreateTable_0.name == x;
            assert(steps[i] == p[i]);
        }
        if drops(p, x) {
            let i = choose|i: int| 0 <= i < p.len() && p[i] == StepV::DropTable(x);
            assert(steps[i] == p[i]);
        }
        lemma_tables_after(names, p, x);
        if creates(steps, x) && !creates(p, x) {
            let i = choose|i: int| 0 <= i < steps.len() && (#[trigger] steps[i]) is CreateTable && steps[i]->CreateTable_0.name == x;
            assert(i == steps.len() - 1);
        }
        if drops(steps, x) && !drops(p, x) {
            let i = choose|i: int| 0 <= i < steps.len() && steps[i] == StepV::DropTable(x);
            assert(i == steps.len() - 1);
        }
        if l is CreateTable && l->CreateTable_0.name == x {
            assert(steps[steps.len() - 1] == l);
        }
        if l == StepV::DropTable(x) {
            assert(steps[steps.len() - 1] == l);
        }
    }
}

/// The steps of a flat map are the steps of its items.
proof fn lemma_flat_map_has<A>(s: Seq<A>, f: spec_fn(A) -> Seq<StepV>, y: StepV)
    ensures
        s.flat_map(f).contains(y) <==> exists|i: int| 0 <= i < s.len() && (#[trigger] f(s[i])).contains(y),
    decreases s.len(),
{
    if s.len() > 0 {
        let p = s.drop_last();
        lemma_flat_map_has(p, f, y);
        assert(s =~= p.push(s.last()));
        p.lemma_flat_map_push(f, s.last());
        let a = p.flat_map(f);
        let b = f(s.last());
        if s.flat_map(f).contains(y) {
            let k = choose|k: int| 0 <= k < s.flat_map(f).len() && s.flat_map(f)[k] == y;
            if k < a.len() {
                assert(a[k] == y);
                let i = choose|i: int| 0 <= i < p.len() && (#[trigger] f(p[i])).contains(y);
                assert(p[i] == s[i]);
            } else {
                assert(b[k - a.len()] == y);
                assert(f(s[s.len() - 1]).contains(y));
            }
        }
        if exists|i: int| 0 <= i < s.len() && (#[trigger] f(s[i])).contains(y) {
            let i = choose|i: int| 0 <= i < s.len() && (#[trigger] f(s[i])).contains(y);
            if i < p.len() {
                assert(p[i] == s[i]);
                assert(f(p[i]).contains(y));
                let k = choose|k: int| 0 <= k < a.len() && a[k] == y;
                assert(s.flat_map(f)[k] == y);
            } else {
                let k = choose|k: int| 0 <= k < b.len() && b[k] == y;
                assert(s.flat_map(f)[a.len() + k] == y);
            }
        }
    }
}

proof fn lemma_phases_keep(steps: Seq<StepV>, p: nat, y: StepV)
    ensures
        phases_before(steps, p).contains(y) <==> (steps.contains(y) && phase(y) < p),
    decreases p,
{
    if p > 0 {
        let q = (p - 1) as nat;
        lemma_phases_keep(steps, q, y);
        lemma_flat_map_has(steps, in_phase(q), y);
        let h = phases_before(steps, q);
        let t = steps.flat_map(in_phase(q));
        if phases_before(steps, p).contains(y) {
            let k = choose|k: int| 0 <= k < h.len() + t.len() && phases_before(steps, p)[k] == y;
            if k < h.len() {
                assert(h[k] == y);
            } else {
                assert(t[k - h.len()] == y);
                let i = choose|i: int| 0 <= i < steps.len() && (#[trigger] in_phase(q)(steps[i])).contains(y);
                assert(in_phase(q)(steps[i])[0] == steps[i]);
            }
        }
        if steps.contains(y) && phase(y) < p {
            if phase(y) < q {
                let k = choose|k: int| 0 <= k < h.len() && h[k] == y;
                assert(phases_before(steps, p)[k] == y);
            } else {
                let i = choose|i: int| 0 <= i < steps.len() && steps[i] == y;
                assert(in_phase(q)(steps[i]).contains(y)) by {
                    assert(in_phase(q)(steps[i])[0] == y);
                }
                let k = choose|k: int| 0 <= k < t.len() && t[k] == y;
                assert(phases_before(steps, p)[h.len() + k] == y);
            }
        }
    }
}

/// A plan holds exactly the steps it was made from.
pub proof fn lemma_plan_keeps_steps(steps: Seq<StepV>, y: StepV)
    ensures
        order_spec(steps).contains(y) <==> steps.contains(y),
{
    lemma_phases_keep(steps, PHASES as nat, y);
}

proof fn lemma_no_table_steps<A>(s: Seq<A>, f: spec_fn(A) -> Seq<StepV>)
    requires
        forall|i: int, k: int| 0 <= i < s.len() && 0 <= k < f(s[i]).len() ==> !touches_tables(#[trigger] f(s[i])[k]),
    ensures
        forall|k: int| 0 <= k < s.flat_map(f).len() ==> !touches_tables(#[trigger] s.flat_map(f)[k]),
    decreases s.len(),
{
    if s.len() > 0 {
        let p = s.drop_last();
        assert forall|i: int, k: int| 0 <= i < p.len() && 0 <= k < f(p[i]).len() implies !touches_tables(#[trigger] f(p[i])[k]) by {
            assert(p[i] == s[i]);
        }
        lemma_no_table_steps(p, f);
        assert(s =~= p.push(s.last()));
        p.lemma_flat_map_push(f, s.last());
        let a = p.flat_map(f);
        assert forall|k: int| 0 <= k < s.flat_map(f).len() implies !touches_tables(#[trigger] s.flat_map(f)[k]) by {
            if k >= a.len() {
                assert(!touches_tables(f(s[s.len() - 1])[k - a.len()]));
            } else {
                assert(s.flat_map(f)[k] == a[k]);
            }
        }
    }
}

proof fn lemma_concat_has(a: Seq<StepV>, b: Seq<StepV>, y: StepV)
    ensures
        (a + b).contains(y) <==> (a.contains(y) || b.contains(y)),
{
    if (a + b).contains(y) {
        let k = choose|k: int| 0 <= k < (a + b).len() && (a + b)[k] == y;
        if k < a.len() {
            assert(a[k] == y);
        } else {
            assert(b[k - a.len()] == y);
        }
    }
    if a.contains(y) {
        let k = choose|k: int| 0 <= k < a.len() && a[k] == y;
        assert((a + b)[k] == y);
    }
    if b.contains(y) {
        let k = choose|k: int| 0 <= k < b.len() && b[k] == y;
        assert((a + b)[a.len() + k] == y);
    }
}

proof fn lemma_first_from_none(keys: Seq<Seq<char>>, name: Seq<char>, i: int)
    requires
        0 <= i <= keys.len(),
    ensures
        first_from(keys, name, i) is None <==> forall|j: int| i <= j < keys.len() ==> keys[j] != name,
    decreases keys.len() - i,
{
    if i < keys.len() {
        lemma_first_from_none(keys, name, i + 1);
    }
}

proof fn lemma_find_table_none(ts: Seq<TableV>, n: Seq<char>)
    ensures
        find_table(ts, n) is None <==> !table_names(ts).contains(n),
{
    lemma_first_from_none(table_names(ts), n, 0);
    if table_names(ts).contains(n) {
        let j = choose|j: int| 0 <= j < table_names(ts).len() && table_names(ts)[j] == n;
        assert(table_names(ts)[j] != n || first_from(table_names(ts), n, 0) is Some);
    }
}

proof fn lemma_enum_parts_leave_tables(current: SchemaV, desired: SchemaV)
    ensures
        forall|k: int| 0 <= k < desired.enums.flat_map(enum_steps_fn(current.enums)).len()
            ==> !touches_tables(#[trigger] desired.enums.flat_map(enum_steps_fn(current.enums))[k]),
        forall|k: int| 0 <= k < current.enums.flat_map(dropped_enum_fn(desired.enums)).len()
            ==> !touches_tables(#[trigger] current.enums.flat_map(dropped_enum_fn(desired.enums))[k]),
{
    let es = desired.enums;
    assert forall|i: int, k: int| 0 <= i < es.len() && 0 <= k < enum_steps_fn(current.enums)(es[i]).len()
        implies !touches_tables(#[trigger] enum_steps_fn(current.enums)(es[i])[k]) by {
        let e = es[i];
        match crate::differ::find_enum(current.enums, e.name) {
            None => {},
            Some(c) => {
                lemma_no_table_steps(e.variants, added_variant(e.name, c.variants));
                lemma_no_table_steps(c.variants, removed_variant(e.name, e.variants));
                let a = e.variants.flat_map(added_variant(e.name, c.variants));
                let b = c.variants.flat_map(removed_variant(e.name, e.variants));
                assert(enum_steps(current.enums, e) == a + b);
                if k < a.len() {
                    assert(!touches_tables(a[k]));
                } else {
                    assert(!touches_tables(b[k - a.len()]));
                }
            },
        }
    }
    lemma_no_table_steps(es, enum_steps_fn(current.enums));
    lemma_no_table_steps(current.enums, dropped_enum_fn(desired.enums));
}

proof fn lemma_changed_table_leaves_tables(c: TableV, t: TableV)
    ensures
        forall|k: int| 0 <= k < changed_table(c, t).len() ==> !touches_tables(#[trigger] changed_table(c, t)[k]),
{
    lemma_no_table_steps(t.columns, column_change_fn(t.name, c.columns));
    lemma_no_table_steps(c.columns, dropped_column_fn(t.name, t.columns));
    lemma_no_table_steps(t.foreign_keys, added_fk_fn(t.name, c.foreign_keys));
    lemma_no_table_steps(c.foreign_keys, dropped_fk_fn(t.name, t.foreign_keys));
    lemma_no_table_steps(t.indexes, added_index_fn(t.name, c.indexes));
    lemma_no_table_steps(c.indexes, dropped_index_fn(t.name, t.indexes));
}

proof fn lemma_has_no_table_step(s: Seq<StepV>, y: StepV)
    requires
        forall|k: int| 0 <= k < s.len() ==> !touches_tables(#[trigger] s[k]),
        touches_tables(y),
    ensures
        !s.contains(y),
{
    if s.contains(y) {
        let k = choose|k: int| 0 <= k < s.len() && s[k] == y;
        assert(!touches_tables(s[k]));
    }
}

proof fn lemma_table_steps_create(current: Seq<TableV>, d: TableV, y: StepV)
    requires
        y is CreateTable,
    ensures
        table_steps(current, d).contains(y) <==> (y->CreateTable_0 == d && find_table(current, d.name) is None),
{
    match find_table(current, d.name) {
        None => {
            let fks = d.foreign_keys.flat_map(added_fk_fn(d.name, Seq::<crate::schema::ForeignKeyV>::empty()));
            lemma_no_table_steps(d.foreign_keys, added_fk_fn(d.name, Seq::<crate::schema::ForeignKeyV>::empty()));
            lemma_has_no_table_step(fks, y);
            lemma_concat_has(seq![StepV::CreateTable(d)], fks, y);
            if y->CreateTable_0 == d {
                assert(seq![StepV::CreateTable(d)][0] == y);
            }
        },
        Some(c) => {
            lemma_changed_table_leaves_tables(c, d);
            lemma_has_no_table_step(changed_table(c, d), y);
        },
    }
}

proof fn lemma_diff_parts(current: SchemaV, desired: SchemaV, y: StepV)
    requires
        touches_tables(y),
    ensures
        diff_spec(current, desired).contains(y) <==> (
            desired.tables.flat_map(table_steps_fn(current.tables)).contains(y)
            || current.tables.flat_map(dropped_table_fn(desired.tables)).contains(y)),
{
    let p1 = desired.enums.flat_map(enum_steps_fn(current.enums));
    let p2 = current.enums.flat_map(dropped_enum_fn(desired.enums));
    let p3 = desired.tables.flat_map(table_steps_fn(current.tables));
    let p4 = current.tables.flat_map(dropped_table_fn(desired.tables));
    lemma_enum_parts_leave_tables(current, desired);
    lemma_has_no_table_step(p1, y);
    lemma_has_no_table_step(p2, y);
    lemma_concat_has(p1, p2, y);
    lemma_concat_has(p1 + p2, p3, y);
    lemma_concat_has(p1 + p2 + p3, p4, y);
}

proof fn lemma_diff_creates(current: SchemaV, desired: SchemaV, x: Seq<char>)
    ensures
        creates(diff_spec(current, desired), x)
            <==> (table_names(desired.tables).contains(x) && !table_names(current.tables).contains(x)),
{
    let d = diff_spec(current, desired);
    let p3 = desired.tables.flat_map(table_steps_fn(current.tables));
    let p4 = current.tables.flat_map(dropped_table_fn(desired.tables));
    lemma_find_table_none(current.tables, x);
    if creates(d, x) {
        let k = choose|k: int| 0 <= k < d.len() && (#[trigger] d[k]) is CreateTable && d[k]->CreateTable_0.name == x;
        let y = d[k];
        assert(d.contains(y));
        lemma_diff_parts(current, desired, y);
        lemma_flat_map_has(current.tables, dropped_table_fn(desired.tables), y);
        if p4.contains(y) {
            let i = choose|i: int| 0 <= i < current.tables.len() && (#[trigger] dropped_table_fn(desired.tables)(current.tables[i])).contains(y);
            let ds = dropped_table_fn(desired.tables)(current.tables[i]);
            let m = choose|m: int| 0 <= m < ds.len() && ds[m] == y;
        }
        lemma_flat_map_has(desired.tables, table_steps_fn(current.tables), y);
        let i = choose|i: int| 0 <= i < desired.tables.len() && (#[trigger] table_steps_fn(current.tables)(desired.tables[i])).contains(y);
        lemma_table_steps_create(current.tables, desired.tables[i], y);
        assert(table_names(desired.tables)[i] == x);
    }
    if table_names(desired.tables).contains(x) && !table_names(current.tables).contains(x) {
        let j = choose|j: int| 0 <= j < table_names(desired.tables).len() && table_names(desired.tables)[j] == x;
        let t = desired.tables[j];
        let y = StepV::CreateTable(t);
        lemma_table_steps_create(current.tables, t, y);
        lemma_flat_map_has(desired.tables, table_steps_fn(current.tables), y);
        assert(table_steps_fn(current.tables)(desired.tables[j]).contains(y));
        lemma_diff_parts(current, desired, y);
        let k = choose|k: int| 0 <= k < d.len() && d[k] == y;
        assert(d[k] is CreateTable && d[k]->CreateTable_0.name == x);
    }
}

proof fn lemma_diff_drops(current: SchemaV, desired: SchemaV, x: Seq<char>)
    ensures
        drops(diff_spec(current, desired), x)
            <==> (table_names(current.tables).contains(x) && !table_names(desired.tables).contains(x)),
{
    let y = StepV::DropTable(x);
    let p3 = desired.tables.flat_map(table_steps_fn(current.tables));
    let p4 = current.tables.flat_map(dropped_table_fn(desired.tables));
    let f = dropped_table_fn(desired.tables);
    lemma_find_table_none(desired.tables, x);
    lemma_diff_parts(current, desired, y);
    lemma_flat_map_has(desired.tables, table_steps_fn(current.tables), y);
    if p3.contains(y) {
        let i = choose|i: int| 0 <= i < desired.tables.len() && (#[trigger] table_steps_fn(current.tables)(desired.tables[i])).contains(y);
        let t = desired.tables[i];
        match find_table(current.tables, t.name) {
            None => {
                let fks = t.foreign_keys.flat_map(added_fk_fn(t.name, Seq::<crate::schema::ForeignKeyV>::empty()));
                lemma_no_table_steps(t.foreign_keys, added_fk_fn(t.name, Seq::<crate::schema::ForeignKeyV>::empty()));
                lemma_has_no_table_step(fks, y);
                lemma_concat_has(seq![StepV::CreateTable(t)], fks, y);
                assert(!seq![StepV::CreateTable(t)].contains(y)) by {
                    if seq![StepV::CreateTable(t)].contains(y) {
                        let m = choose|m: int| 0 <= m < 1 && seq![StepV::CreateTable(t)][m] == y;
                    }
                }
            },
            Some(c) => {
                lemma_changed_table_leaves_tables(c, t);
                lemma_has_no_table_step(changed_table(c, t), y);
            },
        }
    }
    lemma_flat_map_has(current.tables, f, y);
    if p4.contains(y) {
        let i = choose|i: int| 0 <= i < current.tables.len() && (#[trigger] f(current.tables[i])).contains(y);
        let ds = f(current.tables[i]);
        let m = choose|m: int| 0 <= m < ds.len() && ds[m] == y;
        assert(table_names(current.tables)[i] == x);
    }
    if table_names(current.tables).contains(x) && !table_names(desired.tables).contains(x) {
        let j = choose|j: int| 0 <= j < table_names(current.tables).len() && table_names(current.tables)[j] == x;
        assert(current.tables[j].name == x);
        assert(f(current.tables[j])[0] == y);
        assert(f(current.tables[j]).contains(y));
    }
}

/// Running a plan's table steps on the current tables gives exactly the
/// desired tables: every table of the desired schema exists afterwards, and no
/// other. (This covers table names; columns, keys and enums are not modelled.)
pub proof fn lemma_plan_reaches_desired_tables(current: SchemaV, desired: SchemaV)
    ensures
        tables_after(table_set(current), order_spec(diff_spec(current, desired))) == table_set(desired),
{
    let d = diff_spec(current, desired);
    let plan = order_spec(d);
    assert forall|x: Seq<char>| #[trigger] tables_after(table_set(current), plan).contains(x) == table_set(desired).contains(x) by {
        lemma_diff_creates(current, desired, x);
        lemma_diff_drops(current, desired, x);
        if creates(plan, x) {
            let k = choose|k: int| 0 <= k < plan.len() && (#[trigger] plan[k]) is CreateTable && plan[k]->CreateTable_0.name == x;
            lemma_plan_keeps_steps(d, plan[k]);
            assert(plan.contains(plan[k]));
            let j = choose|j: int| 0 <= j < d.len() && d[j] == plan[k];
            assert(d[j] is CreateTable && d[j]->CreateTable_0.name == x);
        }
        if creates(d, x) {
            let k = choose|k: int| 0 <= k < d.len() && (#[trigger] d[k]) is CreateTable && d[k]->CreateTable_0.name == x;
            lemma_plan_keeps_steps(d, d[k]);
            assert(d.contains(d[k]));
            let j = choose|j: int| 0 <= j < plan.len() && plan[j] == d[k];
            assert(plan[j] is CreateTable && plan[j]->CreateTable_0.name == x);
        }
        lemma_plan_keeps_steps(d, StepV::DropTable(x));
        lemma_tables_after(table_set(current), plan, x);
    }
    assert(tables_after(table_set(current), plan) =~= table_set(desired));
}

/// The enum names after running `steps` on a database whose enums are `names`.
pub open spec fn enums_after(names: Set<Seq<char>>, steps: Seq<StepV>) -> Set<Seq<char>>
    decreases steps.len(),
{
    if steps.len() == 0 {
        names
    } else {
        let before = enums_after(names, steps.drop_last());
        match steps.last() {
            StepV::CreateEnum(e) => before.insert(e.name),
            StepV::DropEnum(n) => before.remove(n),
            _ => before,
        }
    }
}

pub open spec fn creates_enum(steps: Seq<StepV>, n: Seq<char>) -> bool {
    exists|i: int| 0 <= i < steps.len() && (#[trigger] steps[i]) is CreateEnum && steps[i]->CreateEnum_0.name == n
}

pub open spec fn drops_enum(steps: Seq<StepV>, n: Seq<char>) -> bool {
    steps.contains(StepV::DropEnum(n))
}

pub open spec fn touches_enums(s: StepV) -> bool {
    s is CreateEnum || s is DropEnum
}

proof fn lemma_enums_after(names: Set<Seq<char>>, steps: Seq<StepV>, x: Seq<char>)
    requires
        !(creates_enum(steps, x) && drops_enum(steps, x)),
    ensures
        enums_after(names, steps).contains(x) <==> (creates_enum(steps, x) || (names.contains(x) && !drops_enum(steps, x))),
    decreases steps.len(),
{
    if steps.len() > 0 {
        let p = steps.drop_last();
        let l = steps.last();
        assert forall|i: int| 0 <= i < p.len() implies p[i] == steps[i] by {}
        if creates_enum(p, x) {
            let i = choose|i: int| 0 <= i < p.len() && (#[trigger] p[i]) is CreateEnum && p[i]->CreateEnum_0.name == x;
            assert(steps[i] == p[i]);
        }
        if drops_enum(p, x) {
            let i = choose|i: int| 0 <= i < p.len() && p[i] == StepV::DropEnum(x);
            assert(steps[i] == p[i]);
        }
        lemma_enums_after(names, p, x);
        if creates_enum(steps, x) && !creates_enum(p, x) {
            let i = choose|i: int| 0 <= i < steps.len() && (#[trigger] steps[i]) is CreateEnum && steps[i]->CreateEnum_0.name == x;
            assert(i == steps.len() - 1);
        }
        if drops_enum(steps, x) && !drops_enum(p, x) {
            let i = choose|i: int| 0 <= i < steps.len() && steps[i] == StepV::DropEnum(x);
            assert(i == steps.len() - 1);
        }
        if l is CreateEnum && l->CreateEnum_0.name == x {
            assert(steps[steps.len() - 1] == l);
        }
        if l == StepV::DropEnum(x) {
            assert(steps[steps.len() - 1] == l);
        }
    }
}

proof fn lemma_no_enum_steps<A>(s: Seq<A>, f: spec_fn(A) -> Seq<StepV>)
    requires
        forall|i: int, k: int| 0 <= i < s.len() && 0 <= k < f(s[i]).len() ==> !touches_enums(#[trigger] f(s[i])[k]),
    ensures
        forall|k: int| 0 <= k < s.flat_map(f).len() ==> !touches_enums(#[trigger] s.flat_map(f)[k]),
    decreases s.len(),
{
    if s.len() > 0 {
        let p = s.drop_last();
        assert forall|i: int, k: int| 0 <= i < p.len() && 0 <= k < f(p[i]).len() implies !touches_enums(#[trigger] f(p[i])[k]) by {
            assert(p[i] == s[i]);
        }
        lemma_no_enum_steps(p, f);
        assert(s =~= p.push(s.last()));
        p.lemma_flat_map_push(f, s.last());
        let a = p.flat_map(f);
        assert forall|k: int| 0 <= k < s.flat_map(f).len() implies !touches_enums(#[trigger] s.flat_map(f)[k]) by {
            if k >= a.len() {
                assert(!touches_enums(f(s[s.len() - 1])[k - a.len()]));
            } else {
                assert(s.flat_map(f)[k] == a[k]);
            }
        }
    }
}

/// The names of the enums of a schema.
pub open spec fn enum_set(s: SchemaV) -> Set<Seq<char>> {
    Set::new(|n: Seq<char>| enum_names(s.enums).contains(n))
}

proof fn lemma_find_enum_none(es: Seq<EnumV>, n: Seq<char>)
    ensures
        find_enum(es, n) is None <==> !enum_names(es).contains(n),
{
    lemma_first_from_none(enum_names(es), n, 0);
    if enum_names(es).contains(n) {
        let j = choose|j: int| 0 <= j < enum_names(es).len() && enum_names(es)[j] == n;
        assert(enum_names(es)[j] != n || first_from(enum_names(es), n, 0) is Some);
    }
}

proof fn lemma_changed_table_leaves_enums(c: TableV, t: TableV)
    ensures
        forall|k: int| 0 <= k < changed_table(c, t).len() ==> !touches_enums(#[trigger] changed_table(c, t)[k]),
{
    lemma_no_enum_steps(t.columns, column_change_fn(t.name, c.columns));
    lemma_no_enum_steps(c.columns, dropped_column_fn(t.name, t.columns));
    lemma_no_enum_steps(t.foreign_keys, added_fk_fn(t.name, c.foreign_keys));
    lemma_no_enum_steps(c.foreign_keys, dropped_fk_fn(t.name, t.foreign_keys));
    lemma_no_enum_steps(t.indexes, added_index_fn(t.name, c.indexes));
    lemma_no_enum_steps(c.indexes, dropped_index_fn(t.name, t.indexes));
}

proof fn lemma_table_parts_leave_enums(current: SchemaV, desired: SchemaV)
    ensures
        forall|k: int| 0 <= k < desired.tables.flat_map(table_steps_fn(current.tables)).len()
            ==> !touches_enums(#[trigger] desired.tables.flat_map(table_steps_fn(current.tables))[k]),
        forall|k: int| 0 <= k < current.tables.flat_map(dropped_table_fn(desired.tables)).len()
            ==> !touches_enums(#[trigger] current.tables.flat_map(dropped_table_fn(desired.tables))[k]),
{
    let ts = desired.tables;
    assert forall|i: int, k: int| 0 <= i < ts.len() && 0 <= k < table_steps_fn(current.tables)(ts[i]).len()
        implies !touches_enums(#[trigger] table_steps_fn(current.tables)(ts[i])[k]) by {
        let t = ts[i];
        match find_table(current.tables, t.name) {
            None => {
                let a = seq![StepV::CreateTable(t)];
                let b = t.foreign_keys.flat_map(added_fk_fn(t.name, Seq::<crate::schema::ForeignKeyV>::empty()));
                lemma_no_enum_steps(t.foreign_keys, added_fk_fn(t.name, Seq::<crate::schema::ForeignKeyV>::empty()));
                assert(table_steps(current.tables, t) == a + b);
                if k >= 1 {
                    assert(!touches_enums(b[k - 1]));
                }
            },
            Some(c) => {
                lemma_changed_table_leaves_enums(c, t);
            },
        }
    }
    lemma_no_enum_steps(ts, table_steps_fn(current.tables));
    lemma_no_enum_steps(current.tables, dropped_table_fn(desired.tables));
}

proof fn lemma_has_no_enum_step(s: Seq<StepV>, y: StepV)
    requires
        forall|k: int| 0 <= k < s.len() ==> !touches_enums(#[trigger] s[k]),
        touches_enums(y),
    ensures
        !s.contains(y),
{
    if s.contains(y) {
        let k = choose|k: int| 0 <= k < s.len() && s[k] == y;
        assert(!touches_enums(s[k]));
    }
}

proof fn lemma_enum_steps_create(current: Seq<EnumV>, e: EnumV, y: StepV)
    requires
        y is CreateEnum,
    ensures
        enum_steps(current, e).contains(y) <==> (y->CreateEnum_0 == e && find_enum(current, e.name) is None),
{
    match find_enum(current, e.name) {
        None => {
            if y->CreateEnum_0 == e {
                assert(seq![StepV::CreateEnum(e)][0] == y);
            }
            if enum_steps(current, e).contains(y) {
                let m = choose|m: int| 0 <= m < 1 && seq![StepV::CreateEnum(e)][m] == y;
            }
        },
        Some(c) => {
            let a = e.variants.flat_map(added_variant(e.name, c.variants));
            let b = c.variants.flat_map(removed_variant(e.name, e.variants));
            lemma_no_enum_steps(e.variants, added_variant(e.name, c.variants));
            lemma_no_enum_steps(c.variants, removed_variant(e.name, e.variants));
            lemma_has_no_enum_step(a, y);
            lemma_has_no_enum_step(b, y);
            lemma_concat_has(a, b, y);
        },
    }
}

proof fn lemma_diff_enum_parts(current: SchemaV, desired: SchemaV, y: StepV)
    requires
        touches_enums(y),
    ensures
        diff_spec(current, desired).contains(y) <==> (
            desired.enums.flat_map(enum_steps_fn(current.enums)).contains(y)
            || current.enums.flat_map(dropped_enum_fn(desired.enums)).contains(y)),
{
    let p1 = desired.enums.flat_map(enum_steps_fn(current.enums));
    let p2 = current.enums.flat_map(dropped_enum_fn(desired.enums));
    let p3 = desired.tables.flat_map(table_steps_fn(current.tables));
    let p4 = current.tables.flat_map(dropped_table_fn(desired.tables));
    lemma_table_parts_leave_enums(current, desired);
    lemma_has_no_enum_step(p3, y);
    lemma_has_no_enum_step(p4, y);
    lemma_concat_has(p1, p2, y);
    lemma_concat_has(p1 + p2, p3, y);
    lemma_concat_has(p1 + p2 + p3, p4, y);
}

proof fn lemma_diff_creates_enum(current: SchemaV, desired: SchemaV, x: Seq<char>)
    ensures
        creates_enum(diff_spec(current, desired), x)
            <==> (enum_names(desired.enums).contains(x) && !enum_names(current.enums).contains(x)),
{
    let d = diff_spec(current, desired);
    let p2 = current.enums.flat_map(dropped_enum_fn(desired.enums));
    lemma_find_enum_none(current.enums, x);
    if creates_enum(d, x) {
        let k = choose|k: int| 0 <= k < d.len() && (#[trigger] d[k]) is CreateEnum && d[k]->CreateEnum_0.name == x;
        let y = d[k];
        assert(d.contains(y));
        lemma_diff_enum_parts(current, desired, y);
        lemma_flat_map_has(current.enums, dropped_enum_fn(desired.enums), y);
        if p2.contains(y) {
            let i = choose|i: int| 0 <= i < current.enums.len() && (#[trigger] dropped_enum_fn(desired.enums)(current.enums[i])).contains(y);
            let ds = dropped_enum_fn(desired.enums)(current.enums[i]);
            let m = choose|m: int| 0 <= m < ds.len() && ds[m] == y;
        }
        lemma_flat_map_has(desired.enums, enum_steps_fn(current.enums), y);
        let i = choose|i: int| 0 <= i < desired.enums.len() && (#[trigger] enum_steps_fn(current.enums)(desired.enums[i])).contains(y);
        lemma_enum_steps_create(current.enums, desired.enums[i], y);
        assert(enum_names(desired.enums)[i] == x);
    }
    if enum_names(desired.enums).contains(x) && !enum_names(current.enums).contains(x) {
        let j = choose|j: int| 0 <= j < enum_names(desired.enums).len() && enum_names(desired.enums)[j] == x;
        let e = desired.enums[j];
        let y = StepV::CreateEnum(e);
        lemma_enum_steps_create(current.enums, e, y);
        lemma_flat_map_has(desired.enums, enum_steps_fn(current.enums), y);
        assert(enum_steps_fn(current.enums)(desired.enums[j]).contains(y));
        lemma_diff_enum_parts(current, desired, y);
        let k = choose|k: int| 0 <= k < d.len() && d[k] == y;
        assert(d[k] is CreateEnum && d[k]->CreateEnum_0.name == x);
    }
}

proof fn lemma_diff_drops_enum(current: SchemaV, desired: SchemaV, x: Seq<char>)
    ensures
        drops_enum(diff_spec(current, desired), x)
            <==> (enum_names(current.enums).contains(x) && !enum_names(desired.enums).contains(x)),
{
    let y = StepV::DropEnum(x);
    let p1 = desired.enums.flat_map(enum_steps_fn(current.enums));
    let p2 = current.enums.flat_map(dropped_enum_fn(desired.enums));
    let f = dropped_enum_fn(desired.enums);
    lemma_find_enum_none(desired.enums, x);
    lemma_diff_enum_parts(current, desired, y);
    lemma_flat_map_has(desired.enums, enum_steps_fn(current.enums), y);
    if p1.contains(y) {
        let i = choose|i: int| 0 <= i < desired.enums.len() && (#[trigger] enum_steps_fn(current.enums)(desired.enums[i])).contains(y);
        let e = desired.enums[i];
        match find_enum(current.enums, e.name) {
            None => {
                if seq![StepV::CreateEnum(e)].contains(y) {
                    let m = choose|m: int| 0 <= m < 1 && seq![StepV::CreateEnum(e)][m] == y;
                }
            },
            Some(c) => {
                let a = e.variants.flat_map(added_variant(e.name, c.variants));
                let b = c.variants.flat_map(removed_variant(e.name, e.variants));
                lemma_no_enum_steps(e.variants, added_variant(e.name, c.variants));
                lemma_no_enum_steps(c.variants, removed_variant(e.name, e.variants));
                lemma_has_no_enum_step(a, y);
                lemma_has_no_enum_step(b, y);
                lemma_concat_has(a, b, y);
            },
        }
    }
    lemma_flat_map_has(current.enums, f, y);
    if p2.contains(y) {
        let i = choose|i: int| 0 <= i < current.enums.len() && (#[trigger] f(current.enums[i])).contains(y);
        let ds = f(current.enums[i]);
        let m = choose|m: int| 0 <= m < ds.len() && ds[m] == y;
        assert(enum_names(current.enums)[i] == x);
    }
    if enum_names(current.enums).contains(x) && !enum_names(desired.enums).contains(x) {
        let j = choose|j: int| 0 <= j < enum_names(current.enums).len() && enum_names(current.enums)[j] == x;
        assert(current.enums[j].name == x);
        assert(f(current.enums[j])[0] == y);
        assert(f(current.enums[j]).contains(y));
    }
}

/// Running a plan's enum steps on the current enums gives exactly the desired
/// enums by name. (Which variants each enum holds is not modelled here.)
pub proof fn lemma_plan_reaches_desired_enums(current: SchemaV, desired: SchemaV)
    ensures
        enums_after(enum_set(current), order_spec(diff_spec(current, desired))) == enum_set(desired),
{
    let d = diff_spec(current, desired);
    let plan = order_spec(d);
    assert forall|x: Seq<char>| #[trigger] enums_after(enum_set(current), plan).contains(x) == enum_set(desired).contains(x) by {
        lemma_diff_creates_enum(current, desired, x);
        lemma_diff_drops_enum(current, desired, x);
        if creates_enum(plan, x) {
            let k = choose|k: int| 0 <= k < plan.len() && (#[trigger] plan[k]) is CreateEnum && plan[k]->CreateEnum_0.name == x;
            lemma_plan_keeps_steps(d, plan[k]);
            assert(plan.contains(plan[k]));
            let j = choose|j: int| 0 <= j < d.len() && d[j] == plan[k];
            assert(d[j] is CreateEnum && d[j]->CreateEnum_0.name == x);
        }
        if creates_enum(d, x) {
            let k = choose|k: int| 0 <= k < d.len() && (#[trigger] d[k]) is CreateEnum && d[k]->CreateEnum_0.name == x;
            lemma_plan_keeps_steps(d, d[k]);
            assert(d.contains(d[k]));
            let j = choose|j: int| 0 <= j < plan.len() && plan[j] == d[k];
            assert(plan[j] is CreateEnum && plan[j]->CreateEnum_0.name == x);
        }
        lemma_plan_keeps_steps(d, StepV::DropEnum(x));
        lemma_enums_after(enum_set(current), plan, x);
    }
    assert(enums_after(enum_set(current), plan) =~= enum_set(desired));
}


/// The variants of enum `name` after running `steps` on a database where it
/// holds `vs`.
pub open spec fn variants_after(vs: Set<Seq<char>>, name: Seq<char>, steps: Seq<StepV>) -> Set<Seq<char>>
    decreases steps.len(),
{
    if steps.len() == 0 {
        vs
    } else {
        let before = variants_after(vs, name, steps.drop_last());
        match steps.last() {
            StepV::AddEnumVariant { enum_name, variant } => if enum_name == name { before.insert(variant) } else { before },
            StepV::RemoveEnumVariant { enum_name, variant } => if enum_name == name { before.remove(variant) } else { before },
            _ => before,
        }
    }
}

pub open spec fn touches_variants(s: StepV) -> bool {
    s is AddEnumVariant || s is RemoveEnumVariant
}

proof fn lemma_variants_after(vs: Set<Seq<char>>, name: Seq<char>, steps: Seq<StepV>, x: Seq<char>)
    requires
        !(steps.contains(StepV::AddEnumVariant { enum_name: name, variant: x })
            && steps.contains(StepV::RemoveEnumVariant { enum_name: name, variant: x })),
    ensures
        variants_after(vs, name, steps).contains(x) <==> (
            steps.contains(StepV::AddEnumVariant { enum_name: name, variant: x })
            || (vs.contains(x) && !steps.contains(StepV::RemoveEnumVariant { enum_name: name, variant: x }))),
    decreases steps.len(),
{
    let add = StepV::AddEnumVariant { enum_name: name, variant: x };
    let rem = StepV::RemoveEnumVariant { enum_name: name, variant: x };
    if steps.len() > 0 {
        let p = steps.drop_last();
        let l = steps.last();
        assert(steps =~= p.push(l));
        lemma_concat_has(p, seq![l], add);
        lemma_concat_has(p, seq![l], rem);
        assert(p + seq![l] =~= steps);
        if seq![l].contains(add) {
            let m = choose|m: int| 0 <= m < 1 && seq![l][m] == add;
        }
        if seq![l].contains(rem) {
            let m = choose|m: int| 0 <= m < 1 && seq![l][m] == rem;
        }
        if l == add {
            assert(seq![l][0] == add);
        }
        if l == rem {
            assert(seq![l][0] == rem);
        }
        lemma_variants_after(vs, name, p, x);
    }
}

proof fn lemma_no_variant_steps<A>(s: Seq<A>, f: spec_fn(A) -> Seq<StepV>)
    requires
        forall|i: int, k: int| 0 <= i < s.len() && 0 <= k < f(s[i]).len() ==> !touches_variants(#[trigger] f(s[i])[k]),
    ensures
        forall|k: int| 0 <= k < s.flat_map(f).len() ==> !touches_variants(#[trigger] s.flat_map(f)[k]),
    decreases s.len(),
{
    if s.len() > 0 {
        let p = s.drop_last();
        assert forall|i: int, k: int| 0 <= i < p.len() && 0 <= k < f(p[i]).len() implies !touches_variants(#[trigger] f(p[i])[k]) by {
            assert(p[i] == s[i]);
        }
        lemma_no_variant_steps(p, f);
        assert(s =~= p.push(s.last()));
        p.lemma_flat_map_push(f, s.last());
        let a = p.flat_map(f);
        assert forall|k: int| 0 <= k < s.flat_map(f).len() implies !touches_variants(#[trigger] s.flat_map(f)[k]) by {
            if k >= a.len() {
                assert(!touches_variants(f(s[s.len() - 1])[k - a.len()]));
            } else {
                assert(s.flat_map(f)[k] == a[k]);
            }
        }
    }
}

proof fn lemma_has_no_variant_step(s: Seq<StepV>, y: StepV)
    requires
        forall|k: int| 0 <= k < s.len() ==> !touches_variants(#[trigger] s[k]),
        touches_variants(y),
    ensures
        !s.contains(y),
{
    if s.contains(y) {
        let k = choose|k: int| 0 <= k < s.len() && s[k] == y;
        assert(!touches_variants(s[k]));
    }
}

proof fn lemma_other_parts_leave_variants(current: SchemaV, desired: SchemaV)
    ensures
        forall|k: int| 0 <= k < current.enums.flat_map(dropped_enum_fn(desired.enums)).len()
            ==> !touches_variants(#[trigger] current.enums.flat_map(dropped_enum_fn(desired.enums))[k]),
        forall|k: int| 0 <= k < desired.tables.flat_map(table_steps_fn(current.tables)).len()
            ==> !touches_variants(#[trigger] desired.tables.flat_map(table_steps_fn(current.tables))[k]),
        forall|k: int| 0 <= k < current.tables.flat_map(dropped_table_fn(desired.tables)).len()
            ==> !touches_variants(#[trigger] current.tables.flat_map(dropped_table_fn(desired.tables))[k]),
{
    lemma_no_variant_steps(current.enums, dropped_enum_fn(desired.enums));
    let ts = desired.tables;
    assert forall|i: int, k: int| 0 <= i < ts.len() && 0 <= k < table_steps_fn(current.tables)(ts[i]).len()
        implies !touches_variants(#[trigger] table_steps_fn(current.tables)(ts[i])[k]) by {
        let t = ts[i];
        match find_table(current.tables, t.name) {
            None => {
                let a = seq![StepV::CreateTable(t)];
                let b = t.foreign_keys.flat_map(added_fk_fn(t.name, Seq::<crate::schema::ForeignKeyV>::empty()));
                lemma_no_variant_steps(t.foreign_keys, added_fk_fn(t.name, Seq::<crate::schema::ForeignKeyV>::empty()));
                assert(table_steps(current.tables, t) == a + b);
                if k >= 1 {
                    assert(!touches_variants(b[k - 1]));
                }
            },
            Some(c) => {
                lemma_no_variant_steps(t.columns, column_change_fn(t.name, c.columns));
                lemma_no_variant_steps(c.columns, dropped_column_fn(t.name, t.columns));
                lemma_no_variant_steps(t.foreign_keys, added_fk_fn(t.name, c.foreign_keys));
                lemma_no_variant_steps(c.foreign_keys, dropped_fk_fn(t.name, t.foreign_keys));
                lemma_no_variant_steps(t.indexes, added_index_fn(t.name, c.indexes));
                lemma_no_variant_steps(c.indexes, dropped_index_fn(t.name, t.indexes));
            },
        }
    }
    lemma_no_variant_steps(ts, table_steps_fn(current.tables));
    lemma_no_variant_steps(current.tables, dropped_table_fn(desired.tables));
}

/// Every variant step of an enum's own steps names that enum.
proof fn lemma_enum_steps_name(current: Seq<EnumV>, e: EnumV, y: StepV)
    requires
        touches_variants(y),
        enum_steps(current, e).contains(y),
    ensures
        y is AddEnumVariant ==> y->AddEnumVariant_enum_name == e.name,
        y is RemoveEnumVariant ==> y->RemoveEnumVariant_enum_name == e.name,
{
    match find_enum(current, e.name) {
        None => {
            let m = choose|m: int| 0 <= m < 1 && seq![StepV::CreateEnum(e)][m] == y;
        },
        Some(c) => {
            let fa = added_variant(e.name, c.variants);
            let fr = removed_variant(e.name, e.variants);
            let a = e.variants.flat_map(fa);
            let b = c.variants.flat_map(fr);
            lemma_concat_has(a, b, y);
            lemma_flat_map_has(e.variants, fa, y);
            lemma_flat_map_has(c.variants, fr, y);
            if a.contains(y) {
                let i = choose|i: int| 0 <= i < e.variants.len() && (#[trigger] fa(e.variants[i])).contains(y);
                let ds = fa(e.variants[i]);
                let m = choose|m: int| 0 <= m < ds.len() && ds[m] == y;
            } else {
                let i = choose|i: int| 0 <= i < c.variants.len() && (#[trigger] fr(c.variants[i])).contains(y);
                let ds = fr(c.variants[i]);
                let m = choose|m: int| 0 <= m < ds.len() && ds[m] == y;
            }
        },
    }
}

proof fn lemma_singleton_has(a: StepV, y: StepV)
    ensures
        seq![a].contains(y) <==> a == y,
{
    if a == y {
        assert(seq![a][0] == y);
    }
}

/// The variant steps of the diff for enum `name`, which both schemas hold.
proof fn lemma_diff_variant_steps(current: SchemaV, desired: SchemaV, j: int, c: EnumV, v: Seq<char>)
    requires
        unique_names(enum_names(desired.enums)),
        0 <= j < desired.enums.len(),
        find_enum(current.enums, desired.enums[j].name) == Some(c),
    ensures
        diff_spec(current, desired).contains(StepV::AddEnumVariant { enum_name: desired.enums[j].name, variant: v })
            <==> (desired.enums[j].variants.contains(v) && !c.variants.contains(v)),
        diff_spec(current, desired).contains(StepV::RemoveEnumVariant { enum_name: desired.enums[j].name, variant: v })
            <==> (c.variants.contains(v) && !desired.enums[j].variants.contains(v)),
{
    let e = desired.enums[j];
    let d = diff_spec(current, desired);
    let p1 = desired.enums.flat_map(enum_steps_fn(current.enums));
    let p2 = current.enums.flat_map(dropped_enum_fn(desired.enums));
    let p3 = desired.tables.flat_map(table_steps_fn(current.tables));
    let p4 = current.tables.flat_map(dropped_table_fn(desired.tables));
    let fa = added_variant(e.name, c.variants);
    let fr = removed_variant(e.name, e.variants);
    let a = e.variants.flat_map(fa);
    let b = c.variants.flat_map(fr);
    lemma_other_parts_leave_variants(current, desired);
    assert(enum_steps(current.enums, e) == a + b);
    let add = StepV::AddEnumVariant { enum_name: e.name, variant: v };
    let rem = StepV::RemoveEnumVariant { enum_name: e.name, variant: v };
    let ys = seq![add, rem];
    assert forall|q: int| 0 <= q < 2 implies
        (d.contains(#[trigger] ys[q]) <==> enum_steps(current.enums, e).contains(ys[q])) by {
        let y = ys[q];
        lemma_has_no_variant_step(p2, y);
        lemma_has_no_variant_step(p3, y);
        lemma_has_no_variant_step(p4, y);
        lemma_concat_has(p1, p2, y);
        lemma_concat_has(p1 + p2, p3, y);
        lemma_concat_has(p1 + p2 + p3, p4, y);
        lemma_flat_map_has(desired.enums, enum_steps_fn(current.enums), y);
        if p1.contains(y) {
            let i = choose|i: int| 0 <= i < desired.enums.len() && (#[trigger] enum_steps_fn(current.enums)(desired.enums[i])).contains(y);
            lemma_enum_steps_name(current.enums, desired.enums[i], y);
            assert(enum_names(desired.enums)[i] == enum_names(desired.enums)[j]);
        }
        if enum_steps(current.enums, e).contains(y) {
            assert(enum_steps_fn(current.enums)(desired.enums[j]).contains(y));
        }
    }
    assert(ys[0] == add);
    assert(ys[1] == rem);
    lemma_concat_has(a, b, add);
    lemma_concat_has(a, b, rem);
    lemma_flat_map_has(e.variants, fa, add);
    lemma_flat_map_has(c.variants, fr, add);
    lemma_flat_map_has(e.variants, fa, rem);
    lemma_flat_map_has(c.variants, fr, rem);
    if a.contains(add) {
        let i = choose|i: int| 0 <= i < e.variants.len() && (#[trigger] fa(e.variants[i])).contains(add);
        let ds = fa(e.variants[i]);
        let m = choose|m: int| 0 <= m < ds.len() && ds[m] == add;
        assert(e.variants[i] == v);
    }
    if b.contains(add) {
        let i = choose|i: int| 0 <= i < c.variants.len() && (#[trigger] fr(c.variants[i])).contains(add);
        let ds = fr(c.variants[i]);
        let m = choose|m: int| 0 <= m < ds.len() && ds[m] == add;
    }
    if e.variants.contains(v) && !c.variants.contains(v) {
        let i = choose|i: int| 0 <= i < e.variants.len() && e.variants[i] == v;
        lemma_singleton_has(add, add);
        assert(fa(e.variants[i]).contains(add));
    }
    if b.contains(rem) {
        let i = choose|i: int| 0 <= i < c.variants.len() && (#[trigger] fr(c.variants[i])).contains(rem);
        let ds = fr(c.variants[i]);
        let m = choose|m: int| 0 <= m < ds.len() && ds[m] == rem;
        assert(c.variants[i] == v);
    }
    if a.contains(rem) {
        let i = choose|i: int| 0 <= i < e.variants.len() && (#[trigger] fa(e.variants[i])).contains(rem);
        let ds = fa(e.variants[i]);
        let m = choose|m: int| 0 <= m < ds.len() && ds[m] == rem;
    }
    if c.variants.contains(v) && !e.variants.contains(v) {
        let i = choose|i: int| 0 <= i < c.variants.len() && c.variants[i] == v;
        lemma_singleton_has(rem, rem);
        assert(fr(c.variants[i]).contains(rem));
    }
}

/// For an enum that both schemas hold, running the plan's variant steps on its
/// current variants gives exactly its desired variants.
pub proof fn lemma_plan_reaches_desired_variants(current: SchemaV, desired: SchemaV, j: int, c: EnumV)
    requires
        unique_names(enum_names(desired.enums)),
        0 <= j < desired.enums.len(),
        find_enum(current.enums, desired.enums[j].name) == Some(c),
    ensures
        variants_after(c.variants.to_set(), desired.enums[j].name, order_spec(diff_spec(current, desired)))
            == desired.enums[j].variants.to_set(),
{
    let e = desired.enums[j];
    let d = diff_spec(current, desired);
    let plan = order_spec(d);
    assert forall|x: Seq<char>| #[trigger] variants_after(c.variants.to_set(), e.name, plan).contains(x)
        == e.variants.to_set().contains(x) by {
        lemma_diff_variant_steps(current, desired, j, c, x);
        lemma_plan_keeps_steps(d, StepV::AddEnumVariant { enum_name: e.name, variant: x });
        lemma_plan_keeps_steps(d, StepV::RemoveEnumVariant { enum_name: e.name, variant: x });
        lemma_variants_after(c.variants.to_set(), e.name, plan, x);
    }
    assert(variants_after(c.variants.to_set(), e.name, plan) =~= e.variants.to_set());
}


/// The column names of table `name` after running `steps` on a database where
/// it has the columns `cs`.
pub open spec fn columns_after(cs: Set<Seq<char>>, name: Seq<char>, steps: Seq<StepV>) -> Set<Seq<char>>
    decreases steps.len(),
{
    if steps.len() == 0 {
        cs
    } else {
        let before = columns_after(cs, name, steps.drop_last());
        match steps.last() {
            StepV::AddColumn { table, column } => if table == name { before.insert(column.name) } else { before },
            StepV::DropColumn { table, column } => if table == name { before.remove(column) } else { before },
            _ => before,
        }
    }
}

pub open spec fn adds_column(steps: Seq<StepV>, name: Seq<char>, x: Seq<char>) -> bool {
    exists|i: int| 0 <= i < steps.len() && (#[trigger] steps[i]) is AddColumn
        && steps[i]->AddColumn_table == name && steps[i]->AddColumn_column.name == x
}

pub open spec fn touches_columns(s: StepV) -> bool {
    s is AddColumn || s is DropColumn
}

proof fn lemma_columns_after(cs: Set<Seq<char>>, name: Seq<char>, steps: Seq<StepV>, x: Seq<char>)
    requires
        !(adds_column(steps, name, x) && steps.contains(StepV::DropColumn { table: name, column: x })),
    ensures
        columns_after(cs, name, steps).contains(x) <==> (
            adds_column(steps, name, x)
            || (cs.contains(x) && !steps.contains(StepV::DropColumn { table: name, column: x }))),
    decreases steps.len(),
{
    let rem = StepV::DropColumn { table: name, column: x };
    if steps.len() > 0 {
        let p = steps.drop_last();
        let l = steps.last();
        assert(steps =~= p.push(l));
        lemma_concat_has(p, seq![l], rem);
        assert(p + seq![l] =~= steps);
        if seq![l].contains(rem) {
            let m = choose|m: int| 0 <= m < 1 && seq![l][m] == rem;
        }
        if l == rem {
            assert(seq![l][0] == rem);
        }
        if adds_column(p, name, x) {
            let i = choose|i: int| 0 <= i < p.len() && (#[trigger] p[i]) is AddColumn
                && p[i]->AddColumn_table == name && p[i]->AddColumn_column.name == x;
            assert(steps[i] == p[i]);
        }
        if adds_column(steps, name, x) && !adds_column(p, name, x) {
            let i = choose|i: int| 0 <= i < steps.len() && (#[trigger] steps[i]) is AddColumn
                && steps[i]->AddColumn_table == name && steps[i]->AddColumn_column.name == x;
            if i < p.len() {
                assert(p[i] == steps[i]);
            }
        }
        if l is AddColumn && l->AddColumn_table == name && l->AddColumn_column.name == x {
            assert(steps[steps.len() - 1] == l);
        }
        lemma_columns_after(cs, name, p, x);
    }
}

proof fn lemma_no_column_steps<A>(s: Seq<A>, f: spec_fn(A) -> Seq<StepV>)
    requires
        forall|i: int, k: int| 0 <= i < s.len() && 0 <= k < f(s[i]).len() ==> !touches_columns(#[trigger] f(s[i])[k]),
    ensures
        forall|k: int| 0 <= k < s.flat_map(f).len() ==> !touches_columns(#[trigger] s.flat_map(f)[k]),
    decreases s.len(),
{
    if s.len() > 0 {
        let p = s.drop_last();
        assert forall|i: int, k: int| 0 <= i < p.len() && 0 <= k < f(p[i]).len() implies !touches_columns(#[trigger] f(p[i])[k]) by {
            assert(p[i] == s[i]);
        }
        lemma_no_column_steps(p, f);
        assert(s =~= p.push(s.last()));
        p.lemma_flat_map_push(f, s.last());
        let a = p.flat_map(f);
        assert forall|k: int| 0 <= k < s.flat_map(f).len() implies !touches_columns(#[trigger] s.flat_map(f)[k]) by {
            if k >= a.len() {
                assert(!touches_columns(f(s[s.len() - 1])[k - a.len()]));
            } else {
                assert(s.flat_map(f)[k] == a[k]);
            }
        }
    }
}

proof fn lemma_has_no_column_step(s: Seq<StepV>, y: StepV)
    requires
        forall|k: int| 0 <= k < s.len() ==> !touches_columns(#[trigger] s[k]),
        touches_columns(y),
    ensures
        !s.contains(y),
{
    if s.contains(y) {
        let k = choose|k: int| 0 <= k < s.len() && s[k] == y;
        assert(!touches_columns(s[k]));
    }
}

proof fn lemma_enum_parts_leave_columns(current: SchemaV, desired: SchemaV)
    ensures
        forall|k: int| 0 <= k < desired.enums.flat_map(enum_steps_fn(current.enums)).len()
            ==> !touches_columns(#[trigger] desired.enums.flat_map(enum_steps_fn(current.enums))[k]),
        forall|k: int| 0 <= k < current.enums.flat_map(dropped_enum_fn(desired.enums)).len()
            ==> !touches_columns(#[trigger] current.enums.flat_map(dropped_enum_fn(desired.enums))[k]),
        forall|k: int| 0 <= k < current.tables.flat_map(dropped_table_fn(desired.tables)).len()
            ==> !touches_columns(#[trigger] current.tables.flat_map(dropped_table_fn(desired.tables))[k]),
{
    let es = desired.enums;
    assert forall|i: int, k: int| 0 <= i < es.len() && 0 <= k < enum_steps_fn(current.enums)(es[i]).len()
        implies !touches_columns(#[trigger] enum_steps_fn(current.enums)(es[i])[k]) by {
        let e = es[i];
        match find_enum(current.enums, e.name) {
            None => {},
            Some(c) => {
                lemma_no_column_steps(e.variants, added_variant(e.name, c.variants));
                lemma_no_column_steps(c.variants, removed_variant(e.name, e.variants));
                let a = e.variants.flat_map(added_variant(e.name, c.variants));
                let b = c.variants.flat_map(removed_variant(e.name, e.variants));
                assert(enum_steps(current.enums, e) == a + b);
                if k < a.len() {
                    assert(!touches_columns(a[k]));
                } else {
                    assert(!touches_columns(b[k - a.len()]));
                }
            },
        }
    }
    lemma_no_column_steps(es, enum_steps_fn(current.enums));
    lemma_no_column_steps(current.enums, dropped_enum_fn(desired.enums));
    lemma_no_column_steps(current.tables, dropped_table_fn(desired.tables));
}

/// The column steps of one table's own steps name that table.
proof fn lemma_table_steps_name(current: Seq<TableV>, t: TableV, y: StepV)
    requires
        touches_columns(y),
        table_steps(current, t).contains(y),
    ensures
        y is AddColumn ==> y->AddColumn_table == t.name,
        y is DropColumn ==> y->DropColumn_table == t.name,
{
    match find_table(current, t.name) {
        None => {
            let a = seq![StepV::CreateTable(t)];
            let b = t.foreign_keys.flat_map(added_fk_fn(t.name, Seq::<crate::schema::ForeignKeyV>::empty()));
            lemma_no_column_steps(t.foreign_keys, added_fk_fn(t.name, Seq::<crate::schema::ForeignKeyV>::empty()));
            lemma_has_no_column_step(b, y);
            lemma_concat_has(a, b, y);
            lemma_singleton_has(StepV::CreateTable(t), y);
        },
        Some(c) => {
            let p1 = t.columns.flat_map(column_change_fn(t.name, c.columns));
            let p2 = c.columns.flat_map(dropped_column_fn(t.name, t.columns));
            let p3 = t.foreign_keys.flat_map(added_fk_fn(t.name, c.foreign_keys));
            let p4 = c.foreign_keys.flat_map(dropped_fk_fn(t.name, t.foreign_keys));
            let p5 = t.indexes.flat_map(added_index_fn(t.name, c.indexes));
            let p6 = c.indexes.flat_map(dropped_index_fn(t.name, t.indexes));
            lemma_no_column_steps(t.foreign_keys, added_fk_fn(t.name, c.foreign_keys));
            lemma_no_column_steps(c.foreign_keys, dropped_fk_fn(t.name, t.foreign_keys));
            lemma_no_column_steps(t.indexes, added_index_fn(t.name, c.indexes));
            lemma_no_column_steps(c.indexes, dropped_index_fn(t.name, t.indexes));
            lemma_has_no_column_step(p3, y);
            lemma_has_no_column_step(p4, y);
            lemma_has_no_column_step(p5, y);
            lemma_has_no_column_step(p6, y);
            lemma_concat_has(p1, p2, y);
            lemma_concat_has(p1 + p2, p3, y);
            lemma_concat_has(p1 + p2 + p3, p4, y);
            lemma_concat_has(p1 + p2 + p3 + p4, p5, y);
            lemma_concat_has(p1 + p2 + p3 + p4 + p5, p6, y);
            lemma_flat_map_has(t.columns, column_change_fn(t.name, c.columns), y);
            lemma_flat_map_has(c.columns, dropped_column_fn(t.name, t.columns), y);
            if p1.contains(y) {
                let i = choose|i: int| 0 <= i < t.columns.len() && (#[trigger] column_change_fn(t.name, c.columns)(t.columns[i])).contains(y);
                let ds = column_change_fn(t.name, c.columns)(t.columns[i]);
                let m = choose|m: int| 0 <= m < ds.len() && ds[m] == y;
            } else {
                let i = choose|i: int| 0 <= i < c.columns.len() && (#[trigger] dropped_column_fn(t.name, t.columns)(c.columns[i])).contains(y);
                let ds = dropped_column_fn(t.name, t.columns)(c.columns[i]);
                let m = choose|m: int| 0 <= m < ds.len() && ds[m] == y;
            }
        },
    }
}

proof fn lemma_find_column_none(cs: Seq<crate::schema::ColumnV>, n: Seq<char>)
    ensures
        crate::differ::find_column(cs, n) is None <==> !column_names(cs).contains(n),
{
    lemma_first_from_none(column_names(cs), n, 0);
    if column_names(cs).contains(n) {
        let j = choose|j: int| 0 <= j < column_names(cs).len() && column_names(cs)[j] == n;
        assert(column_names(cs)[j] != n || first_from(column_names(cs), n, 0) is Some);
    }
}


/// Whether the diff holds a step of a table's own steps: for a column step of
/// table `j`, which both schemas hold, only its own steps can.
proof fn lemma_diff_has_column_step(current: SchemaV, desired: SchemaV, j: int, y: StepV)
    requires
        unique_names(table_names(desired.tables)),
        0 <= j < desired.tables.len(),
        touches_columns(y),
        y is AddColumn ==> y->AddColumn_table == desired.tables[j].name,
        y is DropColumn ==> y->DropColumn_table == desired.tables[j].name,
    ensures
        diff_spec(current, desired).contains(y) <==> table_steps(current.tables, desired.tables[j]).contains(y),
{
    let p1 = desired.enums.flat_map(enum_steps_fn(current.enums));
    let p2 = current.enums.flat_map(dropped_enum_fn(desired.enums));
    let p3 = desired.tables.flat_map(table_steps_fn(current.tables));
    let p4 = current.tables.flat_map(dropped_table_fn(desired.tables));
    lemma_enum_parts_leave_columns(current, desired);
    lemma_has_no_column_step(p1, y);
    lemma_has_no_column_step(p2, y);
    lemma_has_no_column_step(p4, y);
    lemma_concat_has(p1, p2, y);
    lemma_concat_has(p1 + p2, p3, y);
    lemma_concat_has(p1 + p2 + p3, p4, y);
    lemma_flat_map_has(desired.tables, table_steps_fn(current.tables), y);
    if p3.contains(y) {
        let i = choose|i: int| 0 <= i < desired.tables.len() && (#[trigger] table_steps_fn(current.tables)(desired.tables[i])).contains(y);
        lemma_table_steps_name(current.tables, desired.tables[i], y);
        assert(table_names(desired.tables)[i] == table_names(desired.tables)[j]);
    }
    if table_steps(current.tables, desired.tables[j]).contains(y) {
        assert(table_steps_fn(current.tables)(desired.tables[j]).contains(y));
    }
}

/// For a table that both schemas hold, running the plan's column steps on its
/// current column names gives exactly its desired column names.
pub proof fn lemma_plan_reaches_desired_columns(current: SchemaV, desired: SchemaV, j: int, c: TableV)
    requires
        unique_names(table_names(desired.tables)),
        0 <= j < desired.tables.len(),
        find_table(current.tables, desired.tables[j].name) == Some(c),
    ensures
        columns_after(column_names(c.columns).to_set(), desired.tables[j].name, order_spec(diff_spec(current, desired)))
            == column_names(desired.tables[j].columns).to_set(),
{
    let t = desired.tables[j];
    let d = diff_spec(current, desired);
    let plan = order_spec(d);
    let fa = column_change_fn(t.name, c.columns);
    let fd = dropped_column_fn(t.name, t.columns);
    assert(table_steps(current.tables, t) == changed_table(c, t));
    assert forall|x: Seq<char>| #[trigger] columns_after(column_names(c.columns).to_set(), t.name, plan).contains(x)
        == column_names(t.columns).to_set().contains(x) by {
        let rem = StepV::DropColumn { table: t.name, column: x };
        lemma_find_column_none(c.columns, x);
        lemma_find_column_none(t.columns, x);
        // Which drops the plan holds.
        lemma_diff_has_column_step(current, desired, j, rem);
        lemma_plan_keeps_steps(d, rem);
        let p1 = t.columns.flat_map(fa);
        let p2 = c.columns.flat_map(fd);
        let rest = t.foreign_keys.flat_map(added_fk_fn(t.name, c.foreign_keys))
            + c.foreign_keys.flat_map(dropped_fk_fn(t.name, t.foreign_keys))
            + t.indexes.flat_map(added_index_fn(t.name, c.indexes))
            + c.indexes.flat_map(dropped_index_fn(t.name, t.indexes));
        assert(changed_table(c, t) =~= p1 + p2 + rest);
        lemma_no_column_steps(t.foreign_keys, added_fk_fn(t.name, c.foreign_keys));
        lemma_no_column_steps(c.foreign_keys, dropped_fk_fn(t.name, t.foreign_keys));
        lemma_no_column_steps(t.indexes, added_index_fn(t.name, c.indexes));
        lemma_no_column_steps(c.indexes, dropped_index_fn(t.name, t.indexes));
        assert forall|k: int| 0 <= k < rest.len() implies !touches_columns(#[trigger] rest[k]) by {
            let r1 = t.foreign_keys.flat_map(added_fk_fn(t.name, c.foreign_keys));
            let r2 = c.foreign_keys.flat_map(dropped_fk_fn(t.name, t.foreign_keys));
            let r3 = t.indexes.flat_map(added_index_fn(t.name, c.indexes));
            let r4 = c.indexes.flat_map(dropped_index_fn(t.name, t.indexes));
            if k < r1.len() {
                assert(rest[k] == r1[k]);
            } else if k < r1.len() + r2.len() {
                assert(rest[k] == r2[k - r1.len()]);
            } else if k < r1.len() + r2.len() + r3.len() {
                assert(rest[k] == r3[k - r1.len() - r2.len()]);
            } else {
                assert(rest[k] == r4[k - r1.len() - r2.len() - r3.len()]);
            }
        }
        lemma_has_no_column_step(rest, rem);
        lemma_concat_has(p1, p2, rem);
        lemma_concat_has(p1 + p2, rest, rem);
        lemma_flat_map_has(t.columns, fa, rem);
        lemma_flat_map_has(c.columns, fd, rem);
        if p1.contains(rem) {
            let i = choose|i: int| 0 <= i < t.columns.len() && (#[trigger] fa(t.columns[i])).contains(rem);
            let ds = fa(t.columns[i]);
            let m = choose|m: int| 0 <= m < ds.len() && ds[m] == rem;
        }
        if p2.contains(rem) {
            let i = choose|i: int| 0 <= i < c.columns.len() && (#[trigger] fd(c.columns[i])).contains(rem);
            let ds = fd(c.columns[i]);
            let m = choose|m: int| 0 <= m < ds.len() && ds[m] == rem;
            assert(column_names(c.columns)[i] == x);
        }
        if column_names(c.columns).contains(x) && !column_names(t.columns).contains(x) {
            let i = choose|i: int| 0 <= i < column_names(c.columns).len() && column_names(c.columns)[i] == x;
            assert(fd(c.columns[i])[0] == rem);
            assert(fd(c.columns[i]).contains(rem));
        }
        // Which additions the plan holds.
        if adds_column(plan, t.name, x) {
            let k = choose|k: int| 0 <= k < plan.len() && (#[trigger] plan[k]) is AddColumn
                && plan[k]->AddColumn_table == t.name && plan[k]->AddColumn_column.name == x;
            let y = plan[k];
            assert(plan.contains(y));
            lemma_plan_keeps_steps(d, y);
            lemma_diff_has_column_step(current, desired, j, y);
            lemma_has_no_column_step(rest, y);
            lemma_concat_has(p1, p2, y);
            lemma_concat_has(p1 + p2, rest, y);
            lemma_flat_map_has(t.columns, fa, y);
            lemma_flat_map_has(c.columns, fd, y);
            if p1.contains(y) {
                let i = choose|i: int| 0 <= i < t.columns.len() && (#[trigger] fa(t.columns[i])).contains(y);
                let ds = fa(t.columns[i]);
                let m = choose|m: int| 0 <= m < ds.len() && ds[m] == y;
                assert(column_names(t.columns)[i] == x);
            } else {
                let i = choose|i: int| 0 <= i < c.columns.len() && (#[trigger] fd(c.columns[i])).contains(y);
                let ds = fd(c.columns[i]);
                let m = choose|m: int| 0 <= m < ds.len() && ds[m] == y;
            }
        }
        if column_names(t.columns).contains(x) && !column_names(c.columns).contains(x) {
            let i = choose|i: int| 0 <= i < column_names(t.columns).len() && column_names(t.columns)[i] == x;
            let y = StepV::AddColumn { table: t.name, column: t.columns[i] };
            assert(fa(t.columns[i])[0] == y);
            assert(fa(t.columns[i]).contains(y));
            lemma_flat_map_has(t.columns, fa, y);
            lemma_concat_has(p1, p2, y);
            lemma_concat_has(p1 + p2, rest, y);
            lemma_diff_has_column_step(current, desired, j, y);
            lemma_plan_keeps_steps(d, y);
            let k = choose|k: int| 0 <= k < plan.len() && plan[k] == y;
            assert(plan[k] is AddColumn && plan[k]->AddColumn_table == t.name && plan[k]->AddColumn_column.name == x);
        }
        assert(!(adds_column(plan, t.name, x) && plan.contains(rem)));
        lemma_columns_after(column_names(c.columns).to_set(), t.name, plan, x);
    }
    assert(columns_after(column_names(c.columns).to_set(), t.name, plan) =~= column_names(t.columns).to_set());
}

} // verus!
