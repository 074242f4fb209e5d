use vstd::prelude::*;
use crate::differ::{
    added_fk_fn, added_index_fn, added_variant, changed_table, column_change_fn, diff_spec,
    dropped_column_fn, dropped_enum_fn, find_enum, lemma_flat_map_all, dropped_fk_fn, dropped_index_fn, dropped_table_fn,
    enum_steps, enum_steps_fn, lemma_first_from_unique, lemma_flat_map_nothing, removed_variant,
    table_steps, table_steps_fn,
};
use crate::classifier::{assess, remove_variant_msg, warning_at, warnings_spec, warnings_upto, Risk, RowCount, ValueCount};
use crate::orderer::{lemma_plan_sorted_by_phase, order_spec, phases_before};
use crate::push::{plan_runs, plan_spec};
use crate::schema::{column_names, enum_names, schema_wf, table_names, unique_names, EnumV, SchemaV, TableV};
use crate::step::StepV;

verus! {

proof fn lemma_table_against_itself(t: TableV)
    requires
        unique_names(column_names(t.columns)),
    ensures
        changed_table(t, t).len() == 0,
{
    let cs = t.columns;
    assert forall|j: int| 0 <= j < cs.len() implies (#[trigger] column_change_fn(t.name, cs)(cs[j])).len() == 0 by {
        lemma_first_from_unique(column_names(cs), j, 0);
    }
    lemma_flat_map_nothing(cs, column_change_fn(t.name, cs));
    assert forall|j: int| 0 <= j < cs.len() implies (#[trigger] dropped_column_fn(t.name, cs)(cs[j])).len() == 0 by {
        lemma_first_from_unique(column_names(cs), j, 0);
    }
    lemma_flat_map_nothing(cs, dropped_column_fn(t.name, cs));
    let fks = t.foreign_keys;
    assert forall|j: int| 0 <= j < fks.len() implies (#[trigger] added_fk_fn(t.name, fks)(fks[j])).len() == 0 by {
        assert(fks.contains(fks[j]));
    }
    lemma_flat_map_nothing(fks, added_fk_fn(t.name, fks));
    assert forall|j: int| 0 <= j < fks.len() implies (#[trigger] dropped_fk_fn(t.name, fks)(fks[j])).len() == 0 by {
        assert(fks.contains(fks[j]));
    }
    lemma_flat_map_nothing(fks, dropped_fk_fn(t.name, fks));
    let ixs = t.indexes;
    assert forall|j: int| 0 <= j < ixs.len() implies (#[trigger] added_index_fn(t.name, ixs)(ixs[j])).len() == 0 by {
        assert(ixs.contains(ixs[j]));
    }
    lemma_flat_map_nothing(ixs, added_index_fn(t.name, ixs));
    assert forall|j: int| 0 <= j < ixs.len() implies (#[trigger] dropped_index_fn(t.name, ixs)(ixs[j])).len() == 0 by {
        assert(ixs.contains(ixs[j]));
    }
    lemma_flat_map_nothing(ixs, dropped_index_fn(t.name, ixs));
}

/// Diffing a well-formed schema against itself gives no step at all.
pub proof fn lemma_diff_with_itself_is_empty(s: SchemaV)
    requires
        schema_wf(s),
    ensures
        diff_spec(s, s).len() == 0,
{
    let es = s.enums;
    assert forall|i: int| 0 <= i < es.len() implies (#[trigger] enum_steps_fn(es)(es[i])).len() == 0 by {
        lemma_first_from_unique(enum_names(es), i, 0);
        let vs = es[i].variants;
        assert forall|j: int| 0 <= j < vs.len() implies (#[trigger] added_variant(es[i].name, vs)(vs[j])).len() == 0 by {
            assert(vs.contains(vs[j]));
        }
        lemma_flat_map_nothing(vs, added_variant(es[i].name, vs));
        assert forall|j: int| 0 <= j < vs.len() implies (#[trigger] removed_variant(es[i].name, vs)(vs[j])).len() == 0 by {
            assert(vs.contains(vs[j]));
        }
        lemma_flat_map_nothing(vs, removed_variant(es[i].name, vs));
        assert(enum_steps(es, es[i]).len() == 0);
    }
    lemma_flat_map_nothing(es, enum_steps_fn(es));
    assert forall|i: int| 0 <= i < es.len() implies (#[trigger] dropped_enum_fn(es)(es[i])).len() == 0 by {
        lemma_first_from_unique(enum_names(es), i, 0);
    }
    lemma_flat_map_nothing(es, dropped_enum_fn(es));
    let ts = s.tables;
    assert forall|i: int| 0 <= i < ts.len() implies (#[trigger] table_steps_fn(ts)(ts[i])).len() == 0 by {
        lemma_first_from_unique(table_names(ts), i, 0);
        lemma_table_against_itself(ts[i]);
        assert(table_steps(ts, ts[i]).len() == 0);
    }
    lemma_flat_map_nothing(ts, table_steps_fn(ts));
    assert forall|i: int| 0 <= i < ts.len() implies (#[trigger] dropped_table_fn(ts)(ts[i])).len() == 0 by {
        lemma_first_from_unique(table_names(ts), i, 0);
    }
    lemma_flat_map_nothing(ts, dropped_table_fn(ts));
}

proof fn lemma_no_steps_no_phases(steps: Seq<StepV>, p: nat)
    requires
        steps.len() == 0,
    ensures
        phases_before(steps, p).len() == 0,
    decreases p,
{
    if p > 0 {
        lemma_no_steps_no_phases(steps, (p - 1) as nat);
        lemma_flat_map_nothing(steps, crate::orderer::in_phase((p - 1) as nat));
    }
}

/// Pushing a well-formed schema onto a database that already holds it plans
/// no step and warns of nothing, so the push goes through with nothing to run.
pub proof fn lemma_second_push_is_noop(s: SchemaV, rows: Seq<RowCount>, values: Seq<ValueCount>, force: bool)
    requires
        schema_wf(s),
    ensures
        plan_spec(s, s).len() == 0,
        warnings_spec(plan_spec(s, s), rows, values).len() == 0,
        plan_runs(warnings_spec(plan_spec(s, s), rows, values), force),
{
    lemma_diff_with_itself_is_empty(s);
    lemma_no_steps_no_phases(diff_spec(s, s), crate::orderer::PHASES as nat);
}

/// Whether `fk_step` adds a foreign key to the table that `table_step` creates.
pub open spec fn adds_reference_to(fk_step: StepV, table_step: StepV) -> bool {
    match (fk_step, table_step) {
        (StepV::AddForeignKey { foreign_key, .. }, StepV::CreateTable(t)) => foreign_key.referenced_table == t.name,
        _ => false,
    }
}

/// In every plan, a table is created before any foreign key that references it
/// is added.
pub proof fn lemma_table_created_before_references(steps: Seq<StepV>, i: int, j: int)
    requires
        0 <= i < order_spec(steps).len(),
        0 <= j < order_spec(steps).len(),
        adds_reference_to(order_spec(steps)[j], order_spec(steps)[i]),
    ensures
        i < j,
{
    if j < i {
        lemma_plan_sorted_by_phase(steps, j, i);
    }
}

proof fn lemma_warnings_grow(steps: Seq<StepV>, rows: Seq<RowCount>, values: Seq<ValueCount>, m: int, n: int)
    requires
        0 <= m <= n,
    ensures
        warnings_upto(steps, rows, values, m).len() <= warnings_upto(steps, rows, values, n).len(),
    decreases n - m,
{
    if m < n {
        lemma_warnings_grow(steps, rows, values, m, n - 1);
    }
}

/// A push that is not forced runs nothing when any step of its plan is not
/// safe: the plan then carries a warning, so it does not run.
pub proof fn lemma_unforced_push_with_risk_is_blocked(
    steps: Seq<StepV>,
    rows: Seq<RowCount>,
    values: Seq<ValueCount>,
    i: int,
)
    requires
        0 <= i < steps.len(),
        assess(steps[i], rows, values).0 != Risk::Safe,
    ensures
        warnings_spec(steps, rows, values).len() > 0,
        !plan_runs(warnings_spec(steps, rows, values), false),
{
    assert(warning_at(steps, rows, values, i).len() == 1);
    assert(warnings_upto(steps, rows, values, i + 1).len() > 0);
    lemma_warnings_grow(steps, rows, values, i + 1, steps.len() as int);
}

/// Where the desired enum keeps every variant of the current one, its steps
/// only add variants, and each of them is safe.
pub proof fn lemma_added_variants_are_safe(
    current: Seq<EnumV>,
    e: EnumV,
    c: EnumV,
    rows: Seq<RowCount>,
    values: Seq<ValueCount>,
)
    requires
        find_enum(current, e.name) == Some(c),
        forall|k: int| 0 <= k < c.variants.len() ==> e.variants.contains(#[trigger] c.variants[k]),
    ensures
        forall|k: int| 0 <= k < enum_steps(current, e).len() ==> {
            &&& #[trigger] enum_steps(current, e)[k] is AddEnumVariant
            &&& assess(enum_steps(current, e)[k], rows, values).0 == Risk::Safe
        },
{
    let fa = added_variant(e.name, c.variants);
    let fr = removed_variant(e.name, e.variants);
    assert forall|k: int| 0 <= k < c.variants.len() implies (#[trigger] fr(c.variants[k])).len() == 0 by {}
    lemma_flat_map_nothing(c.variants, fr);
    let p = |s: StepV| s is AddEnumVariant;
    lemma_flat_map_all(e.variants, fa, p);
    let all = enum_steps(current, e);
    assert(all =~= e.variants.flat_map(fa));
    assert forall|k: int| 0 <= k < all.len() implies #[trigger] all[k] is AddEnumVariant by {
        assert(p(e.variants.flat_map(fa)[k]));
    }
}

/// Where the desired enum only drops variants of the current one, its steps
/// are one removal for each dropped variant, in the current order, each a
/// warning whose message names exactly that variant.
pub proof fn lemma_removed_variants_warn(
    current: Seq<EnumV>,
    e: EnumV,
    c: EnumV,
    rows: Seq<RowCount>,
    values: Seq<ValueCount>,
)
    requires
        find_enum(current, e.name) == Some(c),
        forall|k: int| 0 <= k < e.variants.len() ==> c.variants.contains(#[trigger] e.variants[k]),
    ensures
        enum_steps(current, e) == c.variants.flat_map(removed_variant(e.name, e.variants)),
        forall|k: int| 0 <= k < enum_steps(current, e).len() ==> {
            let s = #[trigger] enum_steps(current, e)[k];
            &&& s is RemoveEnumVariant
            &&& !e.variants.contains(s->RemoveEnumVariant_variant)
            &&& c.variants.contains(s->RemoveEnumVariant_variant)
            &&& assess(s, rows, values) == (Risk::Warning, remove_variant_msg(e.name, s->RemoveEnumVariant_variant))
        },
{
    let fa = added_variant(e.name, c.variants);
    let fr = removed_variant(e.name, e.variants);
    assert forall|k: int| 0 <= k < e.variants.len() implies (#[trigger] fa(e.variants[k])).len() == 0 by {}
    lemma_flat_map_nothing(e.variants, fa);
    let all = enum_steps(current, e);
    assert(all =~= c.variants.flat_map(fr));
    let p = |s: StepV| s is RemoveEnumVariant && !e.variants.contains(s->RemoveEnumVariant_variant)
        && c.variants.contains(s->RemoveEnumVariant_variant) && s->RemoveEnumVariant_enum_name == e.name;
    assert forall|i: int, k: int| 0 <= i < c.variants.len() && 0 <= k < fr(c.variants[i]).len() implies #[trigger] p(fr(c.variants[i])[k]) by {
        assert(c.variants.contains(c.variants[i]));
    }
    lemma_flat_map_all(c.variants, fr, p);
    assert forall|k: int| 0 <= k < all.len() implies {
        let s = #[trigger] all[k];
        &&& s is RemoveEnumVariant
        &&& !e.variants.contains(s->RemoveEnumVariant_variant)
        &&& c.variants.contains(s->RemoveEnumVariant_variant)
        &&& assess(s, rows, values) == (Risk::Warning, remove_variant_msg(e.name, s->RemoveEnumVariant_variant))
    } by {
        assert(p(c.variants.flat_map(fr)[k]));
    }
}

} // verus!
