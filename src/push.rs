use vstd::prelude::*;
use crate::classifier::{classify, warnings_spec, assess, Risk, RowCount, ValueCount, Warning, WarningV};
use crate::differ::{diff, diff_spec};
use crate::orderer::{order, order_spec};
use crate::references::{check_references, error_is_real, references_resolve, PlanningError};
use crate::schema::{Schema, SchemaV};
use crate::step::{Step, StepV};
use crate::text::views;

verus! {

/// Whether a plan with these warnings runs: only without warnings, or when forced.
pub open spec fn plan_runs(warnings: Seq<WarningV>, force: bool) -> bool {
    warnings.len() == 0 || force
}

/// The plan of a push.
pub open spec fn plan_spec(current: SchemaV, desired: SchemaV) -> Seq<StepV> {
    order_spec(diff_spec(current, desired))
}

/// What a push decided: the plan, its risks and warnings, and what to run.
pub struct PushPlan {
    /// The ordered steps from the current schema to the desired one.
    pub steps: Vec<Step>,
    /// The risk of each step, at the step's position.
    pub risks: Vec<Risk>,
    /// Reported whether or not the plan runs.
    pub warnings: Vec<Warning>,
    /// Whether the plan runs.
    pub applied: bool,
    /// What goes to the database: the plan where it runs, nothing otherwise.
    pub to_execute: Vec<Step>,
}

/// Checks the desired schema's references, then diffs, orders and classifies,
/// and decides whether the plan runs.
///
/// `rows` and `values` are what the database reported of its data. With a
/// warning and no `force` nothing is to be executed: the database stays as
/// it is. Warnings are reported when forced too.
pub fn plan_push(
    current: &Schema,
    desired: &Schema,
    rows: &Vec<RowCount>,
    values: &Vec<ValueCount>,
    force: bool,
) -> (res: Result<PushPlan, PlanningError>)
    ensures
        res is Err <==> !references_resolve(desired@),
        res is Err ==> error_is_real(desired@, res->Err_0),
        res is Ok ==> push_plan_spec(res->Ok_0, current@, desired@, rows@, values@, force),
{
    match check_references(desired) {
        Err(e) => Err(e),
        Ok(()) => Ok(plan_checked_push(current, desired, rows, values, force)),
    }
}

/// What a push plans from two schemas and what the database reported of its data.
pub open spec fn push_plan_spec(
    r: PushPlan,
    current: SchemaV,
    desired: SchemaV,
    rows: Seq<RowCount>,
    values: Seq<ValueCount>,
    force: bool,
) -> bool {
    &&& views(r.steps@) == plan_spec(current, desired)
    &&& r.risks@.len() == r.steps@.len()
    &&& forall|i: int| 0 <= i < r.steps@.len() ==> r.risks@[i] == (#[trigger] assess(r.steps@[i]@, rows, values)).0
    &&& views(r.warnings@) == warnings_spec(views(r.steps@), rows, values)
    &&& r.applied == plan_runs(views(r.warnings@), force)
    &&& r.applied ==> views(r.to_execute@) == views(r.steps@)
    &&& !r.applied ==> r.to_execute@.len() == 0
}

fn plan_checked_push(
    current: &Schema,
    desired: &Schema,
    rows: &Vec<RowCount>,
    values: &Vec<ValueCount>,
    force: bool,
) -> (r: PushPlan)
    ensures
        push_plan_spec(r, current@, desired@, rows@, values@, force),
        views(r.steps@) == plan_spec(current@, desired@),
        r.risks@.len() == r.steps@.len(),
        forall|i: int| 0 <= i < r.steps@.len() ==> r.risks@[i] == (#[trigger] assess(r.steps@[i]@, rows@, values@)).0,
        views(r.warnings@) == warnings_spec(views(r.steps@), rows@, values@),
        r.applied == plan_runs(views(r.warnings@), force),
        r.applied ==> views(r.to_execute@) == views(r.steps@),
        !r.applied ==> r.to_execute@.len() == 0,
{
    let unordered = diff(current, desired);
    let steps = order(&unordered);
    let c = classify(&steps, rows, values);
    let applied = c.warnings.len() == 0 || force;
    if applied {
        let to_execute = crate::text::duplicate_all(&steps);
        PushPlan { steps, risks: c.risks, warnings: c.warnings, applied, to_execute }
    } else {
        PushPlan { steps, risks: c.risks, warnings: c.warnings, applied, to_execute: Vec::new() }
    }
}

} // verus!
