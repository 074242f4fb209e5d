use vstd::prelude::*;
use crate::differ::{append_steps, lemma_flat_map_step, single};
use crate::step::{Step, StepV};
use crate::text::{views, Duplicate};

verus! {

/// The number of phases of a plan.
pub const PHASES: u64 = 14;

/// The phase of a step. Plans run phase by phase: foreign keys and indexes are
/// dropped first, then columns and tables; enum variants are removed before
/// enums are created or extended, and enums exist before any column uses them;
/// unused enums go after the columns that used them; tables are created before
/// their columns, indexes and foreign keys are added.
pub open spec fn phase(s: StepV) -> nat {
    match s {
        StepV::DropForeignKey { .. } => 0,
        StepV::DropIndex { .. } => 1,
        StepV::DropColumn { .. } => 2,
        StepV::DropTable(_) => 3,
        StepV::RemoveEnumVariant { .. } => 4,
        StepV::CreateEnum(_) => 5,
        StepV::AddEnumVariant { .. } => 6,
        StepV::AlterColumn { .. } => 7,
        StepV::DropEnum(_) => 8,
        StepV::CreateTable(_) => 9,
        StepV::AddColumn { .. } => 10,
        StepV::CreateIndex { .. } => 11,
        StepV::AddForeignKey { .. } => 12,
        StepV::RawScript(_) => 13,
    }
}

pub fn step_phase(s: &Step) -> (r: u64)
    ensures
        r == phase(s@),
        r < PHASES,
{
    match s {
        Step::DropForeignKey { .. } => 0,
        Step::DropIndex { .. } => 1,
        Step::DropColumn { .. } => 2,
        Step::DropTable(_) => 3,
        Step::RemoveEnumVariant { .. } => 4,
        Step::CreateEnum(_) => 5,
        Step::AddEnumVariant { .. } => 6,
        Step::AlterColumn { .. } => 7,
        Step::DropEnum(_) => 8,
        Step::CreateTable(_) => 9,
        Step::AddColumn { .. } => 10,
        Step::CreateIndex { .. } => 11,
        Step::AddForeignKey { .. } => 12,
        Step::RawScript(_) => 13,
    }
}

/// The steps of one phase, in the order in which they came.
pub open spec fn in_phase(p: nat) -> spec_fn(StepV) -> Seq<StepV> {
    |s: StepV| if phase(s) == p { seq![s] } else { Seq::<StepV>::empty() }
}

/// The steps of the phases before `p`, phase by phase.
pub open spec fn phases_before(steps: Seq<StepV>, p: nat) -> Seq<StepV>
    decreases p,
{
    if p == 0 {
        Seq::empty()
    } else {
        phases_before(steps, (p - 1) as nat) + steps.flat_map(in_phase((p - 1) as nat))
    }
}

/// The plan for a set of steps: the steps sorted by phase, and within a phase
/// in the order in which they came.
pub open spec fn order_spec(steps: Seq<StepV>) -> Seq<StepV> {
    phases_before(steps, PHASES as nat)
}

/// Orders steps so that each runs after those it depends on. Between steps
/// of one phase the order in which they came is kept. No set of steps can
/// make this fail: the phases leave no cycle possible.
pub fn order(steps: &Vec<Step>) -> (r: Vec<Step>)
    ensures
        views(r@) == order_spec(views(steps@)),
{
    let ghost sv = views(steps@);
    let mut out: Vec<Step> = Vec::new();
    let mut p: u64 = 0;
    while p < PHASES
        invariant
            p <= PHASES,
            sv == views(steps@),
            views(out@) == phases_before(sv, p as nat),
        decreases PHASES - p,
    {
        let ghost before = views(out@);
        let ghost f = in_phase(p as nat);
        let mut i: usize = 0;
        while i < steps.len()
            invariant
                i <= steps.len(),
                p < PHASES,
                sv == views(steps@),
                f == in_phase(p as nat),
                views(out@) == before + sv.subrange(0, i as int).flat_map(f),
            decreases steps.len() - i,
        {
            proof { lemma_flat_map_step(sv, f, i as int); }
            if step_phase(&steps[i]) == p {
                append_steps(&mut out, single(steps[i].duplicate()));
            }
            assert(views(out@) =~= before + sv.subrange(0, i as int + 1).flat_map(f));
            i += 1;
        }
        assert(sv.subrange(0, sv.len() as int) =~= sv);
        p += 1;
    }
    out
}

proof fn lemma_in_phase_only(steps: Seq<StepV>, q: nat)
    ensures
        forall|k: int| 0 <= k < steps.flat_map(in_phase(q)).len() ==> #[trigger] phase(steps.flat_map(in_phase(q))[k]) == q,
    decreases steps.len(),
{
    if steps.len() > 0 {
        let r = steps.drop_last();
        lemma_in_phase_only(r, q);
        assert(steps =~= r.push(steps.last()));
        r.lemma_flat_map_push(in_phase(q), steps.last());
        let a = r.flat_map(in_phase(q));
        assert forall|k: int| 0 <= k < steps.flat_map(in_phase(q)).len() implies #[trigger] phase(steps.flat_map(in_phase(q))[k]) == q by {
            if k < a.len() {
                assert(steps.flat_map(in_phase(q))[k] == a[k]);
            }
        }
    }
}

proof fn lemma_phases_before_bounded(steps: Seq<StepV>, p: nat)
    ensures
        forall|k: int| 0 <= k < phases_before(steps, p).len() ==> #[trigger] phase(phases_before(steps, p)[k]) < p,
    decreases p,
{
    if p > 0 {
        let q = (p - 1) as nat;
        lemma_phases_before_bounded(steps, q);
        lemma_in_phase_only(steps, q);
        let head = phases_before(steps, q);
        assert forall|k: int| 0 <= k < phases_before(steps, p).len() implies #[trigger] phase(phases_before(steps, p)[k]) < p by {
            if k < head.len() {
                assert(phases_before(steps, p)[k] == head[k]);
            } else {
                assert(phases_before(steps, p)[k] == steps.flat_map(in_phase(q))[k - head.len()]);
            }
        }
    }
}

/// In a plan, the phases never decrease from one step to the next.
pub proof fn lemma_plan_sorted_by_phase(steps: Seq<StepV>, i: int, j: int)
    requires
        0 <= i < j < order_spec(steps).len(),
    ensures
        phase(order_spec(steps)[i]) <= phase(order_spec(steps)[j]),
{
    lemma_sorted_upto(steps, PHASES as nat, i, j);
}

proof fn lemma_sorted_upto(steps: Seq<StepV>, p: nat, i: int, j: int)
    requires
        0 <= i < j < phases_before(steps, p).len(),
    ensures
        phase(phases_before(steps, p)[i]) <= phase(phases_before(steps, p)[j]),
    decreases p,
{
    if p > 0 {
        let q = (p - 1) as nat;
        let head = phases_before(steps, q);
        let tail = steps.flat_map(in_phase(q));
        lemma_phases_before_bounded(steps, q);
        lemma_in_phase_only(steps, q);
        if j < head.len() {
            lemma_sorted_upto(steps, q, i, j);
        } else if i < head.len() {
            assert(phase(head[i]) < q);
            assert(phase(tail[j - head.len()]) == q);
        } else {
            assert(phase(tail[i - head.len()]) == q);
            assert(phase(tail[j - head.len()]) == q);
        }
    }
}

} // verus!
