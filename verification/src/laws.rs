//! What holds of cases and of the task runner, whatever they are told.

use vstd::prelude::*;
use crate::case::CaseAssessView;
use crate::runner::all_filled;
use crate::runner::capped;
use crate::runner::capped_size;
use crate::runner::case_done;
use crate::runner::filled;
use crate::runner::in_stage;
use crate::runner::kept_rows;
use crate::runner::lemma_kept_rows;
use crate::runner::passed_values;
use crate::runner::row_passes;
use crate::runner::runner_ok;
use crate::runner::task_step;
use crate::runner::Phase;
use crate::runner::TaskRunnerView;
use crate::task::TaskActionView;
use crate::task::TaskEventView;
use crate::value::JsonView;

verus! {

/// The record of the step `step` of the case `case_id`, made of what came of
/// invoking its action.
pub open spec fn record_of(
    step: crate::flow::StepView,
    case_id: crate::id::CaseIdView,
    context: crate::render::RenderContextView,
    invocation: crate::step::InvocationView,
    start: int,
    end: int,
) -> crate::step::StepAssessView {
    crate::step::StepAssessView {
        id: crate::id::StepIdView { step: step.id, case_id },
        start,
        end,
        state: crate::step::step_state(step.condition, context, invocation),
    }
}

/// A step whose action does not return in time ends in the error of a
/// timeout, and so does its case, whatever the steps before it returned.
/// Nothing of this reaches another case: a case's state is made of its own
/// records alone.
pub proof fn law_timeout_is_error(
    records: Seq<crate::step::StepAssessView>,
    step: crate::flow::StepView,
    case_id: crate::id::CaseIdView,
    context: crate::render::RenderContextView,
    start: int,
    end: int,
)
    ensures
        ({
            let record = record_of(step, case_id, context, crate::step::InvocationView::TimedOut, start, end);
            &&& record.state == crate::step::StepStateView::Error(crate::step::timeout_error())
            &&& crate::case::case_state(records.push(record)) == crate::case::CaseStateView::Error(
                crate::step::timeout_error(),
            )
        }),
{
}

/// A step whose value does not meet its condition fails, and its case fails
/// with it: the records of the case end at that step, and the step's record
/// holds the value that was returned.
pub proof fn law_failed_condition_fails_case(
    records: Seq<crate::step::StepAssessView>,
    step: crate::flow::StepView,
    case_id: crate::id::CaseIdView,
    context: crate::render::RenderContextView,
    value: JsonView,
    start: int,
    end: int,
)
    requires
        step.condition is Some,
        !crate::render::holds(step.condition->Some_0, crate::step::condition_data(context, value)),
    ensures
        ({
            let record = record_of(step, case_id, context, crate::step::InvocationView::Value(value), start, end);
            &&& record.state == crate::step::StepStateView::Fail(value)
            &&& crate::case::case_state(records.push(record)) == crate::case::CaseStateView::Fail(
                records.push(record),
            )
            &&& records.push(record).last() == record
            &&& records.push(record).len() == records.len() + 1
        }),
{
}

/// A case that has stopped is finished, whatever steps are left: no step
/// after the one that did not pass is run.
pub proof fn law_stopped_case_is_finished(case: crate::case::CaseRun)
    requires
        case.stopped(),
    ensures
        case.finished(),
{
}

/// What holds of every state stays true: a step takes a state that a runner
/// can be in to one that it can be in.
pub proof fn law_states_stay_valid(s: TaskRunnerView, event: TaskEventView, now: int)
    requires
        runner_ok(s),
        i64::MIN <= now <= i64::MAX,
        event matches TaskEventView::CaseDone { slot, .. } ==> slot <= usize::MAX,
    ensures
        runner_ok(task_step(s, event, now).0),
{
    let next = task_step(s, event, now).0;
    if s.phase == Phase::Loading {
        if let TaskEventView::Loaded(Ok(rows)) = event {
            let stage = s.flow.stage[s.stage as int];
            let more = kept_rows(stage.case_filter, s.flow.def, s.pre_ctx, rows, s.row);
            lemma_kept_rows(stage.case_filter, s.flow.def, s.pre_ctx, rows, s.row);
            let kept = s.kept + more;
            assert forall|i: int| 0 <= i < kept.len() implies (#[trigger] kept[i]).0 <= u64::MAX by {
                if i >= s.kept.len() {
                    assert(kept[i] == more[i - s.kept.len()]);
                } else {
                    assert(kept[i] == s.kept[i]);
                }
            }
            if next.phase == Phase::Running {
                assert(next.slots[0] is None);
            }
        }
    }
    if s.phase == Phase::Running {
        if let TaskEventView::CaseDone { slot, assess } = event {
            if slot < s.slots.len() && s.slots[slot as int] is None {
                let slots = s.slots.update(slot as int, Some(assess));
                if !all_filled(slots) {
                    assert(next.slots == slots);
                }
            }
        }
    }
}

/// The position of a row in a pull, counted in the round: the rows before
/// the pull numbered `from`.
pub open spec fn numbered(rows: Seq<JsonView>, from: nat) -> Seq<(nat, JsonView)> {
    Seq::new(rows.len(), |i: int| (capped((from + i + 1) as nat), rows[i]))
}

/// The rows that a stage keeps of a pull are exactly those that meet its
/// filter, in the order of the pull, each under its number. They depend on
/// nothing but the filter, what the task knows before any case runs, the
/// rows and their position: the same rows are kept in the same way in every
/// round.
pub proof fn law_filter_keeps_what_passes(
    filter: Option<Seq<char>>,
    def: Option<JsonView>,
    pre: Option<JsonView>,
    rows: Seq<JsonView>,
    from: nat,
)
    ensures
        kept_rows(filter, def, pre, rows, from) == numbered(rows, from).filter(
            |r: (nat, JsonView)| row_passes(filter, def, pre, r.1),
        ),
    decreases rows.len(),
{
    let keep = |r: (nat, JsonView)| row_passes(filter, def, pre, r.1);
    let all = numbered(rows, from);
    reveal_with_fuel(Seq::filter, 2);
    if rows.len() == 0 {
        assert(all.filter(keep) =~= Seq::empty());
    } else {
        law_filter_keeps_what_passes(filter, def, pre, rows.drop_last(), from);
        assert(all.drop_last() =~= numbered(rows.drop_last(), from));
        assert(all.last() == (capped(from + rows.len()), rows.last()));
    }
}

/// The data source is rewound when a round is complete and at no other
/// time: when the pull that found it exhausted kept no row, or when the
/// last batch of the round has been reported.
pub proof fn law_reset_ends_round(s: TaskRunnerView, event: TaskEventView, now: int)
    requires
        runner_ok(s),
    ensures
        task_step(s, event, now).1 is Reset ==> task_step(s, event, now).0.phase == Phase::Resetting && (s.phase
            == Phase::Reporting && s.exhausted || s.phase == Phase::Loading && task_step(
            s,
            event,
            now,
        ).0.exhausted),
        s.phase == Phase::Reporting && s.exhausted && event == TaskEventView::Acknowledged(Ok(()))
            ==> task_step(s, event, now).1 is Reset,
{
}

/// Each rewinding completes one round. After it the stage is over where it
/// has made as many rounds as it was to make; else the next round begins,
/// from the first row.
pub proof fn law_reset_counts_round(s: TaskRunnerView, now: int)
    requires
        runner_ok(s),
        s.phase == Phase::Resetting,
    ensures
        ({
            let next = task_step(s, TaskEventView::Acknowledged(Ok(())), now).0;
            let rounds = s.flow.stage[s.stage as int].round;
            let done = capped_size(s.round + 1);
            if rounds > 0 && done >= rounds {
                next.phase == Phase::Ending || next.phase == Phase::StageCreating
            } else if now >= s.deadline {
                next.phase == Phase::Ending || next.phase == Phase::StageCreating
            } else {
                next.phase == Phase::Loading && next.stage == s.stage && next.round == done && next.row == 0
                    && next.kept.len() == 0
            }
        }),
{
}

/// How many times the data source has been asked to rewind in the current
/// stage: once for each round that is complete, and once more while a
/// rewinding is under way.
pub open spec fn resets_asked(s: TaskRunnerView) -> nat {
    s.round + if s.phase == Phase::Resetting {
        1nat
    } else {
        0nat
    }
}

/// While a stage goes on, the data source is asked to rewind once for each
/// round and at no other time: each step that stays in the stage either asks
/// for a rewinding, which ends one more round, or leaves the count of rounds
/// as it is.
pub proof fn law_rounds_count_resets(s: TaskRunnerView, event: TaskEventView, now: int)
    requires
        runner_ok(s),
        in_stage(s.phase),
        s.round < usize::MAX,
    ensures
        ({
            let (next, action) = task_step(s, event, now);
            in_stage(next.phase) && next.phase != Phase::StageCreating ==> next.stage == s.stage
                && resets_asked(next) == resets_asked(s) + if action is Reset {
                1nat
            } else {
                0nat
            }
        }),
{
}

/// A pre-stage that did not pass ends the task in an error, before the
/// report sink has heard of it.
pub proof fn law_pre_stage_failure(s: TaskRunnerView, assess: CaseAssessView, now: int)
    requires
        runner_ok(s),
        s.phase == Phase::PreRunning,
        s.slots[0] is None,
        !(assess.state matches crate::case::CaseStateView::Pass(records) && passed_values(records) is Some),
    ensures
        ({
            let (next, action) = task_step(s, TaskEventView::CaseDone { slot: 0, assess }, now);
            &&& next.phase == Phase::Done
            &&& next.state is Error
            &&& action matches TaskActionView::Done { result } && result == Err::<
                crate::task::TaskAssessView,
                crate::error::ErrorView,
            >(next.state->Error_0)
        }),
{
}

/// A task that is over stays over: whatever it is told, it asks for
/// nothing.
pub proof fn law_done_is_final(s: TaskRunnerView, event: TaskEventView, now: int)
    requires
        s.phase == Phase::Done,
    ensures
        task_step(s, event, now) == (s, TaskActionView::Wait),
{
}

/// What a runner asks for, told of one event after another.
pub open spec fn asked_for(s: TaskRunnerView, events: Seq<(TaskEventView, int)>) -> Seq<TaskActionView>
    decreases events.len(),
{
    if events.len() == 0 {
        Seq::empty()
    } else {
        let (next, action) = task_step(s, events.first().0, events.first().1);
        seq![action] + asked_for(next, events.drop_first())
    }
}

/// Once a task is over, nothing is asked for again: no row is pulled, no
/// case is run, no batch is reported.
pub proof fn law_nothing_after_done(s: TaskRunnerView, events: Seq<(TaskEventView, int)>, k: int)
    requires
        s.phase == Phase::Done,
        0 <= k < events.len(),
    ensures
        asked_for(s, events).len() == events.len(),
        asked_for(s, events)[k] is Wait,
    decreases events.len(),
{
    law_done_is_final(s, events.first().0, events.first().1);
    lemma_asked_len(s, events);
    if k > 0 {
        law_nothing_after_done(s, events.drop_first(), k - 1);
        lemma_asked_len(s, events.drop_first());
    }
}

/// A runner asks for one thing for each thing it is told.
pub proof fn lemma_asked_len(s: TaskRunnerView, events: Seq<(TaskEventView, int)>)
    ensures
        asked_for(s, events).len() == events.len(),
    decreases events.len(),
{
    if events.len() > 0 {
        let (next, action) = task_step(s, events.first().0, events.first().1);
        lemma_asked_len(next, events.drop_first());
    }
}

/// Stages are entered only after the report sink has been told that the
/// task starts: rows are pulled, cases of a stage are run and batches are
/// reported in the phases of a stage alone, and the phases of a stage are
/// reached from the report's start or from a stage.
pub proof fn law_stage_work_in_stage(s: TaskRunnerView, event: TaskEventView, now: int)
    requires
        runner_ok(s),
    ensures
        ({
            let (next, action) = task_step(s, event, now);
            &&& action is Report ==> s.phase == Phase::Running
            &&& action is Load ==> in_stage(s.phase)
            &&& action is Reset ==> in_stage(s.phase)
            &&& action is RunBatch ==> s.phase == Phase::PreCreating || s.phase == Phase::Loading
            &&& in_stage(next.phase) ==> in_stage(s.phase) || s.phase == Phase::Starting
        }),
{
}

/// A batch is reported exactly when the last of its cases finishes: at that
/// event, whole, and under the name of its stage. Until then nothing is
/// reported.
pub proof fn law_report_per_batch(s: TaskRunnerView, event: TaskEventView, now: int)
    requires
        runner_ok(s),
    ensures
        ({
            let (next, action) = task_step(s, event, now);
            let completes = s.phase == Phase::Running && (event matches TaskEventView::CaseDone { slot, assess }
                && slot < s.slots.len() && s.slots[slot as int] is None && all_filled(
                s.slots.update(slot as int, Some(assess)),
            ));
            &&& action is Report <==> completes
            &&& action matches TaskActionView::Report { stage_id, batch } ==> {
                &&& stage_id == s.flow.stage[s.stage as int].id
                &&& batch.len() == s.slots.len()
                &&& 1 <= batch.len() <= s.flow.stage[s.stage as int].concurrency
                &&& next.phase == Phase::Reporting
            }
            &&& s.phase == Phase::Running && !completes ==> action is Wait && next.phase == Phase::Running
        }),
{
}

/// A batch of a stage has at least one case and no more cases than the
/// stage runs at a time, one for each row kept, in the order of the rows.
pub proof fn law_batch_size(s: TaskRunnerView, event: TaskEventView, now: int)
    requires
        runner_ok(s),
        in_stage(s.phase),
    ensures
        ({
            let (next, action) = task_step(s, event, now);
            action matches TaskActionView::RunBatch { cases } ==> {
                &&& 1 <= cases.len() <= s.flow.stage[s.stage as int].concurrency
                &&& next.slots.len() == cases.len()
                &&& next.phase == Phase::Running
                &&& forall|i: int| 0 <= i < cases.len() ==> (#[trigger] next.slots[i]) is None
            }
        }),
{
    if s.phase == Phase::Loading {
        if let TaskEventView::Loaded(Ok(rows)) = event {
            let stage = s.flow.stage[s.stage as int];
            lemma_kept_rows(stage.case_filter, s.flow.def, s.pre_ctx, rows, s.row);
        }
    }
}

/// The records of a batch are reported in the order in which its cases were
/// handed out: each record stands at the place of its case, whichever case
/// finished first.
pub proof fn law_batch_in_order(s: TaskRunnerView, slot: nat, assess: CaseAssessView)
    requires
        runner_ok(s),
        s.phase == Phase::Running,
    ensures
        case_done(s, slot, assess).1 matches TaskActionView::Report { batch, .. } ==> {
            &&& batch[slot as int] == assess
            &&& forall|i: int| 0 <= i < batch.len() && i != slot ==> s.slots[i] == Some(#[trigger] batch[i])
        },
{
    if slot < s.slots.len() && s.slots[slot as int] is None {
        let slots = s.slots.update(slot as int, Some(assess));
        if all_filled(slots) {
            let batch = filled(slots);
            assert forall|i: int| 0 <= i < batch.len() && i != slot implies s.slots[i] == Some(
                #[trigger] batch[i],
            ) by {
                assert(slots[i] is Some);
                assert(slots[i] == s.slots[i]);
            }
        }
    }
}

/// The order in which two cases of a batch finish makes no difference.
pub proof fn law_completion_order(s: TaskRunnerView, i: nat, a: CaseAssessView, j: nat, b: CaseAssessView)
    requires
        runner_ok(s),
        s.phase == Phase::Running,
        i != j,
        i < s.slots.len(),
        j < s.slots.len(),
        s.slots[i as int] is None,
        s.slots[j as int] is None,
    ensures
        case_done(case_done(s, i, a).0, j, b) == case_done(case_done(s, j, b).0, i, a),
{
    let first = s.slots.update(i as int, Some(a));
    let second = s.slots.update(j as int, Some(b));
    assert(first[j as int] is None);
    assert(second[i as int] is None);
    assert(!all_filled(first));
    assert(!all_filled(second));
    assert(first.update(j as int, Some(b)) =~= second.update(i as int, Some(a)));
}

/// The state that a runner is in after it has been told of one event
/// after another.
pub open spec fn state_after(s: TaskRunnerView, events: Seq<(TaskEventView, int)>) -> TaskRunnerView
    decreases events.len(),
{
    if events.len() == 0 {
        s
    } else {
        state_after(task_step(s, events.first().0, events.first().1).0, events.drop_first())
    }
}

/// How many batches of a list of actions are reported.
pub open spec fn reports_in(actions: Seq<TaskActionView>) -> nat
    decreases actions.len(),
{
    if actions.len() == 0 {
        0
    } else {
        reports_in(actions.drop_first()) + if actions.first() is Report {
            1nat
        } else {
            0nat
        }
    }
}

/// How many batches of cases of a stage a runner hands out, told of one
/// event after another.
pub open spec fn batches_of(s: TaskRunnerView, events: Seq<(TaskEventView, int)>) -> nat
    decreases events.len(),
{
    if events.len() == 0 {
        0
    } else {
        let (next, action) = task_step(s, events.first().0, events.first().1);
        batches_of(next, events.drop_first()) + if action is RunBatch && in_stage(s.phase) {
            1nat
        } else {
            0nat
        }
    }
}

/// One if a batch of a stage is running, else none.
pub open spec fn running(s: TaskRunnerView) -> nat {
    if s.phase == Phase::Running {
        1
    } else {
        0
    }
}

/// Along every run, a batch is reported once for each batch of a stage
/// that was handed out and has finished: the batches reported and the batch
/// that is running make up the batches handed out.
pub proof fn law_one_report_per_batch(s: TaskRunnerView, events: Seq<(TaskEventView, int)>)
    requires
        runner_ok(s),
        forall|k: int| 0 <= k < events.len() ==> i64::MIN <= (#[trigger] events[k]).1 <= i64::MAX,
        forall|k: int|
            0 <= k < events.len() ==> ((#[trigger] events[k]).0 matches TaskEventView::CaseDone { slot, .. }
                ==> slot <= usize::MAX),
    ensures
        batches_of(s, events) + running(s) == reports_in(asked_for(s, events)) + running(
            state_after(s, events),
        ),
    decreases events.len(),
{
    if events.len() > 0 {
        let event = events.first().0;
        let now = events.first().1;
        let (next, action) = task_step(s, event, now);
        law_states_stay_valid(s, event, now);
        law_report_per_batch(s, event, now);
        if in_stage(s.phase) {
            law_batch_size(s, event, now);
        }
        let rest = events.drop_first();
        assert forall|k: int| 0 <= k < rest.len() implies i64::MIN <= (#[trigger] rest[k]).1 <= i64::MAX by {
            assert(rest[k] == events[k + 1]);
        }
        assert forall|k: int| 0 <= k < rest.len() implies ((#[trigger] rest[k]).0 matches TaskEventView::CaseDone {
            slot,
            ..
        } ==> slot <= usize::MAX) by {
            assert(rest[k] == events[k + 1]);
        }
        law_one_report_per_batch(next, rest);
        let actions = asked_for(s, events);
        assert(actions.first() == action);
        assert(actions.drop_first() =~= asked_for(next, rest));
        if s.phase == Phase::Loading {
            if let TaskEventView::Loaded(Ok(rows)) = event {
                let stage = s.flow.stage[s.stage as int];
                lemma_kept_rows(stage.case_filter, s.flow.def, s.pre_ctx, rows, s.row);
            }
        }
        assert((if action is RunBatch && in_stage(s.phase) {
            1nat
        } else {
            0nat
        }) + running(s) == (if action is Report {
            1nat
        } else {
            0nat
        }) + running(next));
    }
}

/// Where the pre-stage does not pass, the task ends in an error and nothing
/// is asked for after that: no stage runs, no row is pulled, and the report
/// sink hears nothing, whatever the runner is told.
pub proof fn law_failed_pre_stage_runs_no_stage(
    s: TaskRunnerView,
    assess: CaseAssessView,
    now: int,
    events: Seq<(TaskEventView, int)>,
    k: int,
)
    requires
        runner_ok(s),
        s.phase == Phase::PreRunning,
        s.slots[0] is None,
        !(assess.state matches crate::case::CaseStateView::Pass(records) && passed_values(records) is Some),
        0 <= k < events.len(),
    ensures
        ({
            let all = seq![(TaskEventView::CaseDone { slot: 0, assess }, now)] + events;
            &&& asked_for(s, all).len() == events.len() + 1
            &&& asked_for(s, all)[0] is Done
            &&& asked_for(s, all)[k + 1] is Wait
            &&& state_after(s, all).state is Error
        }),
{
    let first = (TaskEventView::CaseDone { slot: 0, assess }, now);
    let all = seq![first] + events;
    law_pre_stage_failure(s, assess, now);
    let next = task_step(s, first.0, first.1).0;
    assert(all.first() == first);
    assert(all.drop_first() =~= events);
    lemma_asked_len(s, all);
    law_nothing_after_done(next, events, k);
    lemma_done_stays(next, events);
}

/// A task that is over stays in the state it ended in.
pub proof fn lemma_done_stays(s: TaskRunnerView, events: Seq<(TaskEventView, int)>)
    requires
        s.phase == Phase::Done,
    ensures
        state_after(s, events) == s,
    decreases events.len(),
{
    if events.len() > 0 {
        law_done_is_final(s, events.first().0, events.first().1);
        lemma_done_stays(s, events.drop_first());
    }
}

} // verus!
