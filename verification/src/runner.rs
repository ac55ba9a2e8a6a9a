//! The task runner: the pre-stage, the stages in order, and in each stage
//! the rounds over the rows, batch by batch.
//!
//! The runner does no work of its own. It is told what happened, and says
//! what is to be done next. [`task_step`] is its whole behaviour.

use vstd::prelude::*;
use crate::case::CaseArgStruct;
use crate::case::CaseArgView;
use crate::case::CaseAssessStruct;
use crate::case::CaseAssessView;
use crate::case::CaseState;
use crate::case::CaseStateView;
use crate::error::error_text;
use crate::error::ErrorStruct;
use crate::error::ErrorView;
use crate::flow::first_step;
use crate::flow::flow_ok;
use crate::flow::BreakOn;
use crate::flow::Flow;
use crate::flow::FlowView;
use crate::flow::StepView;
use crate::id::step_id_text;
use crate::id::CaseIdView;
use crate::id::TaskIdSimple;
use crate::id::TaskIdView;
use crate::render::context_data;
use crate::render::holds;
use crate::render::step_object;
use crate::render::RenderContextView;
use crate::step::StepAssessView;
use crate::task::TaskActionView;
use crate::task::TaskAssessView;
use crate::task::TaskEventView;
use crate::task::TaskStateView;
use crate::text::decimal_text;
use crate::flow::json_option_view;
use crate::flow::names_view;
use crate::render::named_view;
use crate::render::RenderContext;
use crate::step::StepState;
use crate::task::assesses_view;
use crate::task::cases_view;
use crate::task::rows_view;
use crate::task::TaskAction;
use crate::task::TaskAssessStruct;
use crate::task::TaskEvent;
use crate::task::TaskState;
use crate::text::decimal;
use crate::value::lemma_members_push;
use crate::value::Json;
use crate::value::JsonView;

verus! {

/// Where a task stands.
#[derive(Debug, Clone, Copy, PartialEq, Eq, Structural)]
pub enum Phase {
    /// The task has not begun.
    Idle,
    /// The actions of the pre-stage are being made.
    PreCreating,
    /// The pre-stage is running.
    PreRunning,
    /// The report sink is being told that the task starts.
    Starting,
    /// The actions of a stage are being made.
    StageCreating,
    /// Rows are being pulled.
    Loading,
    /// A batch of cases is running.
    Running,
    /// A batch is being reported.
    Reporting,
    /// The data source is being rewound.
    Resetting,
    /// The report sink is being told what came of the task.
    Ending,
    /// The task is over.
    Done,
}

/// The mathematical content of a [`TaskRunner`](crate::runner::TaskRunner).
pub struct TaskRunnerView {
    /// The plan.
    pub flow: FlowView,
    /// The task's identity.
    pub id: TaskIdView,
    /// What the pre-stage put out.
    pub pre_ctx: Option<JsonView>,
    /// What has come of the task so far.
    pub state: TaskStateView,
    /// What has come of the current stage so far.
    pub stage_state: TaskStateView,
    pub phase: Phase,
    /// The position of the current stage.
    pub stage: nat,
    /// How many rounds of the current stage are complete.
    pub round: nat,
    /// How many rows have been pulled in the current round.
    pub row: nat,
    /// How many rows the pull under way asks for.
    pub asked: nat,
    /// The rows kept for the next batch, each with its number in the round.
    pub kept: Seq<(nat, JsonView)>,
    /// Whether the data source has no more rows in this round.
    pub exhausted: bool,
    /// The records of the batch that is running, by position; `None` for a
    /// case that is still running.
    pub slots: Seq<Option<CaseAssessView>>,
    /// When the task began.
    pub start: int,
    /// When the task ended.
    pub end: int,
    /// When the current stage is out of time.
    pub deadline: int,
}

/// `n`, or the greatest `u64` where `n` is greater.
pub open spec fn capped(n: nat) -> nat {
    if n > u64::MAX {
        u64::MAX as nat
    } else {
        n
    }
}

/// `n`, or the greatest `usize` where `n` is greater.
pub open spec fn capped_size(n: nat) -> nat {
    if n > usize::MAX {
        usize::MAX as nat
    } else {
        n
    }
}

/// The moment that lies `seconds` after `now`, both in milliseconds since
/// the epoch; the last moment there is, where that one lies beyond it.
pub open spec fn deadline_after(now: int, seconds: nat) -> int {
    if now + seconds * 1000 > i64::MAX {
        i64::MAX as int
    } else {
        now + seconds * 1000
    }
}

/// The definitions that a flow gives to a list of names.
pub open spec fn resolve(flow: FlowView, names: Seq<Seq<char>>) -> Seq<StepView> {
    Seq::new(names.len(), |k: int| first_step(flow.step, names[k])->Some_0)
}

/// The namespace that a row is filtered in: the row under `case`, beside
/// what the task knows before any case runs.
pub open spec fn row_context(def: Option<JsonView>, pre: Option<JsonView>, row: JsonView) -> RenderContextView {
    RenderContextView { def, pre, case: row, step: Seq::empty(), dynamic: Seq::empty(), curr: JsonView::Null }
}

/// Whether a row becomes a case: it does where the stage has no filter, and
/// where it meets the filter.
pub open spec fn row_passes(
    filter: Option<Seq<char>>,
    def: Option<JsonView>,
    pre: Option<JsonView>,
    row: JsonView,
) -> bool {
    match filter {
        Some(f) => holds(f, context_data(row_context(def, pre, row))),
        None => true,
    }
}

/// The rows of a pull that become cases, in the order of the pull, each
/// with its number in the round: the rows before the pull numbered `from`.
pub open spec fn kept_rows(
    filter: Option<Seq<char>>,
    def: Option<JsonView>,
    pre: Option<JsonView>,
    rows: Seq<JsonView>,
    from: nat,
) -> Seq<(nat, JsonView)>
    decreases rows.len(),
{
    if rows.len() == 0 {
        Seq::empty()
    } else {
        let head = kept_rows(filter, def, pre, rows.drop_last(), from);
        if row_passes(filter, def, pre, rows.last()) {
            head.push((capped(from + rows.len()), rows.last()))
        } else {
            head
        }
    }
}

/// The name of a round of a stage: `<stage>_<round>`, rounds counted from 1.
pub open spec fn round_tag(stage_id: Seq<char>, round: nat) -> Seq<char> {
    stage_id + "_"@ + decimal_text(capped(round + 1))
}

/// The case of the pre-stage: its steps, on a row that is null.
pub open spec fn pre_case(s: TaskRunnerView) -> CaseArgView {
    CaseArgView {
        step: resolve(s.flow, s.flow.pre->Some_0),
        data: JsonView::Null,
        def: s.flow.def,
        pre_ctx: None,
        id: CaseIdView { task_id: s.id, exec_id: "pre"@, case: "0"@ },
    }
}

/// The cases of a batch: one for each row kept, in order.
pub open spec fn batch_cases(s: TaskRunnerView) -> Seq<CaseArgView> {
    let stage = s.flow.stage[s.stage as int];
    Seq::new(
        s.kept.len(),
        |i: int|
            CaseArgView {
                step: resolve(s.flow, stage.step),
                data: s.kept[i].1,
                def: s.flow.def,
                pre_ctx: s.pre_ctx,
                id: CaseIdView {
                    task_id: s.id,
                    exec_id: round_tag(stage.id, s.round),
                    case: decimal_text(s.kept[i].0),
                },
            },
    )
}

/// The values that the steps of a case returned, each under the step's
/// name; `None` where a step did not pass.
pub open spec fn passed_values(records: Seq<StepAssessView>) -> Option<Seq<(Seq<char>, JsonView)>>
    decreases records.len(),
{
    if records.len() == 0 {
        Some(Seq::empty())
    } else {
        match (passed_values(records.drop_last()), records.last().state) {
            (Some(head), crate::step::StepStateView::Pass(value)) => Some(
                head.push((records.last().id.step, value)),
            ),
            _ => None,
        }
    }
}

/// What the pre-stage puts out: `{"step": {<step>: {"value": <value>}}}`.
pub open spec fn pre_output(values: Seq<(Seq<char>, JsonView)>) -> JsonView {
    JsonView::Object(
        Map::<Seq<char>, JsonView>::empty().insert("step"@, JsonView::Object(step_object(values))),
    )
}

/// What a case does to the outcome of its stage: a case that failed makes
/// the stage fail; a case that ended in an error makes a stage that had
/// passed so far end in that error.
pub open spec fn stage_after(stage: TaskStateView, case: CaseStateView) -> TaskStateView {
    match case {
        CaseStateView::Pass(_) => stage,
        CaseStateView::Fail(_) => TaskStateView::Fail,
        CaseStateView::Error(e) => if stage is Pass {
            TaskStateView::Error(e)
        } else {
            stage
        },
    }
}

/// What a batch does to the outcome of its stage, case by case.
pub open spec fn stage_after_batch(stage: TaskStateView, batch: Seq<CaseAssessView>) -> TaskStateView
    decreases batch.len(),
{
    if batch.len() == 0 {
        stage
    } else {
        stage_after(stage_after_batch(stage, batch.drop_last()), batch.last().state)
    }
}

/// Whether every case of a batch passed.
pub open spec fn all_passed(batch: Seq<CaseAssessView>) -> bool {
    forall|i: int| 0 <= i < batch.len() ==> (#[trigger] batch[i]).state is Pass
}

/// What a batch does to the outcome of its task: a task that had passed so
/// far fails where a case did not pass.
pub open spec fn task_after_batch(task: TaskStateView, batch: Seq<CaseAssessView>) -> TaskStateView {
    if task is Pass && !all_passed(batch) {
        TaskStateView::Fail
    } else {
        task
    }
}

/// Whether every case of the batch that is running has finished.
pub open spec fn all_filled(slots: Seq<Option<CaseAssessView>>) -> bool {
    forall|i: int| 0 <= i < slots.len() ==> (#[trigger] slots[i]) is Some
}

/// The records of a batch whose cases have all finished, by position.
pub open spec fn filled(slots: Seq<Option<CaseAssessView>>) -> Seq<CaseAssessView> {
    Seq::new(slots.len(), |i: int| slots[i]->Some_0)
}

/// The error of a round whose first pull brought no row.
pub open spec fn no_case_error() -> ErrorView {
    ErrorView { code: "011"@, message: "no case provided"@, cause: None }
}

/// The error of a pull that brought more rows than it asked for.
pub open spec fn overfull_error() -> ErrorView {
    ErrorView { code: "013"@, message: "more rows than asked for"@, cause: None }
}

/// The error of a pre-stage one of whose steps did not pass although the
/// case is said to have.
pub open spec fn pre_step_error() -> ErrorView {
    ErrorView { code: "012"@, message: "pre step run failure"@, cause: None }
}

/// The error of a pre-stage that failed at the step of the given identity.
pub open spec fn pre_fail_error(records: Seq<StepAssessView>) -> ErrorView {
    ErrorView {
        code: "020"@,
        message: "pre Fail : "@ + (if records.len() > 0 {
            step_id_text(records.last().id)
        } else {
            Seq::empty()
        }),
        cause: None,
    }
}

/// The error of a pre-stage that ended in an error.
pub open spec fn pre_err_error(e: ErrorView) -> ErrorView {
    ErrorView { code: "021"@, message: "pre Err  : "@ + error_text(e.code, e.message), cause: None }
}

/// The record of the task, were it to end at `end` in `state`.
pub open spec fn task_record(s: TaskRunnerView, end: int, state: TaskStateView) -> TaskAssessView {
    TaskAssessView { id: s.id, start: s.start, end, state }
}

/// The task ends before its report has started, or the report sink fails at
/// its start or end: the task is over, in that error.
pub open spec fn halted(s: TaskRunnerView, e: ErrorView) -> (TaskRunnerView, TaskActionView) {
    (
        TaskRunnerView {
            state: TaskStateView::Error(e),
            phase: Phase::Done,
            kept: Seq::empty(),
            slots: Seq::empty(),
            ..s
        },
        TaskActionView::Done { result: Err(e) },
    )
}

/// The task ends at `now` in `state`: the report sink is told.
pub open spec fn ending(s: TaskRunnerView, state: TaskStateView, now: int) -> (TaskRunnerView, TaskActionView) {
    (
        TaskRunnerView { state, phase: Phase::Ending, kept: Seq::empty(), slots: Seq::empty(), end: now, ..s },
        TaskActionView::End { assess: task_record(s, now, state) },
    )
}

/// The stage at `index` begins at `now`, if there is one: its actions are
/// asked for, and its time starts running. If there is none, the task ends.
pub open spec fn enter_stage(s: TaskRunnerView, index: nat, now: int) -> (TaskRunnerView, TaskActionView) {
    if index < s.flow.stage.len() {
        let stage = s.flow.stage[index as int];
        (
            TaskRunnerView {
                phase: Phase::StageCreating,
                stage: index,
                round: 0,
                row: 0,
                asked: 0,
                stage_state: TaskStateView::Pass,
                kept: Seq::empty(),
                slots: Seq::empty(),
                exhausted: false,
                deadline: deadline_after(now, stage.duration),
                ..s
            },
            TaskActionView::Create { step: stage.step },
        )
    } else {
        ending(s, s.state, now)
    }
}

/// The current stage is over: where it failed and asks for that, the stages
/// after it are skipped; else the next stage begins.
pub open spec fn leave_stage(s: TaskRunnerView, now: int) -> (TaskRunnerView, TaskActionView) {
    if s.stage_state is Fail && s.flow.stage[s.stage as int].break_on == BreakOn::StageFail {
        ending(s, s.state, now)
    } else {
        enter_stage(s, s.stage + 1, now)
    }
}

/// More rows are wanted for the next batch: as many as the batch still has
/// room for are pulled, unless the stage is out of time, in which case it is
/// over.
pub open spec fn pull(s: TaskRunnerView, now: int) -> (TaskRunnerView, TaskActionView) {
    if now >= s.deadline {
        leave_stage(s, now)
    } else {
        let size = (s.flow.stage[s.stage as int].concurrency - s.kept.len()) as nat;
        (TaskRunnerView { phase: Phase::Loading, asked: size, ..s }, TaskActionView::Load { size })
    }
}

/// A round begins: no row has been pulled.
pub open spec fn begin_round(s: TaskRunnerView, now: int) -> (TaskRunnerView, TaskActionView) {
    pull(TaskRunnerView { row: 0, exhausted: false, kept: Seq::empty(), slots: Seq::empty(), ..s }, now)
}

/// A round is complete: the data source is rewound.
pub open spec fn end_round(s: TaskRunnerView) -> (TaskRunnerView, TaskActionView) {
    (
        TaskRunnerView { phase: Phase::Resetting, kept: Seq::empty(), slots: Seq::empty(), ..s },
        TaskActionView::Reset,
    )
}

/// The rows of the next batch are together: they run as cases, unless there
/// is none, which completes the round, or the stage is out of time, in which
/// case it is over.
pub open spec fn dispatch(s: TaskRunnerView, now: int) -> (TaskRunnerView, TaskActionView) {
    if s.kept.len() == 0 {
        end_round(s)
    } else if now >= s.deadline {
        leave_stage(s, now)
    } else {
        (
            TaskRunnerView {
                phase: Phase::Running,
                slots: Seq::new(s.kept.len(), |i: int| None),
                kept: Seq::empty(),
                ..s
            },
            TaskActionView::RunBatch { cases: batch_cases(s) },
        )
    }
}

/// Rows have been pulled.
pub open spec fn loaded(s: TaskRunnerView, rows: Seq<JsonView>, now: int) -> (TaskRunnerView, TaskActionView) {
    let stage = s.flow.stage[s.stage as int];
    if rows.len() > s.asked {
        ending(s, TaskStateView::Error(overfull_error()), now)
    } else if s.row == 0 && rows.len() == 0 {
        ending(s, TaskStateView::Error(no_case_error()), now)
    } else {
        let t = TaskRunnerView {
            kept: s.kept + kept_rows(stage.case_filter, s.flow.def, s.pre_ctx, rows, s.row),
            row: capped(s.row + rows.len()),
            exhausted: rows.len() < s.asked,
            ..s
        };
        if t.kept.len() >= stage.concurrency || t.exhausted {
            dispatch(t, now)
        } else {
            pull(t, now)
        }
    }
}

/// A case of the batch that is running has finished. Its record takes its
/// place; when every place is taken, the batch is reported, in the order of
/// its places.
pub open spec fn case_done(s: TaskRunnerView, slot: nat, assess: CaseAssessView) -> (
    TaskRunnerView,
    TaskActionView,
) {
    if slot < s.slots.len() && s.slots[slot as int] is None {
        let slots = s.slots.update(slot as int, Some(assess));
        if all_filled(slots) {
            let batch = filled(slots);
            (
                TaskRunnerView {
                    phase: Phase::Reporting,
                    stage_state: stage_after_batch(s.stage_state, batch),
                    state: task_after_batch(s.state, batch),
                    slots: Seq::empty(),
                    ..s
                },
                TaskActionView::Report { stage_id: s.flow.stage[s.stage as int].id, batch },
            )
        } else {
            (TaskRunnerView { slots, ..s }, TaskActionView::Wait)
        }
    } else {
        (s, TaskActionView::Wait)
    }
}

/// The case of the pre-stage has finished. Where every step passed, the
/// task goes on, knowing what the steps returned; else the task is over.
pub open spec fn pre_done(s: TaskRunnerView, slot: nat, assess: CaseAssessView) -> (
    TaskRunnerView,
    TaskActionView,
) {
    if slot == 0 && s.slots.len() == 1 && s.slots[0] is None {
        match assess.state {
            CaseStateView::Pass(records) => match passed_values(records) {
                Some(values) => (
                    TaskRunnerView {
                        pre_ctx: Some(pre_output(values)),
                        phase: Phase::Starting,
                        slots: Seq::empty(),
                        ..s
                    },
                    TaskActionView::Start,
                ),
                None => halted(s, pre_step_error()),
            },
            CaseStateView::Fail(records) => halted(s, pre_fail_error(records)),
            CaseStateView::Error(e) => halted(s, pre_err_error(e)),
        }
    } else {
        (s, TaskActionView::Wait)
    }
}

/// A round's rewinding is done: one more round is complete. Where that was
/// the last round of the stage, the stage is over; else the next round
/// begins.
pub open spec fn reset_done(s: TaskRunnerView, now: int) -> (TaskRunnerView, TaskActionView) {
    let t = TaskRunnerView { round: capped_size(s.round + 1), ..s };
    let rounds = s.flow.stage[s.stage as int].round;
    if rounds > 0 && t.round >= rounds {
        leave_stage(t, now)
    } else {
        begin_round(t, now)
    }
}

/// What a task runner in the state `s` does when it is told of `event` at
/// the moment `now`: the state it goes to, and what it asks for. An event
/// that the state does not wait for changes nothing and asks for nothing.
pub open spec fn task_step(s: TaskRunnerView, event: TaskEventView, now: int) -> (
    TaskRunnerView,
    TaskActionView,
) {
    match (s.phase, event) {
        (Phase::Idle, TaskEventView::Begin) => match s.flow.pre {
            Some(names) => (
                TaskRunnerView { phase: Phase::PreCreating, start: now, ..s },
                TaskActionView::Create { step: names },
            ),
            None => (TaskRunnerView { phase: Phase::Starting, start: now, ..s }, TaskActionView::Start),
        },
        (Phase::PreCreating, TaskEventView::Created(Ok(_))) => (
            TaskRunnerView { phase: Phase::PreRunning, slots: seq![None], ..s },
            TaskActionView::RunBatch { cases: seq![pre_case(s)] },
        ),
        (Phase::PreCreating, TaskEventView::Created(Err(e))) => halted(s, e),
        (Phase::PreRunning, TaskEventView::CaseDone { slot, assess }) => pre_done(s, slot, assess),
        (Phase::Starting, TaskEventView::Acknowledged(Ok(_))) => enter_stage(s, 0, now),
        (Phase::Starting, TaskEventView::Acknowledged(Err(e))) => halted(s, e),
        (Phase::StageCreating, TaskEventView::Created(Ok(_))) => begin_round(s, now),
        (Phase::StageCreating, TaskEventView::Created(Err(e))) => ending(s, TaskStateView::Error(e), now),
        (Phase::Loading, TaskEventView::Loaded(Ok(rows))) => loaded(s, rows, now),
        (Phase::Loading, TaskEventView::Loaded(Err(e))) => ending(s, TaskStateView::Error(e), now),
        (Phase::Running, TaskEventView::CaseDone { slot, assess }) => case_done(s, slot, assess),
        (Phase::Reporting, TaskEventView::Acknowledged(Ok(_))) => if s.exhausted {
            end_round(s)
        } else {
            pull(s, now)
        },
        (Phase::Reporting, TaskEventView::Acknowledged(Err(e))) => ending(s, TaskStateView::Error(e), now),
        (Phase::Resetting, TaskEventView::Acknowledged(Ok(_))) => reset_done(s, now),
        (Phase::Resetting, TaskEventView::Acknowledged(Err(e))) => ending(s, TaskStateView::Error(e), now),
        (Phase::Ending, TaskEventView::Acknowledged(Ok(_))) => (
            TaskRunnerView { phase: Phase::Done, ..s },
            TaskActionView::Done { result: Ok(task_record(s, s.end, s.state)) },
        ),
        (Phase::Ending, TaskEventView::Acknowledged(Err(e))) => halted(s, e),
        _ => (s, TaskActionView::Wait),
    }
}

/// Whether a phase belongs to a stage.
pub open spec fn in_stage(phase: Phase) -> bool {
    phase == Phase::StageCreating || phase == Phase::Loading || phase == Phase::Running || phase
        == Phase::Reporting || phase == Phase::Resetting
}

/// What holds of every state that a task runner can be in.
pub open spec fn runner_ok(s: TaskRunnerView) -> bool {
    &&& flow_ok(s.flow)
    &&& in_stage(s.phase) ==> s.stage < s.flow.stage.len()
    &&& s.stage <= usize::MAX && s.round <= usize::MAX && s.row <= u64::MAX && s.asked <= usize::MAX
    &&& i64::MIN <= s.start <= i64::MAX && i64::MIN <= s.end <= i64::MAX && i64::MIN <= s.deadline
        <= i64::MAX
    &&& forall|i: int| 0 <= i < s.kept.len() ==> (#[trigger] s.kept[i]).0 <= u64::MAX
    &&& in_stage(s.phase) ==> s.kept.len() <= s.flow.stage[s.stage as int].concurrency
    &&& in_stage(s.phase) && s.phase != Phase::Loading ==> s.kept.len() == 0
    &&& s.phase == Phase::Loading ==> s.asked >= 1 && s.kept.len() + s.asked
        == s.flow.stage[s.stage as int].concurrency
    &&& s.phase == Phase::Running ==> 1 <= s.slots.len() <= s.flow.stage[s.stage as int].concurrency
        && !all_filled(s.slots)
    &&& (s.phase == Phase::PreCreating || s.phase == Phase::PreRunning) ==> s.flow.pre is Some
    &&& s.phase == Phase::PreRunning ==> s.slots.len() == 1
}

/// The contents of a list of numbered rows.
pub open spec fn kept_view(kept: Seq<(u64, Json)>) -> Seq<(nat, JsonView)> {
    Seq::new(kept.len(), |i: int| (kept[i].0 as nat, kept[i].1@))
}

/// The content of the record in a place of a batch.
pub open spec fn slot_view(slot: Option<CaseAssessStruct>) -> Option<CaseAssessView> {
    match slot {
        Some(a) => Some(a@),
        None => None,
    }
}

/// The contents of the places of a batch.
pub open spec fn slots_view(slots: Seq<Option<CaseAssessStruct>>) -> Seq<Option<CaseAssessView>> {
    Seq::new(slots.len(), |i: int| slot_view(slots[i]))
}

/// A pull keeps no more rows than it brings, and numbers none beyond the
/// greatest number there is.
pub proof fn lemma_kept_rows(
    filter: Option<Seq<char>>,
    def: Option<JsonView>,
    pre: Option<JsonView>,
    rows: Seq<JsonView>,
    from: nat,
)
    ensures
        kept_rows(filter, def, pre, rows, from).len() <= rows.len(),
        forall|i: int|
            0 <= i < kept_rows(filter, def, pre, rows, from).len() ==> (#[trigger] kept_rows(
                filter,
                def,
                pre,
                rows,
                from,
            )[i]).0 <= u64::MAX,
    decreases rows.len(),
{
    if rows.len() > 0 {
        lemma_kept_rows(filter, def, pre, rows.drop_last(), from);
    }
}

/// Runs a task: told what happened, it says what is to be done next.
#[derive(Debug)]
pub struct TaskRunner {
    flow: Flow,
    id: TaskIdSimple,
    pre_ctx: Option<Json>,
    state: TaskState,
    stage_state: TaskState,
    phase: Phase,
    stage: usize,
    round: usize,
    row: u64,
    asked: usize,
    kept: Vec<(u64, Json)>,
    exhausted: bool,
    slots: Vec<Option<CaseAssessStruct>>,
    start: i64,
    end: i64,
    deadline: i64,
}

impl View for TaskRunner {
    type V = TaskRunnerView;

    closed spec fn view(&self) -> TaskRunnerView {
        TaskRunnerView {
            flow: self.flow@,
            id: self.id@,
            pre_ctx: json_option_view(self.pre_ctx),
            state: self.state@,
            stage_state: self.stage_state@,
            phase: self.phase,
            stage: self.stage as nat,
            round: self.round as nat,
            row: self.row as nat,
            asked: self.asked as nat,
            kept: kept_view(self.kept@),
            exhausted: self.exhausted,
            slots: slots_view(self.slots@),
            start: self.start as int,
            end: self.end as int,
            deadline: self.deadline as int,
        }
    }
}

fn deadline(now: i64, seconds: u64) -> (d: i64)
    ensures
        d == deadline_after(now as int, seconds as nat),
{
    let wide: i128 = now as i128 + (seconds as i128) * 1000;
    if wide > i64::MAX as i128 {
        i64::MAX
    } else {
        wide as i64
    }
}

fn stage_after_case(stage: TaskState, case: &CaseState) -> (next: TaskState)
    ensures
        next@ == stage_after(stage@, case@),
{
    match case {
        CaseState::Pass(_) => stage,
        CaseState::Fail(_) => TaskState::Fail,
        CaseState::Error(e) => if stage.is_ok() {
            TaskState::Error(e.clone())
        } else {
            stage
        },
    }
}

fn fold_batch(stage: TaskState, task: TaskState, batch: &Vec<CaseAssessStruct>) -> (next: (TaskState, TaskState))
    ensures
        next.0@ == stage_after_batch(stage@, assesses_view(batch@)),
        next.1@ == task_after_batch(task@, assesses_view(batch@)),
{
    let ghost all = assesses_view(batch@);
    let ghost first = stage@;
    let mut stage = stage;
    let mut passed = true;
    let mut i: usize = 0;
    proof {
        assert(all.take(0) =~= Seq::empty());
    }
    while i < batch.len()
        invariant
            i <= batch.len(),
            all == assesses_view(batch@),
            stage@ == stage_after_batch(first, all.take(i as int)),
            passed == all_passed(all.take(i as int)),
        decreases batch.len() - i,
    {
        proof {
            let next = all.take(i as int + 1);
            assert(next.drop_last() =~= all.take(i as int));
            assert(next.last() == batch@[i as int]@);
            if all_passed(all.take(i as int)) && batch@[i as int]@.state is Pass {
                assert forall|k: int| 0 <= k < next.len() implies (#[trigger] next[k]).state is Pass by {
                    if k < i {
                        assert(all.take(i as int)[k] == next[k]);
                    }
                }
            }
            if all_passed(next) {
                assert(next[i as int].state is Pass);
                assert forall|k: int| 0 <= k < i implies (#[trigger] all.take(i as int)[k]).state is Pass by {
                    assert(all.take(i as int)[k] == next[k]);
                }
            }
        }
        if !batch[i].state().is_ok() {
            passed = false;
        }
        stage = stage_after_case(stage, batch[i].state());
        i += 1;
    }
    proof {
        assert(all.take(i as int) =~= all);
    }
    let task = if task.is_ok() && !passed {
        TaskState::Fail
    } else {
        task
    };
    (stage, task)
}

/// The rows of a pull that become cases, given for each row whether it
/// does, in the order of the pull, each with its number in the round: the
/// rows before the pull numbered `from`.
pub open spec fn selected(rows: Seq<JsonView>, passes: Seq<bool>, from: nat) -> Seq<(nat, JsonView)>
    decreases rows.len(),
{
    if rows.len() == 0 {
        Seq::empty()
    } else {
        let head = selected(rows.drop_last(), passes.take(rows.len() - 1), from);
        if passes[rows.len() - 1] {
            head.push((capped(from + rows.len()), rows.last()))
        } else {
            head
        }
    }
}

/// For each row of a pull, whether it becomes a case.
pub open spec fn rows_pass(
    filter: Option<Seq<char>>,
    def: Option<JsonView>,
    pre: Option<JsonView>,
    rows: Seq<JsonView>,
) -> Seq<bool> {
    Seq::new(rows.len(), |i: int| row_passes(filter, def, pre, rows[i]))
}

/// The rows that a stage keeps of a pull are those that are selected by
/// whether they meet its filter.
pub proof fn lemma_kept_is_selected(
    filter: Option<Seq<char>>,
    def: Option<JsonView>,
    pre: Option<JsonView>,
    rows: Seq<JsonView>,
    from: nat,
)
    ensures
        kept_rows(filter, def, pre, rows, from) == selected(rows, rows_pass(filter, def, pre, rows), from),
    decreases rows.len(),
{
    if rows.len() > 0 {
        lemma_kept_is_selected(filter, def, pre, rows.drop_last(), from);
        assert(rows_pass(filter, def, pre, rows).take(rows.len() - 1) =~= rows_pass(
            filter,
            def,
            pre,
            rows.drop_last(),
        ));
    }
}

/// Adds to the rows kept for a batch those rows of a pull that become
/// cases, given for each row whether it does; each with its number in the
/// round, the rows before the pull numbered `from`.
pub fn select(kept: Vec<(u64, Json)>, rows: &Vec<Json>, passes: &Vec<bool>, from: u64) -> (out: Vec<(u64, Json)>)
    requires
        passes.len() == rows.len(),
    ensures
        kept_view(out@) == kept_view(kept@) + selected(rows_view(rows@), passes@, from as nat),
{
    let ghost all = rows_view(rows@);
    let ghost first = kept_view(kept@);
    let mut kept = kept;
    let mut i: usize = 0;
    proof {
        assert(all.take(0) =~= Seq::empty());
        assert(kept_view(kept@) =~= first + Seq::empty());
    }
    while i < rows.len()
        invariant
            i <= rows.len(),
            passes.len() == rows.len(),
            all == rows_view(rows@),
            kept_view(kept@) == first + selected(all.take(i as int), passes@.take(i as int), from as nat),
        decreases rows.len() - i,
    {
        proof {
            let next = all.take(i as int + 1);
            assert(next.drop_last() =~= all.take(i as int));
            assert(next.last() == rows@[i as int]@);
            assert(passes@.take(i as int + 1).take(i as int) =~= passes@.take(i as int));
        }
        if passes[i] {
            let number = from.saturating_add((i as u64).saturating_add(1));
            let ghost before = kept_view(kept@);
            kept.push((number, rows[i].clone()));
            proof {
                assert(kept_view(kept@) =~= before.push((number as nat, rows@[i as int]@)));
                assert(before.push((number as nat, rows@[i as int]@)) =~= first + selected(
                    all.take(i as int),
                    passes@.take(i as int),
                    from as nat,
                ).push((number as nat, rows@[i as int]@)));
            }
        }
        i += 1;
    }
    proof {
        assert(all.take(i as int) =~= all);
        assert(passes@.take(i as int) =~= passes@);
    }
    kept
}

fn keep_rows(
    kept: Vec<(u64, Json)>,
    filter: &Option<String>,
    def: Option<&Json>,
    pre: &Option<Json>,
    rows: &Vec<Json>,
    from: u64,
) -> (out: Vec<(u64, Json)>)
    ensures
        kept_view(out@) == kept_view(kept@) + kept_rows(
            crate::flow::text_option_view(*filter),
            match def {
                Some(d) => Some(d@),
                None => None,
            },
            json_option_view(*pre),
            rows_view(rows@),
            from as nat,
        ),
{
    let ghost f = crate::flow::text_option_view(*filter);
    let ghost d = match def {
        Some(d) => Some(d@),
        None => None,
    };
    let ghost p = json_option_view(*pre);
    let ghost all = rows_view(rows@);
    let mut passes: Vec<bool> = Vec::new();
    let mut i: usize = 0;
    while i < rows.len()
        invariant
            i <= rows.len(),
            passes.len() == i,
            f == crate::flow::text_option_view(*filter),
            d == match def {
                Some(d) => Some(d@),
                None => None,
            },
            p == json_option_view(*pre),
            all == rows_view(rows@),
            forall|k: int| 0 <= k < i ==> passes@[k] == row_passes(f, d, p, #[trigger] all[k]),
        decreases rows.len() - i,
    {
        let pass = match filter {
            Some(text) => {
                let context = RenderContext::new(
                    match def {
                        Some(d) => Some(d.clone()),
                        None => None,
                    },
                    crate::flow::clone_json_option(pre),
                    rows[i].clone(),
                );
                context.evaluate_boolean(text.as_str(), None)
            },
            None => true,
        };
        assert(all[i as int] == rows@[i as int]@);
        passes.push(pass);
        i += 1;
    }
    proof {
        assert(passes@ =~= rows_pass(f, d, p, all));
        lemma_kept_is_selected(f, d, p, all, from as nat);
    }
    select(kept, rows, &passes, from)
}

fn passed(records: &Vec<crate::step::StepAssessStruct>) -> (r: Option<Vec<(String, Json)>>)
    ensures
        match r {
            Some(values) => passed_values(crate::case::records_view(records@)) == Some(named_view(values@)),
            None => passed_values(crate::case::records_view(records@)) is None,
        },
{
    let ghost all = crate::case::records_view(records@);
    let mut values: Vec<(String, Json)> = Vec::new();
    let mut i: usize = 0;
    proof {
        assert(all.take(0) =~= Seq::empty());
        assert(named_view(values@) =~= Seq::empty());
    }
    while i < records.len()
        invariant
            i <= records.len(),
            all == crate::case::records_view(records@),
            passed_values(all.take(i as int)) == Some(named_view(values@)),
        decreases records.len() - i,
    {
        proof {
            let next = all.take(i as int + 1);
            assert(next.drop_last() =~= all.take(i as int));
            assert(next.last() == records@[i as int]@);
        }
        match records[i].state() {
            StepState::Pass(value) => {
                let ghost before = named_view(values@);
                let name = records[i].id().step().to_owned();
                values.push((name, value.clone()));
                proof {
                    assert(named_view(values@) =~= before.push((records@[i as int]@.id.step, value@)));
                }
            },
            _ => {
                proof {
                    lemma_passed_values_prefix(all, i as int + 1);
                }
                return None;
            },
        }
        i += 1;
    }
    proof {
        assert(all.take(i as int) =~= all);
    }
    Some(values)
}

/// Where the first steps of a case did not all pass, its steps did not.
pub proof fn lemma_passed_values_prefix(records: Seq<StepAssessView>, n: int)
    requires
        0 <= n <= records.len(),
        passed_values(records.take(n)) is None,
    ensures
        passed_values(records) is None,
    decreases records.len() - n,
{
    if n < records.len() {
        assert(records.take(n + 1).drop_last() =~= records.take(n));
        lemma_passed_values_prefix(records, n + 1);
    } else {
        assert(records.take(n) =~= records);
    }
}

impl TaskRunner {
    #[verifier::type_invariant]
    spec fn valid(self) -> bool {
        runner_ok(self@)
    }

    /// A runner for the task `id` of the plan `flow`. The task has not begun.
    pub fn new(flow: Flow, id: TaskIdSimple) -> (runner: TaskRunner)
        ensures
            runner@ == (TaskRunnerView {
                flow: flow@,
                id: id@,
                pre_ctx: None,
                state: TaskStateView::Pass,
                stage_state: TaskStateView::Pass,
                phase: Phase::Idle,
                stage: 0,
                round: 0,
                row: 0,
                asked: 0,
                kept: Seq::empty(),
                exhausted: false,
                slots: Seq::empty(),
                start: 0,
                end: 0,
                deadline: 0,
            }),
            runner_ok(runner@),
    {
        flow.validity();
        let runner = TaskRunner {
            flow,
            id,
            pre_ctx: None,
            state: TaskState::Pass,
            stage_state: TaskState::Pass,
            phase: Phase::Idle,
            stage: 0,
            round: 0,
            row: 0,
            asked: 0,
            kept: Vec::new(),
            exhausted: false,
            slots: Vec::new(),
            start: 0,
            end: 0,
            deadline: 0,
        };
        proof {
            assert(kept_view(runner.kept@) =~= Seq::empty());
            assert(slots_view(runner.slots@) =~= Seq::empty());
        }
        runner
    }

    /// The task's identity.
    pub fn id(&self) -> (id: &TaskIdSimple)
        ensures
            id@ == self@.id,
    {
        &self.id
    }

    /// The plan.
    pub fn flow(&self) -> (flow: &Flow)
        ensures
            flow@ == self@.flow,
    {
        &self.flow
    }

    /// Where the task stands.
    pub fn phase(&self) -> (phase: Phase)
        ensures
            phase == self@.phase,
            runner_ok(self@),
    {
        proof {
            use_type_invariant(self);
        }
        self.phase
    }

    /// What has come of the task so far.
    pub fn state(&self) -> (state: &TaskState)
        ensures
            state@ == self@.state,
    {
        &self.state
    }

    /// The namespace that the factories of actions read: what the task knows
    /// before any case runs, with a row that is null.
    pub fn create_context(&self) -> (context: RenderContext)
        ensures
            context@ == row_context(self@.flow.def, self@.pre_ctx, JsonView::Null),
    {
        let def = match self.flow.def() {
            Some(d) => Some(d.clone()),
            None => None,
        };
        RenderContext::new(def, crate::flow::clone_json_option(&self.pre_ctx), Json::Null)
    }

    fn halt(self, e: ErrorStruct) -> (r: (TaskRunner, TaskAction))
        ensures
            (r.0@, r.1@) == halted(self@, e@),
    {
        proof {
            use_type_invariant(&self);
        }
        let next = TaskRunner {
            state: TaskState::Error(e.clone()),
            phase: Phase::Done,
            kept: Vec::new(),
            slots: Vec::new(),
            ..self
        };
        proof {
            assert(kept_view(next.kept@) =~= Seq::empty());
            assert(slots_view(next.slots@) =~= Seq::empty());
        }
        (next, TaskAction::Done { result: Err(e) })
    }

    fn end_at(self, state: TaskState, now: i64) -> (r: (TaskRunner, TaskAction))
        ensures
            (r.0@, r.1@) == ending(self@, state@, now as int),
    {
        proof {
            use_type_invariant(&self);
        }
        let assess = TaskAssessStruct::new(self.id.clone(), self.start, now, state.clone());
        let next = TaskRunner {
            state,
            phase: Phase::Ending,
            kept: Vec::new(),
            slots: Vec::new(),
            end: now,
            ..self
        };
        proof {
            assert(kept_view(next.kept@) =~= Seq::empty());
            assert(slots_view(next.slots@) =~= Seq::empty());
        }
        (next, TaskAction::End { assess })
    }

    fn enter(self, index: usize, now: i64) -> (r: (TaskRunner, TaskAction))
        ensures
            (r.0@, r.1@) == enter_stage(self@, index as nat, now as int),
    {
        proof {
            use_type_invariant(&self);
        }
        if index < self.flow.stage_count() {
            let stage = self.flow.stage(index);
            let step = clone_names(&stage.step);
            let until = deadline(now, stage.duration);
            let next = TaskRunner {
                phase: Phase::StageCreating,
                stage: index,
                round: 0,
                row: 0,
                asked: 0,
                stage_state: TaskState::Pass,
                kept: Vec::new(),
                slots: Vec::new(),
                exhausted: false,
                deadline: until,
                ..self
            };
            proof {
                assert(kept_view(next.kept@) =~= Seq::empty());
                assert(slots_view(next.slots@) =~= Seq::empty());
            }
            (next, TaskAction::Create { step })
        } else {
            let state = self.state.clone();
            self.end_at(state, now)
        }
    }

    fn leave(self, now: i64) -> (r: (TaskRunner, TaskAction))
        requires
            self@.stage < self@.flow.stage.len(),
        ensures
            (r.0@, r.1@) == leave_stage(self@, now as int),
    {
        proof {
            use_type_invariant(&self);
        }
        let failed = match self.stage_state {
            TaskState::Fail => true,
            _ => false,
        };
        let breaks = match self.flow.stage(self.stage).break_on {
            BreakOn::StageFail => true,
            BreakOn::Never => false,
        };
        if failed && breaks {
            let state = self.state.clone();
            self.end_at(state, now)
        } else {
            let count = self.flow.stage_count();
            assert(self.stage < count);
            let index = self.stage + 1;
            self.enter(index, now)
        }
    }

    fn pull_rows(self, now: i64) -> (r: (TaskRunner, TaskAction))
        requires
            self@.stage < self@.flow.stage.len(),
            self@.kept.len() < self@.flow.stage[self@.stage as int].concurrency,
        ensures
            (r.0@, r.1@) == pull(self@, now as int),
    {
        proof {
            use_type_invariant(&self);
        }
        if now >= self.deadline {
            self.leave(now)
        } else {
            let size = self.flow.stage(self.stage).concurrency - self.kept.len();
            let next = TaskRunner { phase: Phase::Loading, asked: size, ..self };
            (next, TaskAction::Load { size })
        }
    }

    fn start_round(self, now: i64) -> (r: (TaskRunner, TaskAction))
        requires
            self@.stage < self@.flow.stage.len(),
        ensures
            (r.0@, r.1@) == begin_round(self@, now as int),
    {
        proof {
            use_type_invariant(&self);
        }
        // The phase is set by the pull that follows.
        let fresh = TaskRunner {
            phase: Phase::Idle,
            row: 0,
            exhausted: false,
            kept: Vec::new(),
            slots: Vec::new(),
            ..self
        };
        proof {
            assert(kept_view(fresh.kept@) =~= Seq::empty());
            assert(slots_view(fresh.slots@) =~= Seq::empty());
            let a = TaskRunnerView { phase: self@.phase, ..fresh@ };
            assert(a == (TaskRunnerView {
                row: 0,
                exhausted: false,
                kept: Seq::empty(),
                slots: Seq::empty(),
                ..self@
            }));
            assert(pull(a, now as int) == pull(fresh@, now as int));
        }
        fresh.pull_rows(now)
    }

    fn finish_round(self) -> (r: (TaskRunner, TaskAction))
        requires
            self@.stage < self@.flow.stage.len(),
        ensures
            (r.0@, r.1@) == end_round(self@),
    {
        proof {
            use_type_invariant(&self);
        }
        let next = TaskRunner { phase: Phase::Resetting, kept: Vec::new(), slots: Vec::new(), ..self };
        proof {
            assert(kept_view(next.kept@) =~= Seq::empty());
            assert(slots_view(next.slots@) =~= Seq::empty());
        }
        (next, TaskAction::Reset)
    }
}

fn clone_names(names: &Vec<String>) -> (out: Vec<String>)
    ensures
        names_view(out@) == names_view(names@),
{
    let mut out: Vec<String> = Vec::new();
    let mut i: usize = 0;
    while i < names.len()
        invariant
            i <= names.len(),
            out.len() == i,
            forall|k: int| 0 <= k < i ==> out@[k]@ == names@[k]@,
        decreases names.len() - i,
    {
        out.push(names[i].clone());
        i += 1;
    }
    assert(names_view(out@) =~= names_view(names@));
    out
}

fn collect(slots: Vec<Option<CaseAssessStruct>>) -> (batch: Vec<CaseAssessStruct>)
    requires
        all_filled(slots_view(slots@)),
    ensures
        assesses_view(batch@) == filled(slots_view(slots@)),
{
    let ghost all = slots@;
    let mut slots = slots;
    let mut reversed: Vec<CaseAssessStruct> = Vec::new();
    proof {
        assert forall|k: int| 0 <= k < all.len() implies (#[trigger] all[k]) is Some by {
            assert(slots_view(all)[k] is Some);
        }
    }
    while slots.len() > 0
        invariant
            slots@.len() + reversed@.len() == all.len(),
            forall|k: int| 0 <= k < slots@.len() ==> slots@[k] == all[k],
            forall|k: int| 0 <= k < reversed@.len() ==> all[all.len() - 1 - k] == Some(reversed@[k]),
            forall|k: int| 0 <= k < all.len() ==> (#[trigger] all[k]) is Some,
        decreases slots.len(),
    {
        let ghost n = slots@.len();
        let last = slots.pop();
        assert(last == Some(all[n - 1]));
        match last {
            Some(Some(assess)) => {
                reversed.push(assess);
            },
            _ => {
                assert(false);
            },
        }
    }
    let mut batch: Vec<CaseAssessStruct> = Vec::new();
    let ghost turned = reversed@;
    while reversed.len() > 0
        invariant
            turned.len() == all.len(),
            reversed@.len() + batch@.len() == all.len(),
            forall|k: int| 0 <= k < reversed@.len() ==> reversed@[k] == turned[k],
            forall|k: int| 0 <= k < turned.len() ==> all[all.len() - 1 - k] == Some(turned[k]),
            forall|k: int| 0 <= k < batch@.len() ==> all[k] == Some(batch@[k]),
        decreases reversed.len(),
    {
        let ghost left = reversed@.len();
        match reversed.pop() {
            Some(assess) => {
                proof {
                    assert(assess == turned[left - 1]);
                    assert(all[all.len() - 1 - (left - 1)] == Some(turned[left - 1]));
                }
                batch.push(assess);
            },
            None => {
                assert(false);
            },
        }
    }
    proof {
        assert forall|k: int| 0 <= k < all.len() implies assesses_view(batch@)[k] == filled(
            slots_view(all),
        )[k] by {
            assert(all[k] == Some(batch@[k]));
            assert(slots_view(all)[k] == slot_view(all[k]));
        }
        assert(assesses_view(batch@) =~= filled(slots_view(all)));
    }
    batch
}

fn is_full(slots: &Vec<Option<CaseAssessStruct>>) -> (full: bool)
    ensures
        full == all_filled(slots_view(slots@)),
{
    let mut i: usize = 0;
    while i < slots.len()
        invariant
            i <= slots.len(),
            forall|k: int| 0 <= k < i ==> (#[trigger] slots_view(slots@)[k]) is Some,
        decreases slots.len() - i,
    {
        if slots[i].is_none() {
            assert(slots_view(slots@)[i as int] is None);
            return false;
        }
        assert(slots_view(slots@)[i as int] is Some);
        i += 1;
    }
    true
}

/// The state that a step asks for does not depend on the phase it starts
/// in, where the step sets the phase.
pub proof fn lemma_phase_is_set(a: TaskRunnerView, b: TaskRunnerView, now: int)
    requires
        a == (TaskRunnerView { phase: a.phase, ..b }),
    ensures
        pull(a, now) == pull(b, now),
        dispatch(a, now) == dispatch(b, now),
        leave_stage(a, now) == leave_stage(b, now),
        begin_round(a, now) == begin_round(b, now),
{
    let fresh_a = TaskRunnerView { row: 0, exhausted: false, kept: Seq::empty(), slots: Seq::empty(), ..a };
    let fresh_b = TaskRunnerView { row: 0, exhausted: false, kept: Seq::empty(), slots: Seq::empty(), ..b };
    assert(fresh_a == (TaskRunnerView { phase: a.phase, ..fresh_b }));
    assert(batch_cases(a) =~= batch_cases(b));
}

impl TaskRunner {
    fn dispatch_batch(self, now: i64) -> (r: (TaskRunner, TaskAction))
        requires
            self@.stage < self@.flow.stage.len(),
            self@.kept.len() <= self@.flow.stage[self@.stage as int].concurrency,
        ensures
            (r.0@, r.1@) == dispatch(self@, now as int),
    {
        proof {
            use_type_invariant(&self);
        }
        if self.kept.len() == 0 {
            self.finish_round()
        } else if now >= self.deadline {
            self.leave(now)
        } else {
            let stage = self.flow.stage(self.stage);
            let mut tag = stage.id.clone();
            tag.append("_");
            tag.append(decimal((self.round as u64).saturating_add(1)).as_str());
            let mut cases: Vec<CaseArgStruct> = Vec::new();
            let mut slots: Vec<Option<CaseAssessStruct>> = Vec::new();
            let ghost wanted = batch_cases(self@);
            let mut i: usize = 0;
            while i < self.kept.len()
                invariant
                    i <= self.kept.len(),
                    cases.len() == i,
                    slots.len() == i,
                    runner_ok(self@),
                    self@.stage < self@.flow.stage.len(),
                    self@.kept.len() <= self@.flow.stage[self@.stage as int].concurrency,
                    self@.deadline == self.deadline,
                    stage@ == self@.flow.stage[self@.stage as int],
                    crate::flow::all_steps_known(self@.flow.step, stage@.step),
                    tag@ == round_tag(stage@.id, self@.round),
                    wanted == batch_cases(self@),
                    self@.kept == kept_view(self.kept@),
                    self@.flow == self.flow@,
                    self@.id == self.id@,
                    self@.pre_ctx == json_option_view(self.pre_ctx),
                    forall|k: int| 0 <= k < i ==> cases@[k]@ == wanted[k],
                    forall|k: int| 0 <= k < i ==> slots@[k] is None,
                decreases self.kept.len() - i,
            {
                let made = CaseArgStruct::new(
                    &self.flow,
                    &stage.step,
                    self.kept[i].1.clone(),
                    crate::flow::clone_json_option(&self.pre_ctx),
                    self.id.clone(),
                    decimal(self.kept[i].0),
                    tag.clone(),
                );
                proof {
                    assert forall|k: int| 0 <= k < stage@.step.len() implies first_step(
                        self@.flow.step,
                        #[trigger] stage@.step[k],
                    ) is Some by {
                        assert(crate::flow::has_step(self@.flow.step, stage@.step[k]));
                    }
                }
                match made {
                    Ok(case) => {
                        proof {
                            assert(case@.step =~= resolve(self@.flow, stage@.step));
                            assert(self@.kept[i as int] == (self.kept@[i as int].0 as nat, self.kept@[i as int].1@));
                            assert(case@ == wanted[i as int]);
                        }
                        cases.push(case);
                    },
                    Err(_) => {
                        assert(false);
                    },
                }
                slots.push(None);
                i += 1;
            }
            let ghost before = self@;
            let none: Vec<(u64, Json)> = Vec::new();
            proof {
                assert(kept_view(none@) =~= Seq::empty());
                assert(slots_view(slots@) =~= Seq::new(before.kept.len(), |i: int| None));
                assert(cases_view(cases@) =~= wanted);
                assert(slots_view(slots@)[0] is None);
                assert(!all_filled(slots_view(slots@)));
            }
            let next = TaskRunner { phase: Phase::Running, slots, kept: none, ..self };
            (next, TaskAction::RunBatch { cases })
        }
    }

    fn on_loaded(self, rows: Vec<Json>, now: i64) -> (r: (TaskRunner, TaskAction))
        requires
            self@.phase == Phase::Loading,
        ensures
            (r.0@, r.1@) == loaded(self@, rows_view(rows@), now as int),
    {
        proof {
            use_type_invariant(&self);
        }
        if rows.len() > self.asked {
            self.end_at(TaskState::Error(ErrorStruct::new("013", "more rows than asked for")), now)
        } else if self.row == 0 && rows.len() == 0 {
            self.end_at(TaskState::Error(ErrorStruct::new("011", "no case provided")), now)
        } else {
            let ghost before = self@;
            let TaskRunner {
                flow,
                id,
                pre_ctx,
                state,
                stage_state,
                phase,
                stage,
                round,
                row,
                asked,
                kept,
                exhausted,
                slots,
                start,
                end,
                deadline,
            } = self;
            let width = flow.stage(stage).concurrency;
            let kept = keep_rows(kept, &flow.stage(stage).case_filter, flow.def(), &pre_ctx, &rows, row);
            proof {
                lemma_kept_rows(
                    before.flow.stage[before.stage as int].case_filter,
                    before.flow.def,
                    before.pre_ctx,
                    rows_view(rows@),
                    before.row,
                );
            }
            let exhausted = rows.len() < asked;
            let full = kept.len() >= width;
            let next = TaskRunner {
                flow,
                id,
                pre_ctx,
                state,
                stage_state,
                // The phase is set by what follows.
                phase: Phase::Idle,
                stage,
                round,
                row: row.saturating_add(rows.len() as u64),
                asked,
                kept,
                exhausted,
                slots,
                start,
                end,
                deadline,
            };
            proof {
                let t = TaskRunnerView {
                    kept: before.kept + kept_rows(
                        before.flow.stage[before.stage as int].case_filter,
                        before.flow.def,
                        before.pre_ctx,
                        rows_view(rows@),
                        before.row,
                    ),
                    row: capped(before.row + rows_view(rows@).len()),
                    exhausted: rows_view(rows@).len() < before.asked,
                    ..before
                };
                assert(next@ == (TaskRunnerView { phase: Phase::Idle, ..t }));
                lemma_phase_is_set(next@, t, now as int);
            }
            if full || exhausted {
                next.dispatch_batch(now)
            } else {
                next.pull_rows(now)
            }
        }
    }

    fn on_case_done(self, slot: usize, assess: CaseAssessStruct) -> (r: (TaskRunner, TaskAction))
        requires
            self@.phase == Phase::Running,
        ensures
            (r.0@, r.1@) == case_done(self@, slot as nat, assess@),
    {
        proof {
            use_type_invariant(&self);
        }
        if slot < self.slots.len() && self.slots[slot].is_none() {
            let ghost before = self@;
            assert(before.slots[slot as int] == slot_view(self.slots@[slot as int]));
            let TaskRunner {
                flow,
                id,
                pre_ctx,
                state,
                stage_state,
                phase,
                stage,
                round,
                row,
                asked,
                kept,
                exhausted,
                slots,
                start,
                end,
                deadline,
            } = self;
            let mut slots = slots;
            slots.set(slot, Some(assess));
            proof {
                assert(slots_view(slots@) =~= before.slots.update(slot as int, Some(assess@)));
            }
            if is_full(&slots) {
                let batch = collect(slots);
                let (stage_state, state) = fold_batch(stage_state, state, &batch);
                let stage_id = flow.stage(stage).id.clone();
                let next = TaskRunner {
                    flow,
                    id,
                    pre_ctx,
                    state,
                    stage_state,
                    phase: Phase::Reporting,
                    stage,
                    round,
                    row,
                    asked,
                    kept,
                    exhausted,
                    slots: Vec::new(),
                    start,
                    end,
                    deadline,
                };
                proof {
                    assert(slots_view(next.slots@) =~= Seq::empty());
                }
                (next, TaskAction::Report { stage_id, batch })
            } else {
                let next = TaskRunner {
                    flow,
                    id,
                    pre_ctx,
                    state,
                    stage_state,
                    phase,
                    stage,
                    round,
                    row,
                    asked,
                    kept,
                    exhausted,
                    slots,
                    start,
                    end,
                    deadline,
                };
                (next, TaskAction::Wait)
            }
        } else {
            proof {
                if slot < self.slots.len() {
                    assert(self@.slots[slot as int] == slot_view(self.slots@[slot as int]));
                }
            }
            (self, TaskAction::Wait)
        }
    }

    fn on_pre_done(self, slot: usize, assess: CaseAssessStruct) -> (r: (TaskRunner, TaskAction))
        requires
            self@.phase == Phase::PreRunning,
        ensures
            (r.0@, r.1@) == pre_done(self@, slot as nat, assess@),
    {
        proof {
            use_type_invariant(&self);
        }
        if slot == 0 && self.slots.len() == 1 && self.slots[0].is_none() {
            assert(self@.slots[0] == slot_view(self.slots@[0]));
            match assess.state() {
                CaseState::Pass(records) => match passed(records) {
                    Some(values) => {
                        let mut members: Vec<(String, Json)> = Vec::new();
                        let member = ("step".to_owned(), Json::Object(crate::render::step_members(&values)));
                        proof {
                            lemma_members_push(members@, member);
                        }
                        members.push(member);
                        let next = TaskRunner {
                            pre_ctx: Some(Json::Object(members)),
                            phase: Phase::Starting,
                            slots: Vec::new(),
                            ..self
                        };
                        proof {
                            assert(slots_view(next.slots@) =~= Seq::empty());
                        }
                        (next, TaskAction::Start)
                    },
                    None => self.halt(ErrorStruct::new("012", "pre step run failure")),
                },
                CaseState::Fail(records) => {
                    let mut message = "pre Fail : ".to_owned();
                    let n = records.len();
                    if n > 0 {
                        message.append(records[n - 1].id().to_string().as_str());
                        assert(crate::case::records_view(records@).last() == records@[n - 1]@);
                    } else {
                        assert(message@ =~= "pre Fail : "@ + Seq::<char>::empty());
                    }
                    self.halt(ErrorStruct::new("020", message.as_str()))
                },
                CaseState::Error(e) => {
                    let mut message = "pre Err  : ".to_owned();
                    message.append(e.to_string().as_str());
                    self.halt(ErrorStruct::new("021", message.as_str()))
                },
            }
        } else {
            proof {
                if self.slots.len() == 1 {
                    assert(self@.slots[0] == slot_view(self.slots@[0]));
                }
            }
            (self, TaskAction::Wait)
        }
    }

    fn on_reset(self, now: i64) -> (r: (TaskRunner, TaskAction))
        requires
            self@.phase == Phase::Resetting,
        ensures
            (r.0@, r.1@) == reset_done(self@, now as int),
    {
        proof {
            use_type_invariant(&self);
        }
        let round = if self.round < usize::MAX {
            self.round + 1
        } else {
            usize::MAX
        };
        let rounds = self.flow.stage(self.stage).round;
        let ghost before = self@;
        // The phase is set by what follows.
        let next = TaskRunner { round, phase: Phase::Idle, ..self };
        proof {
            let t = TaskRunnerView { round: capped_size(before.round + 1), ..before };
            assert(next@ == (TaskRunnerView { phase: Phase::Idle, ..t }));
            lemma_phase_is_set(next@, t, now as int);
        }
        if rounds > 0 && round >= rounds {
            next.leave(now)
        } else {
            next.start_round(now)
        }
    }

    /// Tells the runner of an event that happened at `now`, in milliseconds
    /// since the epoch. The runner moves on and says what is to be done
    /// next.
    pub fn run(self, event: TaskEvent, now: i64) -> (r: (TaskRunner, TaskAction))
        ensures
            (r.0@, r.1@) == task_step(self@, event@, now as int),
            runner_ok(self@),
            runner_ok(r.0@),
    {
        proof {
            use_type_invariant(&self);
        }
        let r = match (self.phase, event) {
            (Phase::Idle, TaskEvent::Begin) => {
                match self.flow.pre_step_id_vec() {
                    Some(names) => {
                        let step = clone_names(names);
                        (TaskRunner { phase: Phase::PreCreating, start: now, ..self }, TaskAction::Create { step })
                    },
                    None => (TaskRunner { phase: Phase::Starting, start: now, ..self }, TaskAction::Start),
                }
            },
            (Phase::PreCreating, TaskEvent::Created(Ok(_))) => self.start_pre(),
            (Phase::PreCreating, TaskEvent::Created(Err(e))) => self.halt(e),
            (Phase::PreRunning, TaskEvent::CaseDone { slot, assess }) => self.on_pre_done(slot, assess),
            (Phase::Starting, TaskEvent::Acknowledged(Ok(_))) => self.enter(0, now),
            (Phase::Starting, TaskEvent::Acknowledged(Err(e))) => self.halt(e),
            (Phase::StageCreating, TaskEvent::Created(Ok(_))) => self.start_round(now),
            (Phase::StageCreating, TaskEvent::Created(Err(e))) => self.end_at(TaskState::Error(e), now),
            (Phase::Loading, TaskEvent::Loaded(Ok(rows))) => self.on_loaded(rows, now),
            (Phase::Loading, TaskEvent::Loaded(Err(e))) => self.end_at(TaskState::Error(e), now),
            (Phase::Running, TaskEvent::CaseDone { slot, assess }) => self.on_case_done(slot, assess),
            (Phase::Reporting, TaskEvent::Acknowledged(Ok(_))) => {
                if self.exhausted {
                    self.finish_round()
                } else {
                    self.pull_rows(now)
                }
            },
            (Phase::Reporting, TaskEvent::Acknowledged(Err(e))) => self.end_at(TaskState::Error(e), now),
            (Phase::Resetting, TaskEvent::Acknowledged(Ok(_))) => self.on_reset(now),
            (Phase::Resetting, TaskEvent::Acknowledged(Err(e))) => self.end_at(TaskState::Error(e), now),
            (Phase::Ending, TaskEvent::Acknowledged(Ok(_))) => {
                let assess = TaskAssessStruct::new(self.id.clone(), self.start, self.end, self.state.clone());
                (TaskRunner { phase: Phase::Done, ..self }, TaskAction::Done { result: Ok(assess) })
            },
            (Phase::Ending, TaskEvent::Acknowledged(Err(e))) => self.halt(e),
            _ => (self, TaskAction::Wait),
        };
        proof {
            use_type_invariant(&r.0);
        }
        r
    }

    fn start_pre(self) -> (r: (TaskRunner, TaskAction))
        requires
            self@.phase == Phase::PreCreating,
        ensures
            (r.0@, r.1@) == (
                TaskRunnerView { phase: Phase::PreRunning, slots: seq![None], ..self@ },
                TaskActionView::RunBatch { cases: seq![pre_case(self@)] },
            ),
    {
        proof {
            use_type_invariant(&self);
        }
        let mut cases: Vec<CaseArgStruct> = Vec::new();
        match self.flow.pre_step_id_vec() {
            Some(names) => {
                let made = CaseArgStruct::new(
                    &self.flow,
                    names,
                    Json::Null,
                    None,
                    self.id.clone(),
                    "0".to_owned(),
                    "pre".to_owned(),
                );
                proof {
                    let wanted = self@.flow.pre->Some_0;
                    assert forall|k: int| 0 <= k < wanted.len() implies first_step(
                        self@.flow.step,
                        #[trigger] wanted[k],
                    ) is Some by {
                        assert(crate::flow::has_step(self@.flow.step, wanted[k]));
                    }
                }
                match made {
                    Ok(case) => {
                        proof {
                            assert(case@.step =~= resolve(self@.flow, self@.flow.pre->Some_0));
                            assert(case@ == pre_case(self@));
                        }
                        cases.push(case);
                    },
                    Err(_) => {
                        assert(false);
                    },
                }
            },
            None => {
                assert(false);
            },
        }
        let mut slots: Vec<Option<CaseAssessStruct>> = Vec::new();
        slots.push(None);
        let next = TaskRunner { phase: Phase::PreRunning, slots, ..self };
        proof {
            assert(slots_view(next.slots@) =~= seq![None]);
            assert(cases_view(cases@) =~= seq![pre_case(self@)]);
        }
        (next, TaskAction::RunBatch { cases })
    }
}

} // verus!
