//! The task: what comes of it, and the events and actions through which it
//! is run.

use vstd::prelude::*;
use crate::case::CaseArgStruct;
use crate::case::CaseArgView;
use crate::case::CaseAssessStruct;
use crate::case::CaseAssessView;
use crate::error::ErrorStruct;
use crate::error::ErrorView;
use crate::id::TaskIdSimple;
use crate::id::TaskIdView;
use crate::value::Json;
use crate::value::JsonView;

verus! {

/// What came of a task, or of one of its stages.
#[derive(Debug)]
pub enum TaskState {
    /// Every case passed.
    Pass,
    /// A case did not pass.
    Fail,
    /// An error ended the task.
    Error(ErrorStruct),
}

/// The mathematical content of a [`TaskState`].
pub enum TaskStateView {
    Pass,
    Fail,
    Error(ErrorView),
}

impl View for TaskState {
    type V = TaskStateView;

    open spec fn view(&self) -> TaskStateView {
        match self {
            TaskState::Pass => TaskStateView::Pass,
            TaskState::Fail => TaskStateView::Fail,
            TaskState::Error(e) => TaskStateView::Error(e@),
        }
    }
}

impl TaskState {
    pub fn is_ok(&self) -> (b: bool)
        ensures
            b == (self@ is Pass),
    {
        match self {
            TaskState::Pass => true,
            _ => false,
        }
    }
}

impl Clone for TaskState {
    fn clone(&self) -> (s: TaskState)
        ensures
            s@ == self@,
    {
        match self {
            TaskState::Pass => TaskState::Pass,
            TaskState::Fail => TaskState::Fail,
            TaskState::Error(e) => TaskState::Error(e.clone()),
        }
    }
}

/// The record of a task: which, when, and what came of it.
#[derive(Debug)]
pub struct TaskAssessStruct {
    id: TaskIdSimple,
    start: i64,
    end: i64,
    state: TaskState,
}

/// The mathematical content of a [`TaskAssessStruct`].
pub struct TaskAssessView {
    pub id: TaskIdView,
    pub start: int,
    pub end: int,
    pub state: TaskStateView,
}

impl View for TaskAssessStruct {
    type V = TaskAssessView;

    closed spec fn view(&self) -> TaskAssessView {
        TaskAssessView { id: self.id@, start: self.start as int, end: self.end as int, state: self.state@ }
    }
}

impl TaskAssessStruct {
    /// The record of a task that ran from `start` to `end`, both in
    /// milliseconds since the epoch.
    pub fn new(id: TaskIdSimple, start: i64, end: i64, state: TaskState) -> (a: TaskAssessStruct)
        ensures
            a@ == (TaskAssessView { id: id@, start: start as int, end: end as int, state: state@ }),
    {
        TaskAssessStruct { id, start, end, state }
    }

    pub fn id(&self) -> (id: &TaskIdSimple)
        ensures
            id@ == self@.id,
    {
        &self.id
    }

    pub fn start(&self) -> (t: i64)
        ensures
            t == self@.start,
    {
        self.start
    }

    pub fn end(&self) -> (t: i64)
        ensures
            t == self@.end,
    {
        self.end
    }

    pub fn state(&self) -> (state: &TaskState)
        ensures
            state@ == self@.state,
    {
        &self.state
    }
}

impl Clone for TaskAssessStruct {
    fn clone(&self) -> (a: TaskAssessStruct)
        ensures
            a@ == self@,
    {
        TaskAssessStruct { id: self.id.clone(), start: self.start, end: self.end, state: self.state.clone() }
    }
}

/// What the world tells a task runner.
#[derive(Debug)]
pub enum TaskEvent {
    /// The task is to begin.
    Begin,
    /// The actions that were asked for have been made, or could not be.
    Created(Result<(), ErrorStruct>),
    /// The report sink or the data source has done what was asked, or could
    /// not.
    Acknowledged(Result<(), ErrorStruct>),
    /// The data source has handed out rows, or could not.
    Loaded(Result<Vec<Json>, ErrorStruct>),
    /// The case in a slot of the batch that is running has finished.
    CaseDone { slot: usize, assess: CaseAssessStruct },
}

/// What a task runner asks of the world.
#[derive(Debug)]
pub enum TaskAction {
    /// Make the actions of these steps.
    Create { step: Vec<String> },
    /// Tell the report sink that the task starts.
    Start,
    /// Pull up to `size` rows from the data source.
    Load { size: usize },
    /// Run these cases, all at the same time, and tell of each as it
    /// finishes, by its position in the list.
    RunBatch { cases: Vec<CaseArgStruct> },
    /// Nothing: go on waiting for what is under way.
    Wait,
    /// Hand the report sink the records of a batch of a stage.
    Report { stage_id: String, batch: Vec<CaseAssessStruct> },
    /// Rewind the data source.
    Reset,
    /// Tell the report sink what came of the task.
    End { assess: TaskAssessStruct },
    /// The task is over: its record, or the error that kept it from one.
    Done { result: Result<TaskAssessStruct, ErrorStruct> },
}

/// The mathematical content of a [`TaskEvent`].
pub enum TaskEventView {
    Begin,
    Created(Result<(), ErrorView>),
    Acknowledged(Result<(), ErrorView>),
    Loaded(Result<Seq<JsonView>, ErrorView>),
    CaseDone { slot: nat, assess: CaseAssessView },
}

/// The mathematical content of a [`TaskAction`].
pub enum TaskActionView {
    Create { step: Seq<Seq<char>> },
    Start,
    Load { size: nat },
    RunBatch { cases: Seq<CaseArgView> },
    Wait,
    Report { stage_id: Seq<char>, batch: Seq<CaseAssessView> },
    Reset,
    End { assess: TaskAssessView },
    Done { result: Result<TaskAssessView, ErrorView> },
}

/// The contents of a list of rows.
pub open spec fn rows_view(rows: Seq<Json>) -> Seq<JsonView> {
    Seq::new(rows.len(), |i: int| rows[i]@)
}

/// The contents of a list of case records.
pub open spec fn assesses_view(batch: Seq<CaseAssessStruct>) -> Seq<CaseAssessView> {
    Seq::new(batch.len(), |i: int| batch[i]@)
}

/// The contents of a list of cases.
pub open spec fn cases_view(cases: Seq<CaseArgStruct>) -> Seq<CaseArgView> {
    Seq::new(cases.len(), |i: int| cases[i]@)
}

/// The content of an answer without a value.
pub open spec fn answer_view(r: Result<(), ErrorStruct>) -> Result<(), ErrorView> {
    match r {
        Ok(_) => Ok(()),
        Err(e) => Err(e@),
    }
}

impl View for TaskEvent {
    type V = TaskEventView;

    open spec fn view(&self) -> TaskEventView {
        match self {
            TaskEvent::Begin => TaskEventView::Begin,
            TaskEvent::Created(r) => TaskEventView::Created(answer_view(*r)),
            TaskEvent::Acknowledged(r) => TaskEventView::Acknowledged(answer_view(*r)),
            TaskEvent::Loaded(Ok(rows)) => TaskEventView::Loaded(Ok(rows_view(rows@))),
            TaskEvent::Loaded(Err(e)) => TaskEventView::Loaded(Err(e@)),
            TaskEvent::CaseDone { slot, assess } => TaskEventView::CaseDone {
                slot: *slot as nat,
                assess: assess@,
            },
        }
    }
}

impl View for TaskAction {
    type V = TaskActionView;

    open spec fn view(&self) -> TaskActionView {
        match self {
            TaskAction::Create { step } => TaskActionView::Create { step: crate::flow::names_view(step@) },
            TaskAction::Start => TaskActionView::Start,
            TaskAction::Load { size } => TaskActionView::Load { size: *size as nat },
            TaskAction::RunBatch { cases } => TaskActionView::RunBatch { cases: cases_view(cases@) },
            TaskAction::Wait => TaskActionView::Wait,
            TaskAction::Report { stage_id, batch } => TaskActionView::Report {
                stage_id: stage_id@,
                batch: assesses_view(batch@),
            },
            TaskAction::Reset => TaskActionView::Reset,
            TaskAction::End { assess } => TaskActionView::End { assess: assess@ },
            TaskAction::Done { result: Ok(assess) } => TaskActionView::Done { result: Ok(assess@) },
            TaskAction::Done { result: Err(e) } => TaskActionView::Done { result: Err(e@) },
        }
    }
}

/// What came of a task, given how running it ended: the state of its
/// record, or the error that kept it from one.
pub open spec fn outcome_of(result: Result<TaskAssessView, ErrorView>) -> TaskStateView {
    match result {
        Ok(assess) => assess.state,
        Err(e) => TaskStateView::Error(e),
    }
}

/// What came of a task, given how running it ended.
pub fn outcome(result: Result<TaskAssessStruct, ErrorStruct>) -> (state: TaskState)
    ensures
        state@ == outcome_of(
            match result {
                Ok(assess) => Ok(assess@),
                Err(e) => Err(e@),
            },
        ),
{
    match result {
        Ok(assess) => assess.state,
        Err(e) => TaskState::Error(e),
    }
}

/// The contents of a list of task states.
pub open spec fn states_view(states: Seq<TaskState>) -> Seq<TaskStateView> {
    Seq::new(states.len(), |i: int| states[i]@)
}

/// The last task of a job that did not pass, if any did not.
pub open spec fn last_failure(states: Seq<TaskStateView>) -> Option<TaskStateView>
    decreases states.len(),
{
    if states.len() == 0 {
        None
    } else if !(states.last() is Pass) {
        Some(states.last())
    } else {
        last_failure(states.drop_last())
    }
}

/// The error of a job one of whose tasks failed.
pub open spec fn task_fail_error() -> ErrorView {
    ErrorView { code: "task"@, message: "fail"@, cause: None }
}

/// What a job ends in, given what came of its tasks: the job succeeds where
/// every task passed; else it ends in the error of the last task that did
/// not pass, or in the error `task` where that task failed.
pub fn job_result(states: &Vec<TaskState>) -> (r: Result<(), ErrorStruct>)
    ensures
        match last_failure(states_view(states@)) {
            None => r is Ok,
            Some(TaskStateView::Error(e)) => r is Err && r->Err_0@ == e,
            Some(_) => r is Err && r->Err_0@ == task_fail_error(),
        },
{
    let ghost all = states_view(states@);
    let mut i: usize = states.len();
    proof {
        assert(all.take(i as int) =~= all);
    }
    while i > 0
        invariant
            i <= states.len(),
            all == states_view(states@),
            last_failure(all) == last_failure(all.take(i as int)),
        decreases i,
    {
        proof {
            let now = all.take(i as int);
            assert(now.drop_last() =~= all.take(i as int - 1));
            assert(now.last() == states@[i as int - 1]@);
        }
        i -= 1;
        match &states[i] {
            TaskState::Pass => {},
            TaskState::Fail => {
                return Err(ErrorStruct::new("task", "fail"));
            },
            TaskState::Error(e) => {
                return Err(e.clone());
            },
        }
    }
    Ok(())
}

/// Whether a task of a job is to run: every task is where no tasks are
/// chosen, else the tasks that are chosen.
pub open spec fn chosen(chosen: Option<Seq<Seq<char>>>, name: Seq<char>) -> bool {
    match chosen {
        Some(names) => names.contains(name),
        None => true,
    }
}

/// Whether a task of a job is to run.
pub fn is_chosen(task_vec: &Option<Vec<String>>, name: &str) -> (b: bool)
    ensures
        b == chosen(crate::flow::names_option_view(*task_vec), name@),
{
    match task_vec {
        None => true,
        Some(names) => {
            let ghost all = crate::flow::names_view(names@);
            let mut i: usize = 0;
            while i < names.len()
                invariant
                    i <= names.len(),
                    all == crate::flow::names_view(names@),
                    crate::flow::names_option_view(*task_vec) == Some(all),
                    forall|k: int| 0 <= k < i ==> all[k] != name@,
                decreases names.len() - i,
            {
                assert(all[i as int] == names@[i as int]@);
                if crate::text::str_eq(names[i].as_str(), name) {
                    assert(all.contains(name@));
                    return true;
                }
                i += 1;
            }
            false
        },
    }
}

} // verus!
