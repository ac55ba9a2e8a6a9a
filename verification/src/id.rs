//! The identities of tasks, cases and steps.

use vstd::prelude::*;

verus! {

/// The identity of a task: the execution it belongs to and its name.
#[derive(Debug)]
pub struct TaskIdSimple {
    exec_id: String,
    task_id: String,
}

/// The mathematical content of a [`TaskIdSimple`].
pub struct TaskIdView {
    pub exec_id: Seq<char>,
    pub task_id: Seq<char>,
}

/// The text of a task's identity: `<execution>-<name>`.
pub open spec fn task_id_text(id: TaskIdView) -> Seq<char> {
    id.exec_id + "-"@ + id.task_id
}

impl View for TaskIdSimple {
    type V = TaskIdView;

    closed spec fn view(&self) -> TaskIdView {
        TaskIdView { exec_id: self.exec_id@, task_id: self.task_id@ }
    }
}

impl TaskIdSimple {
    pub fn new(exec_id: String, task_id: String) -> (id: TaskIdSimple)
        ensures
            id@ == (TaskIdView { exec_id: exec_id@, task_id: task_id@ }),
    {
        TaskIdSimple { exec_id, task_id }
    }

    /// The execution that the task belongs to.
    pub fn exec_id(&self) -> (s: &str)
        ensures
            s@ == self@.exec_id,
    {
        self.exec_id.as_str()
    }

    /// The task's name.
    pub fn task_id(&self) -> (s: &str)
        ensures
            s@ == self@.task_id,
    {
        self.task_id.as_str()
    }

    /// The identity as text.
    pub fn to_string(&self) -> (text: String)
        ensures
            text@ == task_id_text(self@),
    {
        let mut text = self.exec_id.clone();
        text.append("-");
        text.append(self.task_id.as_str());
        text
    }
}

impl Clone for TaskIdSimple {
    fn clone(&self) -> (id: TaskIdSimple)
        ensures
            id@ == self@,
    {
        TaskIdSimple { exec_id: self.exec_id.clone(), task_id: self.task_id.clone() }
    }
}

/// What identifies a case.
pub trait CaseId {
    /// The row that the case runs on.
    fn case(&self) -> &str;

    /// The stage and round in which the case runs.
    fn exec_id(&self) -> &str;

    /// The task that the case belongs to.
    fn task_id(&self) -> &TaskIdSimple;
}

/// The identity of a case: its task, the stage and round in which it runs,
/// and its row.
#[derive(Debug)]
pub struct CaseIdStruct {
    task_id: TaskIdSimple,
    exec_id: String,
    case: String,
}

/// The mathematical content of a [`CaseIdStruct`].
pub struct CaseIdView {
    pub task_id: TaskIdView,
    pub exec_id: Seq<char>,
    pub case: Seq<char>,
}

/// The text of a case's identity: `<task>-<stage and round>-<row>`.
pub open spec fn case_id_text(id: CaseIdView) -> Seq<char> {
    task_id_text(id.task_id) + "-"@ + id.exec_id + "-"@ + id.case
}

impl View for CaseIdStruct {
    type V = CaseIdView;

    closed spec fn view(&self) -> CaseIdView {
        CaseIdView { task_id: self.task_id@, exec_id: self.exec_id@, case: self.case@ }
    }
}

impl CaseIdStruct {
    pub fn new(task_id: TaskIdSimple, case_id: String, exec_id: String) -> (id: CaseIdStruct)
        ensures
            id@ == (CaseIdView { task_id: task_id@, exec_id: exec_id@, case: case_id@ }),
    {
        CaseIdStruct { task_id, exec_id, case: case_id }
    }

    /// The identity as text.
    pub fn to_string(&self) -> (text: String)
        ensures
            text@ == case_id_text(self@),
    {
        let mut text = self.task_id.to_string();
        text.append("-");
        text.append(self.exec_id.as_str());
        text.append("-");
        text.append(self.case.as_str());
        text
    }
}

impl CaseId for CaseIdStruct {
    fn case(&self) -> (s: &str)
        ensures
            s@ == self@.case,
    {
        self.case.as_str()
    }

    fn exec_id(&self) -> (s: &str)
        ensures
            s@ == self@.exec_id,
    {
        self.exec_id.as_str()
    }

    fn task_id(&self) -> (id: &TaskIdSimple)
        ensures
            id@ == self@.task_id,
    {
        &self.task_id
    }
}

impl Clone for CaseIdStruct {
    fn clone(&self) -> (id: CaseIdStruct)
        ensures
            id@ == self@,
    {
        CaseIdStruct {
            task_id: self.task_id.clone(),
            exec_id: self.exec_id.clone(),
            case: self.case.clone(),
        }
    }
}

/// The identity of a step: the case it runs in and its name.
#[derive(Debug)]
pub struct StepIdStruct {
    step: String,
    case_id: CaseIdStruct,
}

/// The mathematical content of a [`StepIdStruct`].
pub struct StepIdView {
    pub step: Seq<char>,
    pub case_id: CaseIdView,
}

/// The text of a step's identity: `<case>-<step>`.
pub open spec fn step_id_text(id: StepIdView) -> Seq<char> {
    case_id_text(id.case_id) + "-"@ + id.step
}

impl View for StepIdStruct {
    type V = StepIdView;

    closed spec fn view(&self) -> StepIdView {
        StepIdView { step: self.step@, case_id: self.case_id@ }
    }
}

impl StepIdStruct {
    pub fn new(case_id: CaseIdStruct, step: String) -> (id: StepIdStruct)
        ensures
            id@ == (StepIdView { step: step@, case_id: case_id@ }),
    {
        StepIdStruct { step, case_id }
    }

    /// The step's name.
    pub fn step(&self) -> (s: &str)
        ensures
            s@ == self@.step,
    {
        self.step.as_str()
    }

    /// The case that the step runs in.
    pub fn case_id(&self) -> (id: &CaseIdStruct)
        ensures
            id@ == self@.case_id,
    {
        &self.case_id
    }

    /// The identity as text.
    pub fn to_string(&self) -> (text: String)
        ensures
            text@ == step_id_text(self@),
    {
        let mut text = self.case_id.to_string();
        text.append("-");
        text.append(self.step.as_str());
        text
    }
}

impl Clone for StepIdStruct {
    fn clone(&self) -> (id: StepIdStruct)
        ensures
            id@ == self@,
    {
        StepIdStruct { step: self.step.clone(), case_id: self.case_id.clone() }
    }
}

} // verus!
