//! One case: the steps of a stage, run in order on one row, each step
//! reading what the steps before it returned.

use vstd::prelude::*;
use crate::error::ErrorStruct;
use crate::error::ErrorView;
use crate::flow::clone_json_option;
use crate::flow::first_step;
use crate::flow::json_option_view;
use crate::flow::names_view;
use crate::flow::steps_view;
use crate::flow::Flow;
use crate::flow::FlowView;
use crate::flow::Step;
use crate::flow::StepView;
use crate::id::CaseIdStruct;
use crate::id::CaseIdView;
use crate::id::StepIdView;
use crate::id::TaskIdSimple;
use crate::render::RenderContext;
use crate::render::RenderContextView;
use crate::step::step_state;
use crate::step::Invocation;
use crate::step::RunArgStruct;
use crate::step::StepAssessStruct;
use crate::step::StepAssessView;
use crate::step::StepState;
use crate::step::StepStateView;
use crate::value::Json;
use crate::value::JsonView;

verus! {

/// What came of a case.
#[derive(Debug)]
pub enum CaseState {
    /// Every step passed; the records of the steps, in order.
    Pass(Vec<StepAssessStruct>),
    /// A step failed; the records of the steps up to and including it.
    Fail(Vec<StepAssessStruct>),
    /// A step ended in an error; that error.
    Error(ErrorStruct),
}

/// The mathematical content of a [`CaseState`].
pub enum CaseStateView {
    Pass(Seq<StepAssessView>),
    Fail(Seq<StepAssessView>),
    Error(ErrorView),
}

/// The contents of a list of step records.
pub open spec fn records_view(records: Seq<StepAssessStruct>) -> Seq<StepAssessView> {
    Seq::new(records.len(), |i: int| records[i]@)
}

impl View for CaseState {
    type V = CaseStateView;

    open spec fn view(&self) -> CaseStateView {
        match self {
            CaseState::Pass(records) => CaseStateView::Pass(records_view(records@)),
            CaseState::Fail(records) => CaseStateView::Fail(records_view(records@)),
            CaseState::Error(e) => CaseStateView::Error(e@),
        }
    }
}

impl CaseState {
    pub fn is_ok(&self) -> (b: bool)
        ensures
            b == (self@ is Pass),
    {
        match self {
            CaseState::Pass(_) => true,
            _ => false,
        }
    }
}

/// The record of one case: which, when, on what row, and what came of it.
#[derive(Debug)]
pub struct CaseAssessStruct {
    id: CaseIdStruct,
    start: i64,
    end: i64,
    data: Json,
    state: CaseState,
}

/// The mathematical content of a [`CaseAssessStruct`].
pub struct CaseAssessView {
    pub id: CaseIdView,
    pub start: int,
    pub end: int,
    pub data: JsonView,
    pub state: CaseStateView,
}

impl View for CaseAssessStruct {
    type V = CaseAssessView;

    closed spec fn view(&self) -> CaseAssessView {
        CaseAssessView {
            id: self.id@,
            start: self.start as int,
            end: self.end as int,
            data: self.data@,
            state: self.state@,
        }
    }
}

impl CaseAssessStruct {
    /// The record of a case that ran from `start` to `end`, both in
    /// milliseconds since the epoch.
    pub fn new(id: CaseIdStruct, start: i64, end: i64, data: Json, state: CaseState) -> (a: CaseAssessStruct)
        ensures
            a@ == (CaseAssessView {
                id: id@,
                start: start as int,
                end: end as int,
                data: data@,
                state: state@,
            }),
    {
        CaseAssessStruct { id, start, end, data, state }
    }

    pub fn id(&self) -> (id: &CaseIdStruct)
        ensures
            id@ == self@.id,
    {
        &self.id
    }

    pub fn start(&self) -> (t: i64)
        ensures
            t == self@.start,
    {
        self.start
    }

    pub fn end(&self) -> (t: i64)
        ensures
            t == self@.end,
    {
        self.end
    }

    pub fn data(&self) -> (data: &Json)
        ensures
            data@ == self@.data,
    {
        &self.data
    }

    pub fn state(&self) -> (state: &CaseState)
        ensures
            state@ == self@.state,
    {
        &self.state
    }
}

/// What a case is made of: its identity, its row, the steps it runs, and
/// what the task knows before any case runs.
#[derive(Debug)]
pub struct CaseArgStruct {
    step: Vec<Step>,
    data: Json,
    def: Option<Json>,
    pre_ctx: Option<Json>,
    id: CaseIdStruct,
}

/// The mathematical content of a [`CaseArgStruct`].
pub struct CaseArgView {
    pub step: Seq<StepView>,
    pub data: JsonView,
    pub def: Option<JsonView>,
    pub pre_ctx: Option<JsonView>,
    pub id: CaseIdView,
}

impl View for CaseArgStruct {
    type V = CaseArgView;

    closed spec fn view(&self) -> CaseArgView {
        CaseArgView {
            step: steps_view(self.step@),
            data: self.data@,
            def: json_option_view(self.def),
            pre_ctx: json_option_view(self.pre_ctx),
            id: self.id@,
        }
    }
}

/// Whether `steps` are the definitions that `flow` gives to `names`, one by
/// one.
pub open spec fn resolved(flow: FlowView, names: Seq<Seq<char>>, steps: Seq<StepView>) -> bool {
    steps.len() == names.len() && forall|k: int|
        0 <= k < names.len() ==> first_step(flow.step, #[trigger] names[k]) == Some(steps[k])
}

/// Whether `flow` defines every one of `names`.
pub open spec fn resolvable(flow: FlowView, names: Seq<Seq<char>>) -> bool {
    forall|k: int| 0 <= k < names.len() ==> first_step(flow.step, #[trigger] names[k]) is Some
}

impl CaseArgStruct {
    /// The case that runs the steps `step_ids` of `flow` on the row `data`.
    /// It is identified by the task, by `case_exec_id`, which names the stage
    /// and the round, and by `case_id`, which names the row. A step that
    /// `flow` does not define is refused with the code `010`.
    pub fn new(
        flow: &Flow,
        step_ids: &Vec<String>,
        data: Json,
        pre_ctx: Option<Json>,
        task_id: TaskIdSimple,
        case_id: String,
        case_exec_id: String,
    ) -> (r: Result<CaseArgStruct, ErrorStruct>)
        ensures
            match r {
                Ok(arg) => resolved(flow@, names_view(step_ids@), arg@.step) && arg@.data == data@
                    && arg@.def == flow@.def && arg@.pre_ctx == json_option_view(pre_ctx) && arg@.id == (
                CaseIdView { task_id: task_id@, exec_id: case_exec_id@, case: case_id@ }),
                Err(e) => !resolvable(flow@, names_view(step_ids@)) && e@ == (ErrorView {
                    code: "010"@,
                    message: "invalid step"@,
                    cause: None,
                }),
            },
    {
        let mut step: Vec<Step> = Vec::new();
        let mut k: usize = 0;
        while k < step_ids.len()
            invariant
                k <= step_ids.len(),
                step.len() == k,
                forall|j: int|
                    0 <= j < k ==> first_step(flow@.step, #[trigger] names_view(step_ids@)[j]) == Some(
                        step@[j]@,
                    ),
            decreases step_ids.len() - k,
        {
            match flow.step(step_ids[k].as_str()) {
                Some(s) => {
                    step.push(s.clone());
                },
                None => {
                    assert(first_step(flow@.step, names_view(step_ids@)[k as int]) is None);
                    return Err(ErrorStruct::new("010", "invalid step"));
                },
            }
            k += 1;
        }
        let def = match flow.def() {
            Some(d) => Some(d.clone()),
            None => None,
        };
        let id = CaseIdStruct::new(task_id, case_id, case_exec_id);
        let arg = CaseArgStruct { step, data, def, pre_ctx, id };
        proof {
            assert forall|j: int| 0 <= j < step_ids@.len() implies first_step(
                flow@.step,
                #[trigger] names_view(step_ids@)[j],
            ) == Some(arg@.step[j]) by {
                assert(arg@.step[j] == arg.step@[j]@);
            }
        }
        Ok(arg)
    }

    /// The namespace at the start of the case.
    pub fn create_render_context(&self) -> (c: RenderContext)
        ensures
            c@ == (RenderContextView {
                def: self@.def,
                pre: self@.pre_ctx,
                case: self@.data,
                step: Seq::empty(),
                dynamic: Seq::empty(),
                curr: JsonView::Null,
            }),
    {
        RenderContext::new(clone_json_option(&self.def), clone_json_option(&self.pre_ctx), self.data.clone())
    }

    /// The steps that the case runs, in order.
    pub fn step_vec(&self) -> (steps: &Vec<Step>)
        ensures
            steps_view(steps@) == self@.step,
    {
        &self.step
    }

    pub fn id(&self) -> (id: &CaseIdStruct)
        ensures
            id@ == self@.id,
    {
        &self.id
    }

    /// The row that the case runs on.
    pub fn data(&self) -> (data: &Json)
        ensures
            data@ == self@.data,
    {
        &self.data
    }

    /// The row, in exchange for the case.
    pub fn take_data(self) -> (data: Json)
        ensures
            data@ == self@.data,
    {
        self.data
    }
}

/// The namespace after a step has passed with a value: the value is bound to
/// the step's name under `step`, and under `dyn` too where the step asks for
/// that.
pub open spec fn context_after(context: RenderContextView, step: StepView, value: JsonView) -> RenderContextView {
    RenderContextView {
        step: context.step.push((step.id, value)),
        dynamic: if step.dynamic is Some {
            context.dynamic.push((step.id, value))
        } else {
            context.dynamic
        },
        ..context
    }
}

/// Records a value under a name of the `dyn` namespace of a case.
pub fn register_dynamic(render_context: &mut RenderContext, name: &str, result: &Json)
    ensures
        final(render_context)@ == (RenderContextView {
            dynamic: old(render_context)@.dynamic.push((name@, result@)),
            ..old(render_context)@
        }),
{
    render_context.register_dynamic(name, result);
}

/// What comes of a case whose recorded steps are `records`: the case fails
/// where the last step failed, ends in that step's error where it ended in
/// one, and passes otherwise.
pub open spec fn case_state(records: Seq<StepAssessView>) -> CaseStateView {
    if records.len() > 0 && records.last().state is Fail {
        CaseStateView::Fail(records)
    } else if records.len() > 0 && records.last().state is Error {
        CaseStateView::Error(records.last().state->Error_0)
    } else {
        CaseStateView::Pass(records)
    }
}

/// Whether the records of a case in progress are as they should be: they
/// are of the first declared steps, in order; each but the last has passed;
/// and the last has passed unless the case has stopped on it.
pub open spec fn records_ok(
    arg: CaseArgView,
    records: Seq<StepAssessView>,
    stopped: bool,
) -> bool {
    &&& records.len() <= arg.step.len()
    &&& forall|k: int|
        0 <= k < records.len() ==> (#[trigger] records[k]).id == (StepIdView {
            step: arg.step[k].id,
            case_id: arg.id,
        })
    &&& forall|k: int| 0 <= k < records.len() - 1 ==> (#[trigger] records[k]).state is Pass
    &&& stopped <==> records.len() > 0 && !(records.last().state is Pass)
}

/// A case in progress.
#[derive(Debug)]
pub struct CaseRun {
    arg: CaseArgStruct,
    context: RenderContext,
    records: Vec<StepAssessStruct>,
    start: i64,
    stopped: bool,
}

impl CaseRun {
    #[verifier::type_invariant]
    spec fn valid(self) -> bool {
        records_ok(self.arg@, records_view(self.records@), self.stopped)
    }

    /// What the case is made of.
    pub closed spec fn arg(&self) -> CaseArgView {
        self.arg@
    }

    /// The namespace that the next step reads.
    pub closed spec fn context(&self) -> RenderContextView {
        self.context@
    }

    /// The records of the steps that have run, in order.
    pub closed spec fn records(&self) -> Seq<StepAssessView> {
        records_view(self.records@)
    }

    /// When the case began.
    pub closed spec fn started(&self) -> int {
        self.start as int
    }

    /// Whether a step has failed or ended in an error.
    pub closed spec fn stopped(&self) -> bool {
        self.stopped
    }

    /// Whether no step is left to run: every step has passed, or one has
    /// not.
    pub open spec fn finished(&self) -> bool {
        self.stopped() || self.records().len() == self.arg().step.len()
    }

    /// A case that begins at `now`: no step has run.
    pub fn new(arg: CaseArgStruct, now: i64) -> (case: CaseRun)
        ensures
            case.arg() == arg@,
            case.context() == (RenderContextView {
                def: arg@.def,
                pre: arg@.pre_ctx,
                case: arg@.data,
                step: Seq::empty(),
                dynamic: Seq::empty(),
                curr: JsonView::Null,
            }),
            case.records() == Seq::<StepAssessView>::empty(),
            case.started() == now,
            !case.stopped(),
    {
        let context = arg.create_render_context();
        let case = CaseRun { arg, context, records: Vec::new(), start: now, stopped: false };
        assert(records_view(case.records@) =~= Seq::empty());
        case
    }

    /// Whether no step is left to run.
    pub fn is_finished(&self) -> (b: bool)
        ensures
            b == self.finished(),
            records_ok(self.arg(), self.records(), self.stopped()),
    {
        proof {
            use_type_invariant(self);
        }
        self.stopped || self.records.len() == self.arg.step.len()
    }

    /// What the action of the next step is to be handed.
    pub fn pending(&self) -> (arg: RunArgStruct<'_, '_>)
        requires
            !self.finished(),
        ensures
            arg.step() == self.arg().step[self.records().len() as int],
            arg.context() == self.context(),
            arg.step_id() == (StepIdView { step: arg.step().id, case_id: self.arg().id }),
            arg.id_text() == crate::id::step_id_text(arg.step_id()),
    {
        proof {
            use_type_invariant(self);
        }
        let step = &self.arg.step[self.records.len()];
        RunArgStruct::of(step, &self.context, self.arg.id.clone())
    }

    /// The record of the case, made at `now`.
    pub fn finish(self, now: i64) -> (assess: CaseAssessStruct)
        requires
            self.finished(),
        ensures
            assess@ == (CaseAssessView {
                id: self.arg().id,
                start: self.started(),
                end: now as int,
                data: self.arg().data,
                state: case_state(self.records()),
            }),
            records_ok(self.arg(), self.records(), self.stopped()),
    {
        proof {
            use_type_invariant(&self);
        }
        let CaseRun { arg, context, records, start, stopped } = self;
        let ghost all = records_view(records@);
        let n = records.len();
        let state = if n > 0 && records[n - 1].state().is_fail() {
            assert(all.last() == records@[n - 1]@);
            CaseState::Fail(records)
        } else if n > 0 && records[n - 1].state().is_err() {
            assert(all.last() == records@[n - 1]@);
            match records[n - 1].state() {
                StepState::Error(e) => CaseState::Error(e.clone()),
                _ => CaseState::Pass(records),
            }
        } else {
            assert(n > 0 ==> all.last() == records@[n - 1]@);
            CaseState::Pass(records)
        };
        let id = arg.id.clone();
        CaseAssessStruct::new(id, start, now, arg.take_data(), state)
    }
}

/// Takes a case one step on: records what came of the step that was
/// pending, whose action was invoked between `start` and `end`. Where the
/// step passed, the steps after it read its value; where it did not, the
/// case stops, and no step after it will run.
pub fn run(case: CaseRun, invocation: Invocation, start: i64, end: i64) -> (next: CaseRun)
    requires
        !case.finished(),
    ensures
        ({
            let step = case.arg().step[case.records().len() as int];
            let state = step_state(step.condition, case.context(), invocation@);
            &&& next.arg() == case.arg()
            &&& next.started() == case.started()
            &&& next.records() == case.records().push(
                StepAssessView {
                    id: StepIdView { step: step.id, case_id: case.arg().id },
                    start: start as int,
                    end: end as int,
                    state,
                },
            )
            &&& next.stopped() == !(state is Pass)
            &&& next.context() == match state {
                StepStateView::Pass(value) => context_after(case.context(), step, value),
                _ => case.context(),
            }
        }),
{
    proof {
        use_type_invariant(&case);
    }
    let CaseRun { arg, mut context, mut records, start: began, stopped } = case;
    let index = records.len();
    let assess = {
        let run_arg = RunArgStruct::of(&arg.step[index], &context, arg.id.clone());
        crate::step::run(&run_arg, invocation, start, end)
    };
    let ghost before = records_view(records@);
    let mut stopped = stopped;
    match assess.state() {
        StepState::Pass(value) => {
            let step = &arg.step[index];
            context.register_step(step.id.as_str(), value);
            if step.dynamic.is_some() {
                context.register_dynamic(step.id.as_str(), value);
            }
        },
        _ => {
            stopped = true;
        },
    }
    records.push(assess);
    proof {
        assert(records_view(records@) =~= before.push(assess@));
    }
    CaseRun { arg, context, records, start: began, stopped }
}

} // verus!
