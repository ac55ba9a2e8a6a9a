//! One step: what an action is handed, and what is made of what it returns.

use vstd::prelude::*;
use crate::codec::json_from_text;
use crate::codec::json_text;
use crate::error::ErrorStruct;
use crate::error::ErrorView;
use crate::flow::first_step;
use crate::flow::Flow;
use crate::flow::Step;
use crate::flow::StepView;
use crate::id::CaseIdStruct;
use crate::id::CaseIdView;
use crate::id::StepIdStruct;
use crate::id::StepIdView;
use crate::id::TaskIdSimple;
use crate::render::context_data;
use crate::render::context_members;
use crate::render::holds;
use crate::render::is_task_shared;
use crate::render::render_result;
use crate::render::task_shared;
use crate::render::RenderContext;
use crate::render::RenderContextView;
use crate::value::Json;
use crate::value::JsonView;

verus! {

/// What came of a step.
#[derive(Debug)]
pub enum StepState {
    /// The action returned a value, and the value met the step's condition.
    Pass(Json),
    /// The action returned a value that did not meet the step's condition.
    Fail(Json),
    /// The action did not return a value.
    Error(ErrorStruct),
}

/// The mathematical content of a [`StepState`].
pub enum StepStateView {
    Pass(JsonView),
    Fail(JsonView),
    Error(ErrorView),
}

impl View for StepState {
    type V = StepStateView;

    open spec fn view(&self) -> StepStateView {
        match self {
            StepState::Pass(v) => StepStateView::Pass(v@),
            StepState::Fail(v) => StepStateView::Fail(v@),
            StepState::Error(e) => StepStateView::Error(e@),
        }
    }
}

impl StepState {
    pub fn is_ok(&self) -> (b: bool)
        ensures
            b == (self@ is Pass),
    {
        match self {
            StepState::Pass(_) => true,
            _ => false,
        }
    }

    pub fn is_err(&self) -> (b: bool)
        ensures
            b == (self@ is Error),
    {
        match self {
            StepState::Error(_) => true,
            _ => false,
        }
    }

    pub fn is_fail(&self) -> (b: bool)
        ensures
            b == (self@ is Fail),
    {
        match self {
            StepState::Fail(_) => true,
            _ => false,
        }
    }
}

impl Clone for StepState {
    fn clone(&self) -> (s: StepState)
        ensures
            s@ == self@,
    {
        match self {
            StepState::Pass(v) => StepState::Pass(v.clone()),
            StepState::Fail(v) => StepState::Fail(v.clone()),
            StepState::Error(e) => StepState::Error(e.clone()),
        }
    }
}

/// What an action returns: a value, or the error that kept it from one.
pub type ActionValue = Result<Json, ErrorStruct>;

/// What came of invoking an action under the step's timeout.
#[derive(Debug)]
pub enum Invocation {
    /// The action returned in time.
    Returned(ActionValue),
    /// The timeout passed first; whatever the action returns later is
    /// discarded.
    TimedOut,
    /// The action panicked.
    Crashed,
}

/// The mathematical content of an [`Invocation`].
pub enum InvocationView {
    Value(JsonView),
    Error(ErrorView),
    TimedOut,
    Crashed,
}

impl View for Invocation {
    type V = InvocationView;

    open spec fn view(&self) -> InvocationView {
        match self {
            Invocation::Returned(Ok(v)) => InvocationView::Value(v@),
            Invocation::Returned(Err(e)) => InvocationView::Error(e@),
            Invocation::TimedOut => InvocationView::TimedOut,
            Invocation::Crashed => InvocationView::Crashed,
        }
    }
}

/// The error of a step whose action did not return in time.
pub open spec fn timeout_error() -> ErrorView {
    ErrorView { code: "001"@, message: "timeout"@, cause: None }
}

/// The error of a step whose action panicked.
pub open spec fn crash_error() -> ErrorView {
    ErrorView { code: "002"@, message: "unwind"@, cause: None }
}

/// The document that a step's condition is decided against: the namespace,
/// with the step's value under `res`.
pub open spec fn condition_data(context: RenderContextView, value: JsonView) -> JsonView {
    JsonView::Object(context_members(context).insert("res"@, value))
}

/// What comes of a step, given what came of invoking its action and
/// whether the value that was returned, if one was, meets the step's
/// condition.
pub open spec fn state_from(invocation: InvocationView, met: bool) -> StepStateView {
    match invocation {
        InvocationView::TimedOut => StepStateView::Error(timeout_error()),
        InvocationView::Crashed => StepStateView::Error(crash_error()),
        InvocationView::Error(e) => StepStateView::Error(e),
        InvocationView::Value(v) => if met {
            StepStateView::Pass(v)
        } else {
            StepStateView::Fail(v)
        },
    }
}

/// What comes of a step, given what came of invoking its action: a value
/// that was returned in time passes where the step has no condition or the
/// value meets it, and fails where it does not; everything else is an error.
pub open spec fn step_state(
    condition: Option<Seq<char>>,
    context: RenderContextView,
    invocation: InvocationView,
) -> StepStateView {
    match invocation {
        InvocationView::TimedOut => StepStateView::Error(timeout_error()),
        InvocationView::Crashed => StepStateView::Error(crash_error()),
        InvocationView::Error(e) => StepStateView::Error(e),
        InvocationView::Value(v) => match condition {
            Some(c) => if holds(c, condition_data(context, v)) {
                StepStateView::Pass(v)
            } else {
                StepStateView::Fail(v)
            },
            None => StepStateView::Pass(v),
        },
    }
}

/// What stands at a path of keys into a document; null where the path
/// leads nowhere.
pub open spec fn descend(v: JsonView, path: Seq<Seq<char>>) -> JsonView
    decreases path.len(),
{
    if path.len() == 0 {
        v
    } else {
        crate::conf::member(descend(v, path.drop_last()), path.last())
    }
}

/// The record of one step: which, when, and what came of it.
#[derive(Debug)]
pub struct StepAssessStruct {
    id: StepIdStruct,
    start: i64,
    end: i64,
    state: StepState,
}

/// The mathematical content of a [`StepAssessStruct`].
pub struct StepAssessView {
    pub id: StepIdView,
    pub start: int,
    pub end: int,
    pub state: StepStateView,
}

impl View for StepAssessStruct {
    type V = StepAssessView;

    closed spec fn view(&self) -> StepAssessView {
        StepAssessView { id: self.id@, start: self.start as int, end: self.end as int, state: self.state@ }
    }
}

impl StepAssessStruct {
    /// The record of a step that ran from `start` to `end`, both in
    /// milliseconds since the epoch.
    pub fn new(id: StepIdStruct, start: i64, end: i64, state: StepState) -> (a: StepAssessStruct)
        ensures
            a@ == (StepAssessView { id: id@, start: start as int, end: end as int, state: state@ }),
    {
        StepAssessStruct { id, start, end, state }
    }

    pub fn id(&self) -> (id: &StepIdStruct)
        ensures
            id@ == self@.id,
    {
        &self.id
    }

    pub fn start(&self) -> (t: i64)
        ensures
            t == self@.start,
    {
        self.start
    }

    pub fn end(&self) -> (t: i64)
        ensures
            t == self@.end,
    {
        self.end
    }

    pub fn state(&self) -> (state: &StepState)
        ensures
            state@ == self@.state,
    {
        &self.state
    }
}

impl Clone for StepAssessStruct {
    fn clone(&self) -> (a: StepAssessStruct)
        ensures
            a@ == self@,
    {
        StepAssessStruct { id: self.id.clone(), start: self.start, end: self.end, state: self.state.clone() }
    }
}

/// What an action is handed when it runs: the step's identity and
/// definition, and the namespace of the case at that point.
pub struct RunArgStruct<'f, 'r> {
    step: &'f Step,
    render_context: &'r RenderContext,
    id: StepIdStruct,
    id_str: String,
}

impl<'f, 'r> RunArgStruct<'f, 'r> {
    /// The step's definition.
    pub closed spec fn step(&self) -> StepView {
        self.step@
    }

    /// The namespace of the case.
    pub closed spec fn context(&self) -> RenderContextView {
        self.render_context@
    }

    /// The step's identity.
    pub closed spec fn step_id(&self) -> StepIdView {
        self.id@
    }

    /// The step's identity as text.
    pub closed spec fn id_text(&self) -> Seq<char> {
        self.id_str@
    }

    /// What the step `id` of `flow` is handed in the case `case_id`. A name
    /// that `flow` does not define is refused with the code `010`.
    pub fn new(
        flow: &'f Flow,
        render_context: &'r RenderContext,
        case_id: CaseIdStruct,
        id: String,
    ) -> (r: Result<RunArgStruct<'f, 'r>, ErrorStruct>)
        ensures
            match r {
                Ok(arg) => first_step(flow@.step, id@) == Some(arg.step()) && arg.context()
                    == render_context@ && arg.step_id() == (StepIdView { step: id@, case_id: case_id@ })
                    && arg.id_text() == crate::id::step_id_text(arg.step_id()),
                Err(e) => first_step(flow@.step, id@) is None && e@ == (ErrorView {
                    code: "010"@,
                    message: "invalid step"@,
                    cause: None,
                }),
            },
    {
        match flow.step(id.as_str()) {
            Some(step) => {
                let id = StepIdStruct::new(case_id, id);
                let id_str = id.to_string();
                Ok(RunArgStruct { step, render_context, id, id_str })
            },
            None => Err(ErrorStruct::new("010", "invalid step")),
        }
    }

    /// What the step `step` is handed in the case `case_id`.
    pub fn of(step: &'f Step, render_context: &'r RenderContext, case_id: CaseIdStruct) -> (arg: RunArgStruct<
        'f,
        'r,
    >)
        ensures
            arg.step() == step@,
            arg.context() == render_context@,
            arg.step_id() == (StepIdView { step: step@.id, case_id: case_id@ }),
            arg.id_text() == crate::id::step_id_text(arg.step_id()),
    {
        let id = StepIdStruct::new(case_id, step.id.clone());
        let id_str = id.to_string();
        RunArgStruct { step, render_context, id, id_str }
    }

    pub fn id(&self) -> (id: &StepIdStruct)
        ensures
            id@ == self.step_id(),
    {
        &self.id
    }

    /// The step's identity as text.
    pub fn id_str(&self) -> (s: &str)
        ensures
            s@ == self.id_text(),
    {
        self.id_str.as_str()
    }

    /// The condition that the step's value has to meet, if any.
    pub fn condition(&self) -> (c: Option<&str>)
        ensures
            match c {
                Some(text) => self.step().condition == Some(text@),
                None => self.step().condition is None,
            },
    {
        match &self.step.condition {
            Some(text) => Some(text.as_str()),
            None => None,
        }
    }

    /// How many seconds the action may take.
    pub fn timeout(&self) -> (seconds: u64)
        ensures
            seconds == self.step().timeout,
    {
        self.step.timeout
    }

    /// What the action is configured with.
    pub fn config(&self) -> (config: &Json)
        ensures
            config@ == self.step().config,
    {
        &self.step.config
    }

    /// Renders a template against the namespace of the case.
    pub fn render_str(&self, text: &str) -> (r: Result<String, ErrorStruct>)
        ensures
            match r {
                Ok(out) => render_result(text@, context_data(self.context())) == Ok::<
                    Seq<char>,
                    Seq<char>,
                >(out@),
                Err(e) => render_result(text@, context_data(self.context())) == Err::<
                    Seq<char>,
                    Seq<char>,
                >(e@.message) && e@.code == "tpl"@ && e@.cause is None,
            },
    {
        self.render_context.render_str(text)
    }

    /// Renders the templates in a document: the document's JSON text is
    /// rendered as one template, and the result is read back as JSON.
    pub fn render_value(&self, value: &Json) -> (r: Result<Json, ErrorStruct>)
        ensures
            match render_result(json_text(value@), context_data(self.context())) {
                Ok(text) => match r {
                    Ok(v) => json_from_text(text) == Some(v@),
                    Err(e) => json_from_text(text) is None && e@.code == "json"@ && e@.cause is None,
                },
                Err(message) => r is Err && r->Err_0@ == (ErrorView {
                    code: "tpl"@,
                    message: message,
                    cause: None,
                }),
            },
    {
        let text = crate::codec::to_string(value);
        match self.render_str(text.as_str()) {
            Ok(out) => crate::codec::from_str(out.as_str()),
            Err(e) => Err(e),
        }
    }

    /// The string at a path of keys into the step's configuration, rendered;
    /// `None` where there is no string at the path, or it cannot be rendered.
    pub fn config_rendered(&self, path: &Vec<String>) -> (r: Option<String>)
        ensures
            match descend(self.step().config, crate::flow::names_view(path@)) {
                JsonView::Str(template) => match render_result(template, context_data(self.context())) {
                    Ok(text) => r is Some && r->Some_0@ == text,
                    Err(_) => r is None,
                },
                _ => r is None,
            },
    {
        let ghost keys = crate::flow::names_view(path@);
        let null = Json::Null;
        let mut at: &Json = &self.step.config;
        let mut i: usize = 0;
        proof {
            assert(keys.take(0) =~= Seq::empty());
        }
        while i < path.len()
            invariant
                i <= path.len(),
                keys == crate::flow::names_view(path@),
                null@ == JsonView::Null,
                at@ == descend(self.step().config, keys.take(i as int)),
            decreases path.len() - i,
        {
            proof {
                let next = keys.take(i as int + 1);
                assert(next.drop_last() =~= keys.take(i as int));
                assert(next.last() == path@[i as int]@);
            }
            at = match at.get(path[i].as_str()) {
                Some(v) => v,
                None => &null,
            };
            i += 1;
        }
        proof {
            assert(keys.take(i as int) =~= keys);
        }
        match at.as_str() {
            Some(template) => match self.render_str(template) {
                Ok(text) => Some(text),
                Err(_) => None,
            },
            None => None,
        }
    }

    /// Decides the step's condition for a value that its action returned:
    /// whether the condition, if there is one, holds with the value bound
    /// under `res`.
    pub fn check(&self, value: &Json) -> (met: bool)
        ensures
            met == match self.step().condition {
                Some(c) => holds(c, condition_data(self.context(), value@)),
                None => true,
            },
    {
        match self.condition() {
            Some(c) => self.render_context.evaluate_boolean(c, Some(("res", value))),
            None => true,
        }
    }
}

/// What comes of a step, given what came of invoking its action and
/// whether the value that was returned, if one was, meets the step's
/// condition.
pub fn state_of(invocation: Invocation, met: bool) -> (state: StepState)
    ensures
        state@ == state_from(invocation@, met),
{
    match invocation {
        Invocation::Returned(Ok(value)) => if met {
            StepState::Pass(value)
        } else {
            StepState::Fail(value)
        },
        Invocation::Returned(Err(e)) => StepState::Error(e),
        Invocation::TimedOut => StepState::Error(ErrorStruct::new("001", "timeout")),
        Invocation::Crashed => StepState::Error(ErrorStruct::new("002", "unwind")),
    }
}

/// Makes the record of a step from what came of invoking its action between
/// `start` and `end`.
pub fn run(arg: &RunArgStruct, invocation: Invocation, start: i64, end: i64) -> (assess: StepAssessStruct)
    ensures
        assess@ == (StepAssessView {
            id: arg.step_id(),
            start: start as int,
            end: end as int,
            state: step_state(arg.step().condition, arg.context(), invocation@),
        }),
{
    let met = match &invocation {
        Invocation::Returned(Ok(value)) => arg.check(value),
        _ => true,
    };
    StepAssessStruct::new(arg.id().clone(), start, end, state_of(invocation, met))
}

/// What an action factory is handed when it makes the action of a step: the
/// step's definition, and a namespace that holds what is known before any
/// case runs.
pub struct CreateArgStruct<'f, 'r> {
    step: &'f Step,
    render_context: &'r RenderContext,
    action: String,
    id: StepIdStruct,
    id_str: String,
}

impl<'f, 'r> CreateArgStruct<'f, 'r> {
    /// The step's definition.
    pub closed spec fn step(&self) -> StepView {
        self.step@
    }

    /// The namespace of the task.
    pub closed spec fn context(&self) -> RenderContextView {
        self.render_context@
    }

    /// The step's identity.
    pub closed spec fn step_id(&self) -> StepIdView {
        self.id@
    }

    /// The step's identity as text.
    pub closed spec fn id_text(&self) -> Seq<char> {
        self.id_str@
    }

    /// The kind of action that is asked for.
    pub closed spec fn kind(&self) -> Seq<char> {
        self.action@
    }

    /// What the factory is handed for the step `id` of `flow`. The step is
    /// identified as that of a case named `create`. A name that `flow` does
    /// not define is refused with the code `010`.
    pub fn new(
        flow: &'f Flow,
        render_context: &'r RenderContext,
        task_id: TaskIdSimple,
        action: String,
        id: String,
    ) -> (r: Result<CreateArgStruct<'f, 'r>, ErrorStruct>)
        ensures
            match r {
                Ok(arg) => first_step(flow@.step, id@) == Some(arg.step()) && arg.context()
                    == render_context@ && arg.kind() == action@ && arg.step_id() == (StepIdView {
                    step: id@,
                    case_id: CaseIdView { task_id: task_id@, exec_id: "create"@, case: "create"@ },
                }) && arg.id_text() == crate::id::step_id_text(arg.step_id()),
                Err(e) => first_step(flow@.step, id@) is None && e@ == (ErrorView {
                    code: "010"@,
                    message: "invalid step"@,
                    cause: None,
                }),
            },
    {
        match flow.step(id.as_str()) {
            Some(step) => {
                let case_id = CaseIdStruct::new(task_id, "create".to_owned(), "create".to_owned());
                let id = StepIdStruct::new(case_id, id);
                let id_str = id.to_string();
                Ok(CreateArgStruct { step, render_context, action, id, id_str })
            },
            None => Err(ErrorStruct::new("010", "invalid step")),
        }
    }

    /// The step's identity as text.
    pub fn id(&self) -> (s: &str)
        ensures
            s@ == self.id_text(),
    {
        self.id_str.as_str()
    }

    /// The kind of action that is asked for.
    pub fn action(&self) -> (s: &str)
        ensures
            s@ == self.kind(),
    {
        self.action.as_str()
    }

    /// What the action is configured with.
    pub fn config(&self) -> (config: &Json)
        ensures
            config@ == self.step().config,
    {
        &self.step.config
    }

    /// Renders a template against the namespace of the task.
    pub fn render_str(&self, text: &str) -> (r: Result<String, ErrorStruct>)
        ensures
            match r {
                Ok(out) => render_result(text@, context_data(self.context())) == Ok::<
                    Seq<char>,
                    Seq<char>,
                >(out@),
                Err(e) => render_result(text@, context_data(self.context())) == Err::<
                    Seq<char>,
                    Seq<char>,
                >(e@.message) && e@.code == "tpl"@ && e@.cause is None,
            },
    {
        self.render_context.render_str(text)
    }

    /// Whether a templated text is the same for every case of the task, so
    /// that what it resolves to may be made once and shared.
    pub fn is_task_shared(&self, text: &str) -> (shared: bool)
        ensures
            shared == task_shared(text@),
    {
        is_task_shared(text)
    }
}

} // verus!
