//! The flow: the plan of a task, fixed before its first case runs.

use vstd::prelude::*;
use crate::error::ErrorStruct;
use crate::text::str_eq;
use crate::value::Json;
use crate::value::JsonView;

verus! {

/// What a stage's failure does to the stages after it.
#[derive(Debug, Clone, Copy, PartialEq, Eq, Structural)]
pub enum BreakOn {
    /// The stages after it run whatever came of it.
    Never,
    /// The stages after a failed stage are skipped.
    StageFail,
}

/// One step of a flow: an action, what it is configured with, and what is
/// asked of its result.
#[derive(Debug)]
pub struct Step {
    /// The step's name.
    pub id: String,
    /// The kind of action that the step invokes.
    pub action: String,
    /// What the action is configured with; its strings may hold templates.
    pub config: Json,
    /// The condition that the step's value has to meet, if any.
    pub condition: Option<String>,
    /// How many seconds the action may take.
    pub timeout: u64,
    /// The name under which the step asks for its value to be published
    /// in the `dyn` namespace, if it does.
    pub dynamic: Option<String>,
}

/// One stage of a flow.
#[derive(Debug)]
pub struct Stage {
    /// The stage's name.
    pub id: String,
    /// The steps that each case runs, in order, by name.
    pub step: Vec<String>,
    /// How many cases run at a time, and how many rows make a batch.
    pub concurrency: usize,
    /// How many rounds over the rows the stage makes; 0 for as many as its
    /// duration allows.
    pub round: usize,
    /// How many seconds the stage may take.
    pub duration: u64,
    /// What failure of the stage does to the stages after it.
    pub break_on: BreakOn,
    /// The condition that a row has to meet to become a case, if any.
    pub case_filter: Option<String>,
}

/// The mathematical content of a [`Step`].
pub struct StepView {
    pub id: Seq<char>,
    pub action: Seq<char>,
    pub config: JsonView,
    pub condition: Option<Seq<char>>,
    pub timeout: nat,
    pub dynamic: Option<Seq<char>>,
}

/// The mathematical content of a [`Stage`].
pub struct StageView {
    pub id: Seq<char>,
    pub step: Seq<Seq<char>>,
    pub concurrency: nat,
    pub round: nat,
    pub duration: nat,
    pub break_on: BreakOn,
    pub case_filter: Option<Seq<char>>,
}

/// The mathematical content of a [`Flow`].
pub struct FlowView {
    pub def: Option<JsonView>,
    pub pre: Option<Seq<Seq<char>>>,
    pub stage: Seq<StageView>,
    pub step: Seq<StepView>,
}

/// The content of an optional text.
pub open spec fn text_option_view(t: Option<String>) -> Option<Seq<char>> {
    match t {
        Some(s) => Some(s@),
        None => None,
    }
}

/// The content of an optional document.
pub open spec fn json_option_view(v: Option<Json>) -> Option<JsonView> {
    match v {
        Some(d) => Some(d@),
        None => None,
    }
}

/// The contents of a list of names.
pub open spec fn names_view(names: Seq<String>) -> Seq<Seq<char>> {
    Seq::new(names.len(), |i: int| names[i]@)
}

impl View for Step {
    type V = StepView;

    open spec fn view(&self) -> StepView {
        StepView {
            id: self.id@,
            action: self.action@,
            config: self.config@,
            condition: text_option_view(self.condition),
            timeout: self.timeout as nat,
            dynamic: text_option_view(self.dynamic),
        }
    }
}

impl View for Stage {
    type V = StageView;

    open spec fn view(&self) -> StageView {
        StageView {
            id: self.id@,
            step: names_view(self.step@),
            concurrency: self.concurrency as nat,
            round: self.round as nat,
            duration: self.duration as nat,
            break_on: self.break_on,
            case_filter: text_option_view(self.case_filter),
        }
    }
}

/// The contents of an optional list of names.
pub open spec fn names_option_view(names: Option<Vec<String>>) -> Option<Seq<Seq<char>>> {
    match names {
        Some(list) => Some(names_view(list@)),
        None => None,
    }
}

/// The contents of a list of steps.
pub open spec fn steps_view(steps: Seq<Step>) -> Seq<StepView> {
    Seq::new(steps.len(), |i: int| steps[i]@)
}

/// The contents of a list of stages.
pub open spec fn stages_view(stages: Seq<Stage>) -> Seq<StageView> {
    Seq::new(stages.len(), |i: int| stages[i]@)
}

/// The first step of the given name in a list of steps.
pub open spec fn first_step(steps: Seq<StepView>, id: Seq<char>) -> Option<StepView>
    decreases steps.len(),
{
    if steps.len() == 0 {
        None
    } else if steps.first().id == id {
        Some(steps.first())
    } else {
        first_step(steps.drop_first(), id)
    }
}

/// Whether a list of steps has one of the given name.
pub open spec fn has_step(steps: Seq<StepView>, id: Seq<char>) -> bool {
    first_step(steps, id) is Some
}

/// Whether every name in a list is the name of a step.
pub open spec fn all_steps_known(steps: Seq<StepView>, names: Seq<Seq<char>>) -> bool {
    forall|k: int| 0 <= k < names.len() ==> has_step(steps, #[trigger] names[k])
}

/// What makes a flow valid: each stage runs at least one case at a time, and
/// every step that a stage or the pre-stage names is defined. (Its sizes are
/// those of a machine.)
pub open spec fn flow_ok(f: FlowView) -> bool {
    &&& f.stage.len() <= usize::MAX
    &&& forall|s: int| 0 <= s < f.stage.len() ==> (#[trigger] f.stage[s]).concurrency <= usize::MAX
    &&& forall|s: int| 0 <= s < f.stage.len() ==> (#[trigger] f.stage[s]).concurrency >= 1
    &&& forall|s: int| 0 <= s < f.stage.len() ==> all_steps_known(f.step, (#[trigger] f.stage[s]).step)
    &&& f.pre matches Some(names) ==> all_steps_known(f.step, names)
}

/// The steps of a list of stages, stage after stage.
pub open spec fn stage_steps(stages: Seq<StageView>) -> Seq<Seq<char>>
    decreases stages.len(),
{
    if stages.len() == 0 {
        Seq::empty()
    } else {
        stage_steps(stages.drop_last()) + stages.last().step
    }
}

/// A copy of an optional text.
pub fn clone_text_option(t: &Option<String>) -> (c: Option<String>)
    ensures
        text_option_view(c) == text_option_view(*t),
{
    match t {
        Some(s) => Some(s.clone()),
        None => None,
    }
}

/// A copy of an optional document.
pub fn clone_json_option(v: &Option<Json>) -> (c: Option<Json>)
    ensures
        json_option_view(c) == json_option_view(*v),
{
    match v {
        Some(d) => Some(d.clone()),
        None => None,
    }
}

impl Clone for Step {
    fn clone(&self) -> (c: Step)
        ensures
            c@ == self@,
    {
        Step {
            id: self.id.clone(),
            action: self.action.clone(),
            config: self.config.clone(),
            condition: clone_text_option(&self.condition),
            timeout: self.timeout,
            dynamic: clone_text_option(&self.dynamic),
        }
    }
}

/// A valid plan: the constants, the pre-stage, the stages in order, and the
/// steps that they name.
#[derive(Debug)]
pub struct Flow {
    def: Option<Json>,
    pre: Option<Vec<String>>,
    stage: Vec<Stage>,
    step: Vec<Step>,
}

impl View for Flow {
    type V = FlowView;

    closed spec fn view(&self) -> FlowView {
        FlowView {
            def: json_option_view(self.def),
            pre: names_option_view(self.pre),
            stage: stages_view(self.stage@),
            step: steps_view(self.step@),
        }
    }
}

fn find_step(steps: &Vec<Step>, id: &str) -> (r: Option<usize>)
    ensures
        match r {
            Some(i) => i < steps.len() && first_step(steps_view(steps@), id@) == Some(steps@[i as int]@),
            None => first_step(steps_view(steps@), id@) is None,
        },
{
    let mut i: usize = 0;
    proof {
        assert(steps_view(steps@).skip(0) =~= steps_view(steps@));
    }
    while i < steps.len()
        invariant
            i <= steps.len(),
            first_step(steps_view(steps@), id@) == first_step(steps_view(steps@).skip(i as int), id@),
        decreases steps.len() - i,
    {
        proof {
            let rest = steps_view(steps@).skip(i as int);
            assert(rest.first() == steps@[i as int]@);
            assert(rest.drop_first() =~= steps_view(steps@).skip(i as int + 1));
        }
        if str_eq(steps[i].id.as_str(), id) {
            return Some(i);
        }
        i += 1;
    }
    None
}

fn known(steps: &Vec<Step>, names: &Vec<String>) -> (ok: bool)
    ensures
        ok == all_steps_known(steps_view(steps@), names_view(names@)),
{
    let mut k: usize = 0;
    while k < names.len()
        invariant
            k <= names.len(),
            forall|j: int| 0 <= j < k ==> has_step(steps_view(steps@), #[trigger] names_view(names@)[j]),
        decreases names.len() - k,
    {
        if find_step(steps, names[k].as_str()).is_none() {
            assert(!has_step(steps_view(steps@), names_view(names@)[k as int]));
            return false;
        }
        k += 1;
    }
    true
}

impl Flow {
    #[verifier::type_invariant]
    spec fn valid(self) -> bool {
        flow_ok(self@)
    }

    /// A flow of the given parts. It is refused, with the code `flow`, unless
    /// each stage runs at least one case at a time and every step that a
    /// stage or the pre-stage names is among `step`.
    pub fn from_parts(
        def: Option<Json>,
        pre: Option<Vec<String>>,
        stage: Vec<Stage>,
        step: Vec<Step>,
    ) -> (r: Result<Flow, ErrorStruct>)
        ensures
            ({
                let parts = FlowView {
                    def: json_option_view(def),
                    pre: names_option_view(pre),
                    stage: stages_view(stage@),
                    step: steps_view(step@),
                };
                match r {
                    Ok(flow) => flow_ok(parts) && flow@ == parts,
                    Err(e) => !flow_ok(parts) && e@.code == "flow"@ && e@.cause is None,
                }
            }),
    {
        let ghost parts = FlowView {
            def: json_option_view(def),
            pre: names_option_view(pre),
            stage: stages_view(stage@),
            step: steps_view(step@),
        };
        let mut s: usize = 0;
        while s < stage.len()
            invariant
                s <= stage.len(),
                parts.stage == stages_view(stage@),
                parts.step == steps_view(step@),
                forall|j: int| 0 <= j < s ==> 1 <= (#[trigger] parts.stage[j]).concurrency <= usize::MAX,
                forall|j: int| 0 <= j < s ==> all_steps_known(parts.step, (#[trigger] parts.stage[j]).step),
            decreases stage.len() - s,
        {
            assert(parts.stage[s as int] == stage@[s as int]@);
            if stage[s].concurrency < 1 {
                return Err(ErrorStruct::new("flow", "a stage's concurrency is 0"));
            }
            if !known(&step, &stage[s].step) {
                return Err(ErrorStruct::new("flow", "a stage names a step that is not defined"));
            }
            s += 1;
        }
        if let Some(names) = &pre {
            if !known(&step, names) {
                return Err(ErrorStruct::new("flow", "the pre-stage names a step that is not defined"));
            }
        }
        proof {
            assert forall|j: int| 0 <= j < parts.stage.len() implies (#[trigger] parts.stage[j]).concurrency
                <= usize::MAX by {
                assert(parts.stage[j] == stage@[j]@);
            }
        }
        Ok(Flow { def, pre, stage, step })
    }

    /// Recalls what makes the flow valid.
    pub fn validity(&self)
        ensures
            flow_ok(self@),
    {
        proof {
            use_type_invariant(self);
        }
    }

    /// The constants of the flow.
    pub fn def(&self) -> (r: Option<&Json>)
        ensures
            match r {
                Some(d) => self@.def == Some(d@),
                None => self@.def is None,
            },
    {
        match &self.def {
            Some(d) => Some(d),
            None => None,
        }
    }

    /// The steps of the pre-stage, if the flow has one.
    pub fn pre_step_id_vec(&self) -> (r: Option<&Vec<String>>)
        ensures
            match r {
                Some(names) => self@.pre == Some(names_view(names@)),
                None => self@.pre is None,
            },
    {
        match &self.pre {
            Some(names) => Some(names),
            None => None,
        }
    }

    /// How many stages the flow has.
    pub fn stage_count(&self) -> (n: usize)
        ensures
            n == self@.stage.len(),
    {
        self.stage.len()
    }

    /// The stage at a position.
    pub fn stage(&self, index: usize) -> (stage: &Stage)
        requires
            index < self@.stage.len(),
        ensures
            stage@ == self@.stage[index as int],
            stage@.concurrency >= 1,
            all_steps_known(self@.step, stage@.step),
    {
        proof {
            use_type_invariant(self);
        }
        &self.stage[index]
    }

    /// The steps that the cases of the flow run: those of the first stage,
    /// then those of the second, and so on.
    pub fn case_step_id_vec(&self) -> (names: Vec<String>)
        ensures
            names_view(names@) == stage_steps(self@.stage),
    {
        let ghost all = self@.stage;
        let mut names: Vec<String> = Vec::new();
        let mut s: usize = 0;
        proof {
            assert(all.take(0) =~= Seq::empty());
            assert(names_view(names@) =~= Seq::empty());
        }
        while s < self.stage.len()
            invariant
                s <= self.stage.len(),
                all == self@.stage,
                all == stages_view(self.stage@),
                names_view(names@) == stage_steps(all.take(s as int)),
            decreases self.stage.len() - s,
        {
            let ghost before = names_view(names@);
            let step = &self.stage[s].step;
            let mut k: usize = 0;
            while k < step.len()
                invariant
                    k <= step.len(),
                    names_view(names@) == before + names_view(step@).take(k as int),
                decreases step.len() - k,
            {
                let ghost had = names_view(names@);
                names.push(step[k].clone());
                proof {
                    assert(names_view(names@) =~= had.push(step@[k as int]@));
                    assert(names_view(step@).take(k as int + 1) =~= names_view(step@).take(k as int).push(
                        step@[k as int]@,
                    ));
                }
                k += 1;
            }
            proof {
                assert(names_view(step@).take(k as int) =~= names_view(step@));
                let next = all.take(s as int + 1);
                assert(next.drop_last() =~= all.take(s as int));
                assert(next.last() == self.stage@[s as int]@);
            }
            s += 1;
        }
        proof {
            assert(all.take(s as int) =~= all);
        }
        names
    }

    /// The step of a name; the first, where several have it.
    pub fn step(&self, id: &str) -> (r: Option<&Step>)
        ensures
            match r {
                Some(step) => first_step(self@.step, id@) == Some(step@),
                None => first_step(self@.step, id@) is None,
            },
    {
        match find_step(&self.step, id) {
            Some(i) => Some(&self.step[i]),
            None => None,
        }
    }
}

} // verus!
