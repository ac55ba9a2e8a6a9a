//! The flow as a document: what a document has to hold to be a flow, and
//! the flow that it is.
//!
//! ```text
//! def:   any                      constants, optional
//! pre:   [step, ...]              the steps of the pre-stage, optional
//! stage: [{id, step: [step, ...], duration, concurrency, round,
//!          break_on, case_filter}, ...]
//! step:  {<step>: {action, timeout, config, assert, dyn}, ...}
//! ```
//!
//! `duration` and `timeout` are seconds. `concurrency` and `round` are 1
//! where they are left out; `break_on` is `never` or `stage_fail`, and
//! `never` where it is left out.

use vstd::prelude::*;
use crate::conf::has_member;
use crate::conf::lemma_member_exists;
use crate::conf::member;
use crate::error::ErrorStruct;
use crate::flow::first_step;
use crate::flow::flow_ok;
use crate::flow::has_step;
use crate::flow::names_view;
use crate::flow::stages_view;
use crate::flow::steps_view;
use crate::flow::BreakOn;
use crate::flow::Flow;
use crate::flow::FlowView;
use crate::flow::Stage;
use crate::flow::StageView;
use crate::flow::Step;
use crate::flow::StepView;
use crate::text::str_eq;
use crate::value::find_member;
use crate::value::items_view;
use crate::value::lemma_items_index;
use crate::value::members_view;
use crate::value::Json;
use crate::value::JsonView;

verus! {

/// The text under a key that may be left out: `Some(None)` where the member
/// is absent or null, `None` where it is anything but a string.
pub open spec fn optional_text(v: JsonView, key: Seq<char>) -> Option<Option<Seq<char>>> {
    match member(v, key) {
        JsonView::Null => Some(None),
        JsonView::Str(s) => Some(Some(s)),
        _ => None,
    }
}

/// The whole number under a key, from `least` to `most`; `or` where the
/// member is absent or null and `or` is given; `None` where it is anything
/// else.
pub open spec fn number(v: JsonView, key: Seq<char>, least: int, most: int, or: Option<int>) -> Option<int> {
    match member(v, key) {
        JsonView::Null => or,
        JsonView::Int(n) => if least <= n <= most {
            Some(n)
        } else {
            None
        },
        _ => None,
    }
}

/// The names that an array of strings lists.
pub open spec fn names_of(v: JsonView) -> Option<Seq<Seq<char>>> {
    match v {
        JsonView::Array(items) => if forall|i: int| 0 <= i < items.len() ==> (#[trigger] items[i]) is Str {
            Some(Seq::new(items.len(), |i: int| items[i]->Str_0))
        } else {
            None
        },
        _ => None,
    }
}

/// What a stage's failure does, as the member `break_on` says it.
pub open spec fn break_of(v: JsonView) -> Option<BreakOn> {
    match member(v, "break_on"@) {
        JsonView::Null => Some(BreakOn::Never),
        JsonView::Str(s) => if s == "never"@ {
            Some(BreakOn::Never)
        } else if s == "stage_fail"@ {
            Some(BreakOn::StageFail)
        } else {
            None
        },
        _ => None,
    }
}

/// The stage that a document is, if it is one.
pub open spec fn stage_of(v: JsonView) -> Option<StageView> {
    match (
        member(v, "id"@),
        names_of(member(v, "step"@)),
        number(v, "concurrency"@, 1, usize::MAX as int, Some(1)),
        number(v, "round"@, 0, usize::MAX as int, Some(1)),
        number(v, "duration"@, 0, u64::MAX as int, None),
        break_of(v),
        optional_text(v, "case_filter"@),
    ) {
        (
            JsonView::Str(id),
            Some(step),
            Some(concurrency),
            Some(round),
            Some(duration),
            Some(break_on),
            Some(case_filter),
        ) => Some(
            StageView {
                id,
                step,
                concurrency: concurrency as nat,
                round: round as nat,
                duration: duration as nat,
                break_on,
                case_filter,
            },
        ),
        _ => None,
    }
}

/// The step that a document is under a name, if it is one.
pub open spec fn step_of(id: Seq<char>, v: JsonView) -> Option<StepView> {
    match (
        member(v, "action"@),
        number(v, "timeout"@, 0, u64::MAX as int, None),
        optional_text(v, "assert"@),
        optional_text(v, "dyn"@),
    ) {
        (JsonView::Str(action), Some(timeout), Some(condition), Some(dynamic)) => Some(
            StepView { id, action, config: member(v, "config"@), condition, timeout: timeout as nat, dynamic },
        ),
        _ => None,
    }
}

/// The stages that an array of documents lists, if each is one.
pub open spec fn stages_of(v: JsonView) -> Option<Seq<StageView>> {
    match v {
        JsonView::Array(items) => if forall|i: int| 0 <= i < items.len() ==> stage_of(#[trigger] items[i]) is Some {
            Some(Seq::new(items.len(), |i: int| stage_of(items[i])->Some_0))
        } else {
            None
        },
        _ => None,
    }
}

/// Whether the members of an object are steps, each under its name.
pub open spec fn steps_ok(v: JsonView) -> bool {
    v matches JsonView::Object(m) && forall|id: Seq<char>| m.contains_key(id) ==> step_of(id, #[trigger] m[id]) is Some
}

/// The step that a flow's document defines under a name.
pub open spec fn defined_step(doc: JsonView, id: Seq<char>) -> Option<StepView> {
    if has_member(member(doc, "step"@), id) {
        step_of(id, member(member(doc, "step"@), id))
    } else {
        None
    }
}

/// The steps of the pre-stage that a flow's document lists; `Some(None)`
/// where it has no pre-stage.
pub open spec fn pre_of(doc: JsonView) -> Option<Option<Seq<Seq<char>>>> {
    match member(doc, "pre"@) {
        JsonView::Null => Some(None),
        v => match names_of(v) {
            Some(names) => Some(Some(names)),
            None => None,
        },
    }
}

/// The constants that a flow's document holds.
pub open spec fn def_of(doc: JsonView) -> Option<JsonView> {
    match member(doc, "def"@) {
        JsonView::Null => None,
        v => Some(v),
    }
}

/// Whether every name in a list is defined by a flow's document.
pub open spec fn all_defined(doc: JsonView, names: Seq<Seq<char>>) -> bool {
    forall|k: int| 0 <= k < names.len() ==> has_member(member(doc, "step"@), #[trigger] names[k])
}

/// Whether a document is a flow: its parts are as they should be, and every
/// step that a stage or the pre-stage names is defined.
pub open spec fn is_flow(doc: JsonView) -> bool {
    &&& stages_of(member(doc, "stage"@)) is Some
    &&& steps_ok(member(doc, "step"@))
    &&& pre_of(doc) is Some
    &&& forall|s: int|
        0 <= s < stages_of(member(doc, "stage"@))->Some_0.len() ==> all_defined(
            doc,
            (#[trigger] stages_of(member(doc, "stage"@))->Some_0[s]).step,
        )
    &&& pre_of(doc)->Some_0 matches Some(names) ==> all_defined(doc, names)
}

fn text_or_none(v: &Json, key: &str) -> (r: Option<Option<String>>)
    ensures
        match r {
            Some(t) => optional_text(v@, key@) == Some(crate::flow::text_option_view(t)),
            None => optional_text(v@, key@) is None,
        },
{
    match v.get(key) {
        None => Some(None),
        Some(Json::Null) => Some(None),
        Some(Json::String(s)) => Some(Some(s.clone())),
        Some(_) => None,
    }
}

fn whole(v: &Json, key: &str, least: u64, most: u64, or: Option<u64>) -> (r: Option<u64>)
    ensures
        match r {
            Some(n) => number(
                v@,
                key@,
                least as int,
                most as int,
                match or {
                    Some(d) => Some(d as int),
                    None => None,
                },
            ) == Some(n as int),
            None => number(
                v@,
                key@,
                least as int,
                most as int,
                match or {
                    Some(d) => Some(d as int),
                    None => None,
                },
            ) is None,
        },
{
    match v.get(key) {
        None => or,
        Some(Json::Null) => or,
        Some(found) => match found.as_u64() {
            Some(n) => if least <= n && n <= most {
                Some(n)
            } else {
                None
            },
            None => None,
        },
    }
}

fn names(v: &Json) -> (r: Option<Vec<String>>)
    ensures
        match r {
            Some(list) => names_of(v@) == Some(names_view(list@)),
            None => names_of(v@) is None,
        },
{
    match v.as_array() {
        Some(items) => {
            let ghost all = items_view(items@);
            let mut list: Vec<String> = Vec::new();
            let mut i: usize = 0;
            while i < items.len()
                invariant
                    i <= items.len(),
                    list.len() == i,
                    all == items_view(items@),
                    v@ == JsonView::Array(all),
                    forall|k: int| 0 <= k < i ==> (#[trigger] all[k]) == JsonView::Str(list@[k]@),
                decreases items.len() - i,
            {
                proof {
                    lemma_items_index(items@, i as int);
                }
                match items[i].as_str() {
                    Some(s) => {
                        list.push(s.to_owned());
                    },
                    None => {
                        assert(!(all[i as int] is Str));
                        return None;
                    },
                }
                i += 1;
            }
            proof {
                crate::value::lemma_items_len(items@);
                assert(names_view(list@) =~= Seq::new(all.len(), |i: int| all[i]->Str_0));
            }
            Some(list)
        },
        None => None,
    }
}

fn break_on(v: &Json) -> (r: Option<BreakOn>)
    ensures
        r == break_of(v@),
{
    match v.get("break_on") {
        None => Some(BreakOn::Never),
        Some(Json::Null) => Some(BreakOn::Never),
        Some(Json::String(s)) => if str_eq(s.as_str(), "never") {
            Some(BreakOn::Never)
        } else if str_eq(s.as_str(), "stage_fail") {
            Some(BreakOn::StageFail)
        } else {
            None
        },
        Some(_) => None,
    }
}

fn stage(v: &Json) -> (r: Option<Stage>)
    ensures
        match r {
            Some(stage) => stage_of(v@) == Some(stage@),
            None => stage_of(v@) is None,
        },
{
    let id = match v.get("id") {
        Some(Json::String(s)) => s.clone(),
        _ => {
            return None;
        },
    };
    let null = Json::Null;
    let step = match names(
        match v.get("step") {
            Some(list) => list,
            None => &null,
        },
    ) {
        Some(step) => step,
        None => {
            return None;
        },
    };
    let concurrency = match whole(v, "concurrency", 1, usize::MAX as u64, Some(1)) {
        Some(n) => n as usize,
        None => {
            return None;
        },
    };
    let round = match whole(v, "round", 0, usize::MAX as u64, Some(1)) {
        Some(n) => n as usize,
        None => {
            return None;
        },
    };
    let duration = match whole(v, "duration", 0, u64::MAX, None) {
        Some(n) => n,
        None => {
            return None;
        },
    };
    let break_on = match break_on(v) {
        Some(b) => b,
        None => {
            return None;
        },
    };
    let case_filter = match text_or_none(v, "case_filter") {
        Some(f) => f,
        None => {
            return None;
        },
    };
    Some(Stage { id, step, concurrency, round, duration, break_on, case_filter })
}

fn step(id: &str, v: &Json) -> (r: Option<Step>)
    ensures
        match r {
            Some(step) => step_of(id@, v@) == Some(step@),
            None => step_of(id@, v@) is None,
        },
{
    let action = match v.get("action") {
        Some(Json::String(s)) => s.clone(),
        _ => {
            return None;
        },
    };
    let timeout = match whole(v, "timeout", 0, u64::MAX, None) {
        Some(n) => n,
        None => {
            return None;
        },
    };
    let condition = match text_or_none(v, "assert") {
        Some(c) => c,
        None => {
            return None;
        },
    };
    let dynamic = match text_or_none(v, "dyn") {
        Some(d) => d,
        None => {
            return None;
        },
    };
    let config = match v.get("config") {
        Some(c) => c.clone(),
        None => Json::Null,
    };
    Some(Step { id: id.to_owned(), action, config, condition, timeout, dynamic })
}

fn stages(v: &Json) -> (r: Option<Vec<Stage>>)
    ensures
        match r {
            Some(list) => stages_of(v@) == Some(stages_view(list@)),
            None => stages_of(v@) is None,
        },
{
    match v.as_array() {
        Some(items) => {
            let ghost all = items_view(items@);
            let mut list: Vec<Stage> = Vec::new();
            let mut i: usize = 0;
            while i < items.len()
                invariant
                    i <= items.len(),
                    list.len() == i,
                    all == items_view(items@),
                    v@ == JsonView::Array(all),
                    forall|k: int| 0 <= k < i ==> stage_of(#[trigger] all[k]) == Some(list@[k]@),
                decreases items.len() - i,
            {
                proof {
                    lemma_items_index(items@, i as int);
                }
                match stage(&items[i]) {
                    Some(s) => {
                        list.push(s);
                    },
                    None => {
                        assert(stage_of(all[i as int]) is None);
                        return None;
                    },
                }
                i += 1;
            }
            proof {
                crate::value::lemma_items_len(items@);
                assert(stages_view(list@) =~= Seq::new(all.len(), |i: int| stage_of(all[i])->Some_0));
            }
            Some(list)
        },
        None => None,
    }
}

/// Whether a list of steps has one of the given name.
pub open spec fn names_step(steps: Seq<Step>, id: Seq<char>) -> bool {
    exists|j: int| 0 <= j < steps.len() && (#[trigger] steps[j]).id@ == id
}

fn lists(steps: &Vec<Step>, id: &str) -> (b: bool)
    ensures
        b == names_step(steps@, id@),
{
    let mut j: usize = 0;
    while j < steps.len()
        invariant
            j <= steps.len(),
            forall|k: int| 0 <= k < j ==> (#[trigger] steps@[k]).id@ != id@,
        decreases steps.len() - j,
    {
        if str_eq(steps[j].id.as_str(), id) {
            return true;
        }
        j += 1;
    }
    false
}

/// In a list of steps no two of which have the same name, the first step
/// of a name is the step of that name.
pub proof fn lemma_first_step_unique(steps: Seq<Step>, j: int)
    requires
        0 <= j < steps.len(),
        forall|a: int, b: int| 0 <= a < b < steps.len() ==> (#[trigger] steps[a]).id@ != (#[trigger] steps[b]).id@,
    ensures
        first_step(steps_view(steps), steps[j].id@) == Some(steps[j]@),
    decreases steps.len(),
{
    let views = steps_view(steps);
    assert(views.first() == steps[0]@);
    if j > 0 {
        assert(steps[0].id@ != steps[j].id@);
        let rest = steps.subrange(1, steps.len() as int);
        assert(views.drop_first() =~= steps_view(rest));
        assert forall|a: int, b: int| 0 <= a < b < rest.len() implies (#[trigger] rest[a]).id@ != (
        #[trigger] rest[b]).id@ by {
            assert(rest[a] == steps[a + 1] && rest[b] == steps[b + 1]);
        }
        assert(rest[j - 1] == steps[j]);
        lemma_first_step_unique(rest, j - 1);
    }
}

/// A list of steps has no first step of a name that none of them has.
pub proof fn lemma_first_step_none(steps: Seq<Step>, id: Seq<char>)
    requires
        !names_step(steps, id),
    ensures
        first_step(steps_view(steps), id) is None,
    decreases steps.len(),
{
    let views = steps_view(steps);
    if steps.len() > 0 {
        assert(views.first() == steps[0]@);
        assert(steps[0].id@ != id);
        let rest = steps.subrange(1, steps.len() as int);
        assert(views.drop_first() =~= steps_view(rest));
        assert forall|j: int| 0 <= j < rest.len() implies (#[trigger] rest[j]).id@ != id by {
            assert(rest[j] == steps[j + 1]);
        }
        lemma_first_step_none(rest, id);
    }
}

fn steps(v: &Json) -> (r: Option<Vec<Step>>)
    ensures
        match r {
            Some(list) => steps_ok(v@) && forall|id: Seq<char>|
                first_step(steps_view(list@), id) == (if has_member(v@, id) {
                    step_of(id, member(v@, id))
                } else {
                    None
                }),
            None => !steps_ok(v@),
        },
{
    let members = match v.as_object() {
        Some(members) => members,
        None => {
            return None;
        },
    };
    let ghost m = members_view(members@);
    let mut list: Vec<Step> = Vec::new();
    let mut i: usize = 0;
    while i < members.len()
        invariant
            i <= members.len(),
            m == members_view(members@),
            v@ == JsonView::Object(m),
            forall|j: int|
                0 <= j < list.len() ==> m.contains_key((#[trigger] list@[j]).id@) && step_of(
                    list@[j].id@,
                    m[list@[j].id@],
                ) == Some(list@[j]@),
            forall|a: int, b: int| 0 <= a < b < list.len() ==> (#[trigger] list@[a]).id@ != (#[trigger] list@[b]).id@,
            forall|k: int| 0 <= k < i ==> names_step(list@, (#[trigger] members@[k]).0@),
        decreases members.len() - i,
    {
        let key = members[i].0.as_str();
        if !lists(&list, key) {
            let ghost before = list@;
            match find_member(members, key) {
                Some(found) => match step(key, found) {
                    Some(s) => {
                        list.push(s);
                    },
                    None => {
                        return None;
                    },
                },
                None => {
                    proof {
                        crate::value::lemma_member_bound(members@, i as int);
                    }
                    return None;
                },
            }
            proof {
                let at = before.len() as int;
                assert(list@[at].id@ == key@);
                assert forall|a: int, b: int| 0 <= a < b < list@.len() implies (#[trigger] list@[a]).id@ != (
                #[trigger] list@[b]).id@ by {
                    if b == at {
                        assert(before[a] == list@[a]);
                    } else {
                        assert(before[a] == list@[a] && before[b] == list@[b]);
                    }
                }
                assert forall|k: int| 0 <= k < i + 1 implies names_step(list@, (#[trigger] members@[k]).0@) by {
                    if k < i {
                        let j = choose|j: int| 0 <= j < before.len() && (#[trigger] before[j]).id@ == members@[k].0@;
                        assert(list@[j] == before[j]);
                    }
                }
                assert forall|j: int| 0 <= j < list@.len() implies m.contains_key((#[trigger] list@[j]).id@)
                    && step_of(list@[j].id@, m[list@[j].id@]) == Some(list@[j]@) by {
                    if j < at {
                        assert(before[j] == list@[j]);
                    }
                }
            }
        }
        i += 1;
    }
    proof {
        assert forall|id: Seq<char>| m.contains_key(id) implies step_of(id, #[trigger] m[id]) is Some by {
            lemma_member_exists(members@, id);
            let k = choose|k: int| 0 <= k < members@.len() && (#[trigger] members@[k]).0@ == id;
            assert(names_step(list@, members@[k].0@));
            let j = choose|j: int| 0 <= j < list@.len() && (#[trigger] list@[j]).id@ == id;
            assert(step_of(list@[j].id@, m[list@[j].id@]) == Some(list@[j]@));
        }
        assert forall|id: Seq<char>|
            first_step(steps_view(list@), id) == (if has_member(v@, id) {
                step_of(id, member(v@, id))
            } else {
                None
            }) by {
            if names_step(list@, id) {
                let j = choose|j: int| 0 <= j < list@.len() && (#[trigger] list@[j]).id@ == id;
                lemma_first_step_unique(list@, j);
            } else {
                lemma_first_step_none(list@, id);
                if m.contains_key(id) {
                    lemma_member_exists(members@, id);
                    let k = choose|k: int| 0 <= k < members@.len() && (#[trigger] members@[k]).0@ == id;
                    assert(names_step(list@, members@[k].0@));
                }
            }
        }
    }
    Some(list)
}

/// Where a flow has the steps that its document defines, the names that
/// the flow knows are those that the document defines.
pub proof fn lemma_known_is_defined(doc: JsonView, steps: Seq<StepView>, names: Seq<Seq<char>>)
    requires
        steps_ok(member(doc, "step"@)),
        forall|id: Seq<char>| first_step(steps, id) == defined_step(doc, id),
    ensures
        crate::flow::all_steps_known(steps, names) == all_defined(doc, names),
{
    if all_defined(doc, names) {
        assert forall|k: int| 0 <= k < names.len() implies has_step(steps, #[trigger] names[k]) by {
            assert(has_member(member(doc, "step"@), names[k]));
            assert(first_step(steps, names[k]) == defined_step(doc, names[k]));
        }
    }
    if crate::flow::all_steps_known(steps, names) {
        assert forall|k: int| 0 <= k < names.len() implies has_member(
            member(doc, "step"@),
            #[trigger] names[k],
        ) by {
            assert(has_step(steps, names[k]));
            assert(first_step(steps, names[k]) == defined_step(doc, names[k]));
        }
    }
}

fn refuse(message: &str) -> (e: ErrorStruct)
    ensures
        e@.code == "flow"@,
        e@.cause is None,
{
    ErrorStruct::new("flow", message)
}

impl Flow {
    /// The flow that a document is. A document that is no flow is refused
    /// with the code `flow`.
    pub fn new(doc: &Json) -> (r: Result<Flow, ErrorStruct>)
        ensures
            match r {
                Ok(flow) => {
                    &&& is_flow(doc@)
                    &&& flow@.def == def_of(doc@)
                    &&& flow@.pre == pre_of(doc@)->Some_0
                    &&& flow@.stage == stages_of(member(doc@, "stage"@))->Some_0
                    &&& forall|id: Seq<char>| first_step(flow@.step, id) == defined_step(doc@, id)
                },
                Err(e) => !is_flow(doc@) && e@.code == "flow"@ && e@.cause is None,
            },
    {
        let null = Json::Null;
        let stage = match stages(
            match doc.get("stage") {
                Some(v) => v,
                None => &null,
            },
        ) {
            Some(stage) => stage,
            None => {
                return Err(refuse("`stage` is not a list of stages"));
            },
        };
        let step = match steps(
            match doc.get("step") {
                Some(v) => v,
                None => &null,
            },
        ) {
            Some(step) => step,
            None => {
                return Err(refuse("`step` is not a map of steps"));
            },
        };
        let pre = match doc.get("pre") {
            None => None,
            Some(Json::Null) => None,
            Some(v) => match names(v) {
                Some(list) => Some(list),
                None => {
                    return Err(refuse("`pre` is not a list of steps"));
                },
            },
        };
        let def = match doc.get("def") {
            None => None,
            Some(Json::Null) => None,
            Some(v) => Some(v.clone()),
        };
        let ghost parts = FlowView {
            def: crate::flow::json_option_view(def),
            pre: crate::flow::names_option_view(pre),
            stage: stages_view(stage@),
            step: steps_view(step@),
        };
        let count = stage.len();
        proof {
            assert(parts.stage.len() == count);
            assert forall|s: int| 0 <= s < parts.stage.len() implies 1 <= (#[trigger] parts.stage[s]).concurrency
                <= usize::MAX by {
                assert(parts.stage[s] == stage@[s]@);
            }
            if is_flow(doc@) {
                assert forall|s: int| 0 <= s < parts.stage.len() implies crate::flow::all_steps_known(
                    parts.step,
                    (#[trigger] parts.stage[s]).step,
                ) by {
                    assert(all_defined(doc@, stages_of(member(doc@, "stage"@))->Some_0[s].step));
                    lemma_known_is_defined(doc@, parts.step, parts.stage[s].step);
                }
                if let Some(names) = parts.pre {
                    lemma_known_is_defined(doc@, parts.step, names);
                }
                assert(flow_ok(parts));
            }
            if flow_ok(parts) {
                assert forall|s: int| 0 <= s < parts.stage.len() implies all_defined(
                    doc@,
                    (#[trigger] stages_of(member(doc@, "stage"@))->Some_0[s]).step,
                ) by {
                    assert(crate::flow::all_steps_known(parts.step, parts.stage[s].step));
                    lemma_known_is_defined(doc@, parts.step, parts.stage[s].step);
                }
                if let Some(names) = parts.pre {
                    lemma_known_is_defined(doc@, parts.step, names);
                }
                assert(is_flow(doc@));
            }
        }
        match Flow::from_parts(def, pre, stage, step) {
            Ok(flow) => Ok(flow),
            Err(_) => Err(refuse("a step that is named is not defined")),
        }
    }
}

} // verus!
