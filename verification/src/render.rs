//! The template evaluator and the namespace that templates read.
//!
//! Templates are Handlebars templates; the `handlebars` crate renders them.
//! What a template renders to is known here only by name, [`rendered`]: a
//! function of the template's text and of the data's JSON text.

use vstd::prelude::*;
use crate::codec::doc_text;
use crate::codec::json_text;
use crate::codec::to_json;
use crate::error::ErrorStruct;
use crate::text::contains;
use crate::text::text_contains;
use crate::value::json_view;
use crate::value::lemma_members_push;
use crate::value::members_view;
use crate::value::Json;
use crate::value::JsonView;

verus! {

/// What a fresh `handlebars::Handlebars` registry in strict mode renders a
/// template to, given data by its compact JSON text: the text, or the
/// message of the `RenderError`.
pub uninterp spec fn rendered(template: Seq<char>, data: Seq<char>) -> Result<Seq<char>, Seq<char>>;

/// `Handlebars::render_template` on a registry made by `Handlebars::new` and
/// switched to strict mode, so that a reference to an undefined variable is
/// an error. The registry holds nothing but the built-in helpers, so the
/// result depends on the template and the data alone.
#[verifier::external_body]
fn render_doc(template: &str, data: &serde_json::Value) -> (r: Result<String, String>)
    ensures
        match r {
            Ok(text) => rendered(template@, doc_text(*data)) == Ok::<Seq<char>, Seq<char>>(text@),
            Err(message) => rendered(template@, doc_text(*data)) == Err::<Seq<char>, Seq<char>>(message@),
        },
{
    let mut registry = handlebars::Handlebars::new();
    registry.set_strict_mode(true);
    match registry.render_template(template, data) {
        Ok(text) => Ok(text),
        Err(e) => Err(e.to_string()),
    }
}

/// What [`render`] returns for a template and data: the text, or the
/// message of the error.
pub open spec fn render_result(template: Seq<char>, data: JsonView) -> Result<Seq<char>, Seq<char>> {
    rendered(template, json_text(data))
}

/// Renders a template against data. A syntax error or a reference to an
/// undefined variable is reported with the code `tpl`.
pub fn render(template: &str, data: &Json) -> (r: Result<String, ErrorStruct>)
    ensures
        match r {
            Ok(text) => render_result(template@, data@) == Ok::<Seq<char>, Seq<char>>(text@),
            Err(e) => render_result(template@, data@) == Err::<Seq<char>, Seq<char>>(e@.message)
                && e@.code == "tpl"@ && e@.cause is None,
        },
{
    let doc = to_json(data);
    match render_doc(template, &doc) {
        Ok(text) => Ok(text),
        Err(message) => Err(ErrorStruct::new("tpl", message.as_str())),
    }
}

/// The template that decides a condition: it renders to `true` where the
/// condition holds and to `false` where it does not.
pub open spec fn condition_template(condition: Seq<char>) -> Seq<char> {
    "{{#if "@ + condition + "}}true{{else}}false{{/if}}"@
}

/// Whether a condition holds of data: whether its template renders to
/// `true`.
pub open spec fn holds(condition: Seq<char>, data: JsonView) -> bool {
    render_result(condition_template(condition), data) == Ok::<Seq<char>, Seq<char>>("true"@)
}

/// Whether what the template of a condition rendered to says that the
/// condition holds: it does where the template rendered, and to `true`.
pub fn is_true(rendered: &Result<String, ErrorStruct>) -> (b: bool)
    ensures
        b == (rendered matches Ok(text) && text@ == "true"@),
{
    match rendered {
        Ok(text) => crate::text::str_eq(text.as_str(), "true"),
        Err(_) => false,
    }
}

/// Decides a condition against data. A condition that cannot be rendered
/// does not hold.
pub fn evaluate(condition: &str, data: &Json) -> (b: bool)
    ensures
        b == holds(condition@, data@),
{
    let mut template = "{{#if ".to_owned();
    template.append(condition);
    template.append("}}true{{else}}false{{/if}}");
    let rendered = render(template.as_str(), data);
    is_true(&rendered)
}

/// Whether a templated text is the same for every case of a task: whether it
/// reads none of the namespaces `case`, `step` and `curr`.
pub open spec fn task_shared(text: Seq<char>) -> bool {
    !text_contains(text, "{{case."@) && !text_contains(text, "{{step."@) && !text_contains(text, "{{curr."@)
}

/// Whether a templated text is the same for every case of a task.
pub fn is_task_shared(text: &str) -> (shared: bool)
    ensures
        shared == task_shared(text@),
{
    if contains(text, "{{case.") {
        return false;
    }
    if contains(text, "{{step.") {
        return false;
    }
    if contains(text, "{{curr.") {
        return false;
    }
    true
}

/// The namespace that templates read: the flow's constants under `def`, the
/// outputs of the pre-stage under `pre`, the current row under `case`, the
/// values of the steps completed so far under `step`, the values registered
/// by name under `dyn`, and `curr`.
#[derive(Debug)]
pub struct RenderContext {
    def: Option<Json>,
    pre: Option<Json>,
    case: Json,
    step: Vec<(String, Json)>,
    dynamic: Vec<(String, Json)>,
    curr: Json,
}

/// The mathematical content of a [`RenderContext`].
pub struct RenderContextView {
    pub def: Option<JsonView>,
    pub pre: Option<JsonView>,
    pub case: JsonView,
    pub step: Seq<(Seq<char>, JsonView)>,
    pub dynamic: Seq<(Seq<char>, JsonView)>,
    pub curr: JsonView,
}

/// The contents of a list of named documents.
pub open spec fn named_view(entries: Seq<(String, Json)>) -> Seq<(Seq<char>, JsonView)> {
    Seq::new(entries.len(), |i: int| (entries[i].0@, json_view(entries[i].1)))
}

/// The object `{"value": v}`.
pub open spec fn value_object(v: JsonView) -> JsonView {
    JsonView::Object(Map::<Seq<char>, JsonView>::empty().insert("value"@, v))
}

/// The object under `step`: each completed step's id bound to
/// `{"value": v}`.
pub open spec fn step_object(step: Seq<(Seq<char>, JsonView)>) -> Map<Seq<char>, JsonView>
    decreases step.len(),
{
    if step.len() == 0 {
        Map::empty()
    } else {
        step_object(step.drop_last()).insert(step.last().0, value_object(step.last().1))
    }
}

/// The object under `dyn`: each registered name bound to its value.
pub open spec fn named_object(entries: Seq<(Seq<char>, JsonView)>) -> Map<Seq<char>, JsonView>
    decreases entries.len(),
{
    if entries.len() == 0 {
        Map::empty()
    } else {
        named_object(entries.drop_last()).insert(entries.last().0, entries.last().1)
    }
}

/// The members of the document that templates are rendered against.
pub open spec fn context_members(c: RenderContextView) -> Map<Seq<char>, JsonView> {
    let base = Map::<Seq<char>, JsonView>::empty().insert("case"@, c.case).insert(
        "step"@,
        JsonView::Object(step_object(c.step)),
    ).insert("dyn"@, JsonView::Object(named_object(c.dynamic))).insert("curr"@, c.curr);
    let with_def = match c.def {
        Some(d) => base.insert("def"@, d),
        None => base,
    };
    match c.pre {
        Some(p) => with_def.insert("pre"@, p),
        None => with_def,
    }
}

/// The document that templates are rendered against.
pub open spec fn context_data(c: RenderContextView) -> JsonView {
    JsonView::Object(context_members(c))
}

impl View for RenderContext {
    type V = RenderContextView;

    closed spec fn view(&self) -> RenderContextView {
        RenderContextView {
            def: match self.def {
                Some(d) => Some(d@),
                None => None,
            },
            pre: match self.pre {
                Some(p) => Some(p@),
                None => None,
            },
            case: self.case@,
            step: named_view(self.step@),
            dynamic: named_view(self.dynamic@),
            curr: self.curr@,
        }
    }
}

fn clone_named(entries: &Vec<(String, Json)>) -> (out: Vec<(String, Json)>)
    ensures
        named_view(out@) == named_view(entries@),
{
    let mut out: Vec<(String, Json)> = Vec::new();
    let mut i: usize = 0;
    while i < entries.len()
        invariant
            i <= entries.len(),
            out.len() == i,
            forall|k: int| 0 <= k < i ==> out@[k].0@ == entries@[k].0@ && json_view(out@[k].1) == json_view(entries@[k].1),
        decreases entries.len() - i,
    {
        out.push((entries[i].0.clone(), entries[i].1.clone()));
        i += 1;
    }
    assert(named_view(out@) =~= named_view(entries@));
    out
}

/// The members of the object under `step`: each name bound to
/// `{"value": v}`.
pub fn step_members(step: &Vec<(String, Json)>) -> (out: Vec<(String, Json)>)
    ensures
        members_view(out@) == step_object(named_view(step@)),
{
    let mut out: Vec<(String, Json)> = Vec::new();
    let mut i: usize = 0;
    while i < step.len()
        invariant
            i <= step.len(),
            members_view(out@) == step_object(named_view(step@).take(i as int)),
        decreases step.len() - i,
    {
        let mut inner: Vec<(String, Json)> = Vec::new();
        let member = ("value".to_owned(), step[i].1.clone());
        proof {
            lemma_members_push(inner@, member);
        }
        inner.push(member);
        let entry = (step[i].0.clone(), Json::Object(inner));
        proof {
            lemma_members_push(out@, entry);
            let s = named_view(step@).take(i as int + 1);
            assert(s.drop_last() =~= named_view(step@).take(i as int));
            assert(s.last() == named_view(step@)[i as int]);
        }
        out.push(entry);
        i += 1;
    }
    assert(named_view(step@).take(i as int) =~= named_view(step@));
    out
}

fn named_members(entries: &Vec<(String, Json)>) -> (out: Vec<(String, Json)>)
    ensures
        members_view(out@) == named_object(named_view(entries@)),
{
    let mut out: Vec<(String, Json)> = Vec::new();
    let mut i: usize = 0;
    while i < entries.len()
        invariant
            i <= entries.len(),
            members_view(out@) == named_object(named_view(entries@).take(i as int)),
        decreases entries.len() - i,
    {
        let entry = (entries[i].0.clone(), entries[i].1.clone());
        proof {
            lemma_members_push(out@, entry);
            let s = named_view(entries@).take(i as int + 1);
            assert(s.drop_last() =~= named_view(entries@).take(i as int));
            assert(s.last() == named_view(entries@)[i as int]);
        }
        out.push(entry);
        i += 1;
    }
    assert(named_view(entries@).take(i as int) =~= named_view(entries@));
    out
}

impl RenderContext {
    /// The namespace at the start of a case: no step has completed, nothing is
    /// registered by name, and `curr` is null.
    pub fn new(def: Option<Json>, pre: Option<Json>, case: Json) -> (c: RenderContext)
        ensures
            c@ == (RenderContextView {
                def: match def {
                    Some(d) => Some(d@),
                    None => None,
                },
                pre: match pre {
                    Some(p) => Some(p@),
                    None => None,
                },
                case: case@,
                step: Seq::empty(),
                dynamic: Seq::empty(),
                curr: JsonView::Null,
            }),
    {
        let c = RenderContext { def, pre, case, step: Vec::new(), dynamic: Vec::new(), curr: Json::Null };
        assert(named_view(c.step@) =~= Seq::empty());
        assert(named_view(c.dynamic@) =~= Seq::empty());
        c
    }

    fn members(&self) -> (out: Vec<(String, Json)>)
        ensures
            members_view(out@) == context_members(self@),
    {
        let mut out: Vec<(String, Json)> = Vec::new();
        let case = ("case".to_owned(), self.case.clone());
        proof {
            lemma_members_push(out@, case);
        }
        out.push(case);
        let step = ("step".to_owned(), Json::Object(step_members(&self.step)));
        proof {
            lemma_members_push(out@, step);
        }
        out.push(step);
        let dynamic = ("dyn".to_owned(), Json::Object(named_members(&self.dynamic)));
        proof {
            lemma_members_push(out@, dynamic);
        }
        out.push(dynamic);
        let curr = ("curr".to_owned(), self.curr.clone());
        proof {
            lemma_members_push(out@, curr);
        }
        out.push(curr);
        if let Some(d) = &self.def {
            let def = ("def".to_owned(), d.clone());
            proof {
                lemma_members_push(out@, def);
            }
            out.push(def);
        }
        if let Some(p) = &self.pre {
            let pre = ("pre".to_owned(), p.clone());
            proof {
                lemma_members_push(out@, pre);
            }
            out.push(pre);
        }
        out
    }

    /// The document that templates are rendered against.
    pub fn data(&self) -> (doc: Json)
        ensures
            doc@ == context_data(self@),
    {
        Json::Object(self.members())
    }

    /// The document that templates are rendered against, with one more
    /// member: `value` under `name`.
    pub fn data_with(&self, name: &str, value: &Json) -> (doc: Json)
        ensures
            doc@ == JsonView::Object(context_members(self@).insert(name@, value@)),
    {
        let mut members = self.members();
        let extra = (name.to_owned(), value.clone());
        proof {
            lemma_members_push(members@, extra);
        }
        members.push(extra);
        Json::Object(members)
    }

    /// Records the value of a step that completed, for the steps after it.
    pub fn register_step(&mut self, step_id: &str, value: &Json)
        ensures
            final(self)@ == (RenderContextView {
                step: old(self)@.step.push((step_id@, value@)),
                ..old(self)@
            }),
    {
        self.step.push((step_id.to_owned(), value.clone()));
        assert(named_view(self.step@) =~= named_view(old(self).step@).push((step_id@, value@)));
    }

    /// Records a value under a name of the `dyn` namespace.
    pub fn register_dynamic(&mut self, name: &str, value: &Json)
        ensures
            final(self)@ == (RenderContextView {
                dynamic: old(self)@.dynamic.push((name@, value@)),
                ..old(self)@
            }),
    {
        self.dynamic.push((name.to_owned(), value.clone()));
        assert(named_view(self.dynamic@) =~= named_view(old(self).dynamic@).push((name@, value@)));
    }

    /// Renders a template against the namespace.
    pub fn render_str(&self, text: &str) -> (r: Result<String, ErrorStruct>)
        ensures
            match r {
                Ok(out) => render_result(text@, context_data(self@)) == Ok::<Seq<char>, Seq<char>>(out@),
                Err(e) => render_result(text@, context_data(self@)) == Err::<Seq<char>, Seq<char>>(
                    e@.message,
                ) && e@.code == "tpl"@ && e@.cause is None,
            },
    {
        let data = self.data();
        render(text, &data)
    }

    /// Decides a condition against the namespace, with `value` bound under
    /// `name` where one is given.
    pub fn evaluate_boolean(&self, expression: &str, extra: Option<(&str, &Json)>) -> (b: bool)
        ensures
            b == holds(
                expression@,
                match extra {
                    Some(binding) => JsonView::Object(context_members(self@).insert(binding.0@, binding.1@)),
                    None => context_data(self@),
                },
            ),
    {
        let data = match extra {
            Some(binding) => self.data_with(binding.0, binding.1),
            None => self.data(),
        };
        evaluate(expression, &data)
    }
}

impl Clone for RenderContext {
    fn clone(&self) -> (c: RenderContext)
        ensures
            c@ == self@,
    {
        RenderContext {
            def: match &self.def {
                Some(d) => Some(d.clone()),
                None => None,
            },
            pre: match &self.pre {
                Some(p) => Some(p.clone()),
                None => None,
            },
            case: self.case.clone(),
            step: clone_named(&self.step),
            dynamic: clone_named(&self.dynamic),
            curr: self.curr.clone(),
        }
    }
}

} // verus!
