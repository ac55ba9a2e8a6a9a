//! What a front end over HTTP answers with when a request is refused.

use vstd::prelude::*;
use crate::error::ErrorStruct;
use crate::flow::names_view;
use crate::value::lemma_members_push;
use crate::value::Json;
use crate::value::JsonView;

verus! {

/// What is wrong with a value that was checked: for each of its fields
/// that is wrong, what is wrong with it.
#[derive(Debug)]
pub struct Violations {
    pub fields: Vec<(String, Violation)>,
}

/// What is wrong with a field.
#[derive(Debug)]
pub enum Violation {
    /// The field itself: the messages of the checks that it fails.
    Field(Vec<String>),
    /// The value in the field.
    Struct(Box<Violations>),
    /// Items of the list in the field, each by its position.
    List(Vec<(usize, Violations)>),
}

/// The line of a message about a field: `[<field>] <message>`.
pub open spec fn line(field: Seq<char>, message: Seq<char>) -> Seq<char> {
    "["@ + field + "] "@ + message
}

/// The lines of the messages about a field.
pub open spec fn field_lines(field: Seq<char>, messages: Seq<String>) -> Seq<Seq<char>> {
    Seq::new(messages.len(), |i: int| line(field, messages[i]@))
}

/// The lines of what is wrong with the items of a list, item after item.
pub open spec fn item_lines(items: Seq<(usize, Violations)>) -> Seq<Seq<char>>
    decreases items,
{
    if items.len() == 0 {
        Seq::empty()
    } else {
        item_lines(items.drop_last()) + lines(items.last().1)
    }
}

/// The lines of what is wrong with a field.
pub open spec fn violation_lines(field: Seq<char>, violation: Violation) -> Seq<Seq<char>>
    decreases violation,
{
    match violation {
        Violation::Field(messages) => field_lines(field, messages@),
        Violation::Struct(inner) => lines(*inner),
        Violation::List(items) => item_lines(items@),
    }
}

/// The lines of what is wrong with fields, field after field.
pub open spec fn fields_lines(fields: Seq<(String, Violation)>) -> Seq<Seq<char>>
    decreases fields,
{
    if fields.len() == 0 {
        Seq::empty()
    } else {
        fields_lines(fields.drop_last()) + violation_lines(fields.last().0@, fields.last().1)
    }
}

/// The lines of what is wrong with a value: those of its fields in order,
/// with those of the values and lists in them in their place.
pub open spec fn lines(violations: Violations) -> Seq<Seq<char>>
    decreases violations,
{
    fields_lines(violations.fields@)
}

fn append_all(out: &mut Vec<String>, more: Vec<String>)
    ensures
        names_view(final(out)@) == names_view(old(out)@) + names_view(more@),
{
    let ghost first = names_view(out@);
    let mut i: usize = 0;
    proof {
        assert(names_view(out@) =~= first + names_view(more@).take(0));
    }
    while i < more.len()
        invariant
            i <= more.len(),
            names_view(out@) == first + names_view(more@).take(i as int),
        decreases more.len() - i,
    {
        let ghost before = names_view(out@);
        out.push(more[i].clone());
        proof {
            assert(names_view(out@) =~= before.push(more@[i as int]@));
            assert(names_view(more@).take(i as int + 1) =~= names_view(more@).take(i as int).push(
                more@[i as int]@,
            ));
        }
        i += 1;
    }
    proof {
        assert(names_view(more@).take(i as int) =~= names_view(more@));
    }
}

/// The lines of what is wrong with a value.
#[verifier::loop_isolation(false)]
pub fn validator_error_json_nested(e: &Violations) -> (out: Vec<String>)
    ensures
        names_view(out@) == lines(*e),
    decreases e,
{
    let mut out: Vec<String> = Vec::new();
    let fields = &e.fields;
    let mut i: usize = 0;
    proof {
        assert(names_view(out@) =~= fields_lines(fields@.take(0)));
    }
    while i < fields.len()
        invariant
            i <= fields.len(),
            names_view(out@) == fields_lines(fields@.take(i as int)),
        decreases fields.len() - i,
    {
        proof {
            let next = fields@.take(i as int + 1);
            assert(next.drop_last() =~= fields@.take(i as int));
            assert(next.last() == fields@[i as int]);
        }
        let name = fields[i].0.as_str();
        let ghost start = names_view(out@);
        match &fields[i].1 {
            Violation::Field(messages) => {
                let ghost before = names_view(out@);
                let mut k: usize = 0;
                while k < messages.len()
                    invariant
                        k <= messages.len(),
                        names_view(out@) == before + field_lines(name@, messages@).take(k as int),
                    decreases messages.len() - k,
                {
                    let mut text = "[".to_owned();
                    text.append(name);
                    text.append("] ");
                    text.append(messages[k].as_str());
                    let ghost had = names_view(out@);
                    out.push(text);
                    proof {
                        assert(names_view(out@) =~= had.push(line(name@, messages@[k as int]@)));
                        assert(field_lines(name@, messages@).take(k as int + 1) =~= field_lines(
                            name@,
                            messages@,
                        ).take(k as int).push(line(name@, messages@[k as int]@)));
                    }
                    k += 1;
                }
                proof {
                    assert(field_lines(name@, messages@).take(k as int) =~= field_lines(name@, messages@));
                    assert(names_view(out@) == start + violation_lines(name@, fields@[i as int].1));
                }
            },
            Violation::Struct(inner) => {
                let more = validator_error_json_nested(inner);
                append_all(&mut out, more);
                proof {
                    assert(names_view(out@) == start + violation_lines(name@, fields@[i as int].1));
                }
            },
            Violation::List(items) => {
                let ghost before = names_view(out@);
                let mut k: usize = 0;
                proof {
                    assert(names_view(out@) =~= before + item_lines(items@.take(0)));
                }
                while k < items.len()
                    invariant
                        k <= items.len(),
                        names_view(out@) == before + item_lines(items@.take(k as int)),
                    decreases items.len() - k,
                {
                    proof {
                        let next = items@.take(k as int + 1);
                        assert(next.drop_last() =~= items@.take(k as int));
                        assert(next.last() == items@[k as int]);
                    }
                    let more = validator_error_json_nested(&items[k].1);
                    let ghost had = names_view(out@);
                    append_all(&mut out, more);
                    proof {
                        assert(had + names_view(more@) =~= before + item_lines(items@.take(k as int + 1)));
                    }
                    k += 1;
                }
                proof {
                    assert(items@.take(k as int) =~= items@);
                    assert(names_view(out@) == start + violation_lines(name@, fields@[i as int].1));
                }
            },
        }
        i += 1;
    }
    proof {
        assert(fields@.take(i as int) =~= fields@);
    }
    out
}

/// The body `{"code": <code>, "message": <message>}`.
pub open spec fn error_body(code: Seq<char>, message: Seq<char>) -> JsonView {
    JsonView::Object(
        Map::<Seq<char>, JsonView>::empty().insert("code"@, JsonView::Str(code)).insert(
            "message"@,
            JsonView::Str(message),
        ),
    )
}

fn body(code: &str, message: &str) -> (v: Json)
    ensures
        v@ == error_body(code@, message@),
{
    let mut members: Vec<(String, Json)> = Vec::new();
    let first = ("code".to_owned(), Json::String(code.to_owned()));
    proof {
        lemma_members_push(members@, first);
    }
    members.push(first);
    let second = ("message".to_owned(), Json::String(message.to_owned()));
    proof {
        lemma_members_push(members@, second);
    }
    members.push(second);
    Json::Object(members)
}

/// The body that tells of an error.
pub fn common_error_json(e: &ErrorStruct) -> (v: Json)
    ensures
        v@ == error_body(e@.code, e@.message),
{
    body(e.get_code(), e.get_message())
}

/// The body that tells of a request that was refused when it was checked:
/// the code `400`, and the last line of what is wrong with it. `None` where
/// nothing is wrong.
pub fn validator_error_json(e: &Violations) -> (r: Option<Json>)
    ensures
        match r {
            Some(v) => lines(*e).len() > 0 && v@ == error_body("400"@, lines(*e).last()),
            None => lines(*e).len() == 0,
        },
{
    let all = validator_error_json_nested(e);
    let n = all.len();
    if n == 0 {
        None
    } else {
        assert(names_view(all@).last() == all@[n - 1]@);
        Some(body("400", all[n - 1].as_str()))
    }
}

} // verus!
