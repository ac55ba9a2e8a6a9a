//! The action that calls a JSON API over HTTP: the request it makes, and
//! the value it makes of the response.

use vstd::prelude::*;
use crate::action::redis::rendered_member;
use crate::action::redis::rendered_text;
use crate::conf::member;
use crate::error::ErrorStruct;
use crate::error::ErrorView;
use crate::render::context_data;
use crate::render::render_result;
use crate::step::RunArgStruct;
use crate::value::lemma_members_push;
use crate::value::members_view;
use crate::value::Json;
use crate::value::JsonView;
use crate::value::Number;

verus! {

/// The error of a header whose value is no string.
pub open spec fn header_error() -> ErrorView {
    ErrorView { code: "031"@, message: "invalid header value"@, cause: None }
}

/// The headers that a request carries, each name and value rendered, or
/// the first error on the way.
pub open spec fn rendered_headers(members: Seq<(Seq<char>, JsonView)>, data: JsonView) -> Result<
    Seq<(Seq<char>, Seq<char>)>,
    ErrorView,
>
    decreases members.len(),
{
    if members.len() == 0 {
        Ok(Seq::empty())
    } else {
        match rendered_headers(members.drop_last(), data) {
            Err(e) => Err(e),
            Ok(head) => match render_result(members.last().0, data) {
                Err(message) => Err(ErrorView { code: "tpl"@, message, cause: None }),
                Ok(name) => match members.last().1 {
                    JsonView::Str(template) => match render_result(template, data) {
                        Err(message) => Err(ErrorView { code: "tpl"@, message, cause: None }),
                        Ok(value) => Ok(head.push((name, value))),
                    },
                    _ => Err(header_error()),
                },
            },
        }
    }
}

/// Where the first headers of a list cannot be rendered, the list cannot,
/// for the same reason.
pub proof fn lemma_headers_prefix(members: Seq<(Seq<char>, JsonView)>, data: JsonView, n: int)
    requires
        0 <= n <= members.len(),
        rendered_headers(members.take(n), data) is Err,
    ensures
        rendered_headers(members, data) == rendered_headers(members.take(n), data),
    decreases members.len() - n,
{
    if n < members.len() {
        assert(members.take(n + 1).drop_last() =~= members.take(n));
        lemma_headers_prefix(members, data, n + 1);
    } else {
        assert(members.take(n) =~= members);
    }
}

/// The headers that a list of members asks for, each name and value
/// rendered against the namespace of the case. A value that is no string is
/// refused with the code `031`.
pub fn headers(arg: &RunArgStruct, members: &Vec<(String, Json)>) -> (r: Result<
    Vec<(String, String)>,
    ErrorStruct,
>)
    ensures
        match rendered_headers(crate::render::named_view(members@), context_data(arg.context())) {
            Ok(pairs) => r is Ok && crate::load::fields_view(r->Ok_0@) == pairs,
            Err(e) => r is Err && r->Err_0@ == e,
        },
{
    let ghost all = crate::render::named_view(members@);
    let ghost data = context_data(arg.context());
    let mut pairs: Vec<(String, String)> = Vec::new();
    let mut i: usize = 0;
    proof {
        assert(all.take(0) =~= Seq::empty());
        assert(crate::load::fields_view(pairs@) =~= Seq::empty());
    }
    while i < members.len()
        invariant
            i <= members.len(),
            all == crate::render::named_view(members@),
            data == context_data(arg.context()),
            rendered_headers(all.take(i as int), data) == Ok::<Seq<(Seq<char>, Seq<char>)>, ErrorView>(
                crate::load::fields_view(pairs@),
            ),
        decreases members.len() - i,
    {
        proof {
            let next = all.take(i as int + 1);
            assert(next.drop_last() =~= all.take(i as int));
            assert(next.last() == all[i as int]);
        }
        let name = match arg.render_str(members[i].0.as_str()) {
            Ok(name) => name,
            Err(e) => {
                proof {
                    lemma_headers_prefix(all, data, i as int + 1);
                }
                return Err(e);
            },
        };
        let template = match members[i].1.as_str() {
            Some(template) => template,
            None => {
                proof {
                    lemma_headers_prefix(all, data, i as int + 1);
                }
                return Err(ErrorStruct::new("031", "invalid header value"));
            },
        };
        let value = match arg.render_str(template) {
            Ok(value) => value,
            Err(e) => {
                proof {
                    lemma_headers_prefix(all, data, i as int + 1);
                }
                return Err(e);
            },
        };
        let ghost before = crate::load::fields_view(pairs@);
        pairs.push((name, value));
        proof {
            assert(crate::load::fields_view(pairs@) =~= before.push((name@, value@)));
        }
        i += 1;
    }
    proof {
        assert(all.take(i as int) =~= all);
    }
    Ok(pairs)
}

/// The address that a step asks to call, rendered.
pub fn url(arg: &RunArgStruct) -> (r: Result<String, ErrorStruct>)
    ensures
        crate::action::redis::text_result_view(r) == rendered_member(
            arg.step().config,
            "url"@,
            context_data(arg.context()),
        ),
{
    rendered_text(arg, "url")
}

/// The method that a step asks to call with, rendered.
pub fn method(arg: &RunArgStruct) -> (r: Result<String, ErrorStruct>)
    ensures
        crate::action::redis::text_result_view(r) == rendered_member(
            arg.step().config,
            "method"@,
            context_data(arg.context()),
        ),
{
    rendered_text(arg, "method")
}

/// The object that the fields of a response make.
pub open spec fn header_object(fields: Seq<(Seq<char>, Seq<char>)>) -> JsonView {
    crate::load::row_of(fields)
}

/// The value that a response is taken as:
/// `{"status": <status>, "header": {<name>: <value>}, "body": <body>}`.
pub open spec fn response_value(status: int, fields: Seq<(Seq<char>, Seq<char>)>, body: JsonView) -> JsonView {
    JsonView::Object(
        Map::<Seq<char>, JsonView>::empty().insert("status"@, JsonView::Int(status)).insert(
            "header"@,
            header_object(fields),
        ).insert("body"@, body),
    )
}

/// The value that a response is taken as.
pub fn response(status: u64, fields: &Vec<(String, String)>, body: Json) -> (v: Json)
    ensures
        v@ == response_value(status as int, crate::load::fields_view(fields@), body@),
{
    let ghost all = crate::load::fields_view(fields@);
    let mut header: Vec<(String, Json)> = Vec::new();
    let mut i: usize = 0;
    proof {
        assert(all.take(0) =~= Seq::empty());
    }
    while i < fields.len()
        invariant
            i <= fields.len(),
            all == crate::load::fields_view(fields@),
            members_view(header@) == crate::load::row_members(all.take(i as int)),
        decreases fields.len() - i,
    {
        let member = (fields[i].0.clone(), Json::String(fields[i].1.clone()));
        proof {
            lemma_members_push(header@, member);
            let next = all.take(i as int + 1);
            assert(next.drop_last() =~= all.take(i as int));
            assert(next.last() == all[i as int]);
        }
        header.push(member);
        i += 1;
    }
    proof {
        assert(all.take(i as int) =~= all);
    }
    let mut members: Vec<(String, Json)> = Vec::new();
    let first = ("status".to_owned(), Json::Number(Number::PosInt(status)));
    proof {
        lemma_members_push(members@, first);
    }
    members.push(first);
    let second = ("header".to_owned(), Json::Object(header));
    proof {
        lemma_members_push(members@, second);
    }
    members.push(second);
    let third = ("body".to_owned(), body);
    proof {
        lemma_members_push(members@, third);
    }
    members.push(third);
    Json::Object(members)
}

} // verus!
