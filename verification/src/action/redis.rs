//! The action that asks a key-value store: what it sends, and what it makes
//! of the reply.

use vstd::prelude::*;
use crate::action::crypto::missing;
use crate::action::crypto::missing_error;
use crate::action::crypto::text_member;
use crate::codec::json_from_text;
use crate::codec::json_text;
use crate::conf::member;
use crate::error::ErrorStruct;
use crate::error::ErrorView;
use crate::render::context_data;
use crate::render::render_result;
use crate::render::task_shared;
use crate::step::CreateArgStruct;
use crate::step::RunArgStruct;
use crate::value::items_view;
use crate::value::lemma_items_index;
use crate::value::lemma_items_len;
use crate::value::Json;
use crate::value::JsonView;
use crate::value::Number;

verus! {

/// What a key-value store replies.
#[derive(Debug)]
pub enum Reply {
    /// Nothing.
    Nil,
    /// A number.
    Int(i64),
    /// Bytes.
    Data(Vec<u8>),
    /// A status line.
    Status(String),
    /// The status `OK`.
    Okay,
    /// Anything else.
    Other,
}

/// The text that `String::from_utf8_lossy` makes of bytes.
pub uninterp spec fn lossy_text(bytes: Seq<u8>) -> Seq<char>;

/// `String::from_utf8_lossy`: the bytes as text, with the replacement
/// character in place of what is not UTF-8.
#[verifier::external_body]
fn lossy(bytes: &Vec<u8>) -> (text: String)
    ensures
        text@ == lossy_text(bytes@),
{
    String::from_utf8_lossy(bytes).into_owned()
}

/// The mathematical content of a [`Reply`].
pub enum ReplyView {
    Nil,
    Int(int),
    Data(Seq<u8>),
    Status(Seq<char>),
    Okay,
    Other,
}

impl View for Reply {
    type V = ReplyView;

    open spec fn view(&self) -> ReplyView {
        match self {
            Reply::Nil => ReplyView::Nil,
            Reply::Int(n) => ReplyView::Int(*n as int),
            Reply::Data(bytes) => ReplyView::Data(bytes@),
            Reply::Status(s) => ReplyView::Status(s@),
            Reply::Okay => ReplyView::Okay,
            Reply::Other => ReplyView::Other,
        }
    }
}

/// The value that a reply is taken as: bytes are read as JSON where they
/// are JSON, and taken as a string where they are not.
pub open spec fn reply_value(reply: ReplyView) -> JsonView {
    match reply {
        ReplyView::Nil => JsonView::Null,
        ReplyView::Int(n) => JsonView::Int(n),
        ReplyView::Data(bytes) => match json_from_text(lossy_text(bytes)) {
            Some(v) => v,
            None => JsonView::Str(lossy_text(bytes)),
        },
        ReplyView::Status(s) => JsonView::Str(s),
        ReplyView::Okay => JsonView::Str("OK"@),
        ReplyView::Other => JsonView::Array(Seq::empty()),
    }
}

/// The value that a reply is taken as.
pub fn value_of(reply: &Reply) -> (v: Json)
    ensures
        v@ == reply_value(reply@),
{
    match reply {
        Reply::Nil => Json::Null,
        Reply::Int(n) => Json::Number(Number::NegInt(*n)),
        Reply::Data(bytes) => {
            let text = lossy(bytes);
            match crate::codec::from_str(text.as_str()) {
                Ok(v) => v,
                Err(_) => Json::String(text),
            }
        },
        Reply::Status(s) => Json::String(s.clone()),
        Reply::Okay => Json::String("OK".to_owned()),
        Reply::Other => Json::Array(Vec::new()),
    }
}

/// What the rendered string under a key of a configuration is, or why
/// there is none.
pub open spec fn rendered_member(config: JsonView, key: Seq<char>, data: JsonView) -> Result<Seq<char>, ErrorView> {
    match member(config, key) {
        JsonView::Str(template) => match render_result(template, data) {
            Ok(text) => Ok(text),
            Err(message) => Err(ErrorView { code: "tpl"@, message, cause: None }),
        },
        _ => Err(missing(key)),
    }
}

/// The content of a text or an error.
pub open spec fn text_result_view(r: Result<String, ErrorStruct>) -> Result<Seq<char>, ErrorView> {
    match r {
        Ok(text) => Ok(text@),
        Err(e) => Err(e@),
    }
}

/// The string under a key of a step's configuration, rendered against the
/// namespace of the case. A configuration that has no string there is
/// refused with the code `010`.
pub fn rendered_text(arg: &RunArgStruct, key: &str) -> (r: Result<String, ErrorStruct>)
    ensures
        text_result_view(r) == rendered_member(arg.step().config, key@, context_data(arg.context())),
{
    match text_member(arg.config(), key) {
        Some(template) => arg.render_str(template),
        None => Err(missing_error(key)),
    }
}

/// Where a factory may make one client for the whole task: the address of
/// the store, where it is the same for every case; `None` where each case
/// has to resolve its own.
pub fn shared_url(arg: &CreateArgStruct) -> (r: Result<Option<String>, ErrorStruct>)
    ensures
        match rendered_member(arg.step().config, "url"@, context_data(arg.context())) {
            Ok(url) => r is Ok && (match r->Ok_0 {
                Some(text) => task_shared(url) && text@ == url,
                None => !task_shared(url),
            }),
            Err(e) => r is Err && r->Err_0@ == e,
        },
{
    let url = match text_member(arg.config(), "url") {
        Some(template) => match arg.render_str(template) {
            Ok(url) => url,
            Err(e) => {
                return Err(e);
            },
        },
        None => {
            return Err(missing_error("url"));
        },
    };
    if arg.is_task_shared(url.as_str()) {
        Ok(Some(url))
    } else {
        Ok(None)
    }
}

/// The arguments of a command: the items of an array, each as its JSON
/// text; none where the document is no array.
pub open spec fn argument_texts(args: JsonView) -> Seq<Seq<char>> {
    match args {
        JsonView::Array(items) => Seq::new(items.len(), |i: int| json_text(items[i])),
        _ => Seq::empty(),
    }
}

/// The arguments of a command, as the texts that are sent.
pub fn arguments(args: &Json) -> (texts: Vec<String>)
    ensures
        crate::flow::names_view(texts@) == argument_texts(args@),
{
    let mut texts: Vec<String> = Vec::new();
    match args.as_array() {
        Some(items) => {
            let ghost all = items_view(items@);
            let mut i: usize = 0;
            while i < items.len()
                invariant
                    i <= items.len(),
                    texts.len() == i,
                    all == items_view(items@),
                    forall|k: int| 0 <= k < i ==> texts@[k]@ == json_text(#[trigger] all[k]),
                decreases items.len() - i,
            {
                proof {
                    lemma_items_index(items@, i as int);
                }
                texts.push(crate::codec::to_string(&items[i]));
                i += 1;
            }
            proof {
                lemma_items_len(items@);
                assert(crate::flow::names_view(texts@) =~= argument_texts(args@));
            }
        },
        None => {
            proof {
                assert(crate::flow::names_view(texts@) =~= Seq::empty());
            }
        },
    }
    texts
}

} // verus!
