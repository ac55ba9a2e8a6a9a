//! The action that decodes a percent-encoded text.

use vstd::prelude::*;
use crate::action::crypto::action_value_view;
use crate::action::crypto::missing;
use crate::action::crypto::missing_error;
use crate::action::crypto::text_member;
use crate::conf::member;
use crate::error::ErrorStruct;
use crate::error::ErrorView;
use crate::render::context_data;
use crate::render::render_result;
use crate::step::ActionValue;
use crate::step::CreateArgStruct;
use crate::step::RunArgStruct;
use crate::value::Json;
use crate::value::JsonView;

verus! {

/// What `urlencoding::decode` makes of a text: the text with its percent
/// escapes replaced, or the message of the error where the result is not
/// UTF-8.
pub uninterp spec fn url_decoded(text: Seq<char>) -> Result<Seq<char>, Seq<char>>;

/// `urlencoding::decode`.
#[verifier::external_body]
fn decode(text: &str) -> (r: Result<String, String>)
    ensures
        match r {
            Ok(out) => url_decoded(text@) == Ok::<Seq<char>, Seq<char>>(out@),
            Err(message) => url_decoded(text@) == Err::<Seq<char>, Seq<char>>(message@),
        },
{
    match urlencoding::decode(text) {
        Ok(out) => Ok(out.into_owned()),
        Err(e) => Err(e.to_string()),
    }
}

/// The action that decodes a percent-encoded text.
#[derive(Debug)]
pub struct UrlDecode {}

/// What the action returns for a step's configuration in a namespace: what
/// the template under `raw` renders to, decoded.
pub open spec fn url_decode_result(config: JsonView, data: JsonView) -> Result<JsonView, ErrorView> {
    match member(config, "raw"@) {
        JsonView::Str(raw) => match render_result(raw, data) {
            Ok(text) => match url_decoded(text) {
                Ok(out) => Ok(JsonView::Str(out)),
                Err(message) => Err(ErrorView { code: "url"@, message, cause: None }),
            },
            Err(message) => Err(ErrorView { code: "tpl"@, message, cause: None }),
        },
        _ => Err(missing("raw"@)),
    }
}

/// Makes the action that decodes a percent-encoded text.
pub fn create(_conf: Option<&Json>, _arg: &CreateArgStruct) -> (r: Result<UrlDecode, ErrorStruct>)
    ensures
        r is Ok,
{
    Ok(UrlDecode {  })
}

impl UrlDecode {
    /// The text that the step is configured with, decoded.
    pub fn run(&self, arg: &RunArgStruct) -> (r: ActionValue)
        ensures
            action_value_view(r) == url_decode_result(arg.step().config, context_data(arg.context())),
    {
        let raw = match text_member(arg.config(), "raw") {
            Some(raw) => raw,
            None => {
                return Err(missing_error("raw"));
            },
        };
        let text = match arg.render_str(raw) {
            Ok(text) => text,
            Err(e) => {
                return Err(e);
            },
        };
        match decode(text.as_str()) {
            Ok(out) => Ok(Json::String(out)),
            Err(message) => Err(ErrorStruct::new("url", message.as_str())),
        }
    }
}

} // verus!
