//! The action that digests a text.

use vstd::prelude::*;
use crate::conf::member;
use crate::error::ErrorStruct;
use crate::error::ErrorView;
use crate::render::context_data;
use crate::render::render_result;
use crate::step::ActionValue;
use crate::step::CreateArgStruct;
use crate::step::RunArgStruct;
use crate::text::str_eq;
use crate::value::Json;
use crate::value::JsonView;

verus! {

/// The MD5 digest of a text's UTF-8 bytes, in lower-case hexadecimal, as
/// the `md5` crate computes and shows it.
pub uninterp spec fn md5_hex(text: Seq<char>) -> Seq<char>;

/// `md5::compute` on the text's bytes, shown by the digest's `LowerHex`.
#[verifier::external_body]
fn digest(text: &str) -> (hex: String)
    ensures
        hex@ == md5_hex(text@),
{
    format!("{:x}", md5::compute(text))
}

/// Makes the action that digests a text.
#[derive(Debug)]
pub struct CryptoFactory {}

/// The action that digests a text.
#[derive(Debug)]
pub struct Crypto {}

/// The error of a step whose configuration lacks a member.
pub open spec fn missing(name: Seq<char>) -> ErrorView {
    ErrorView { code: "010"@, message: "missing "@ + name, cause: None }
}

/// What the action returns for a way of digesting and a text: the MD5
/// digest for the way `md5`; any other way is refused.
pub open spec fn digested(by: Seq<char>, from: Seq<char>) -> Result<JsonView, ErrorView> {
    if by == "md5"@ {
        Ok(JsonView::Str(md5_hex(from)))
    } else {
        Err(ErrorView { code: "crypto"@, message: "unsupported "@ + by, cause: None })
    }
}

/// What the action returns for a step's configuration in a namespace: the
/// digest, by the way under `by`, of what the template under `from` renders
/// to.
pub open spec fn crypto_result(config: JsonView, data: JsonView) -> Result<JsonView, ErrorView> {
    match member(config, "by"@) {
        JsonView::Str(by) => match member(config, "from"@) {
            JsonView::Str(from) => match render_result(from, data) {
                Ok(text) => digested(by, text),
                Err(message) => Err(ErrorView { code: "tpl"@, message, cause: None }),
            },
            _ => Err(missing("from"@)),
        },
        _ => Err(missing("by"@)),
    }
}

/// The content of what an action returns.
pub open spec fn action_value_view(r: ActionValue) -> Result<JsonView, ErrorView> {
    match r {
        Ok(v) => Ok(v@),
        Err(e) => Err(e@),
    }
}

/// The string under a key of a step's configuration.
pub fn text_member<'a>(config: &'a Json, key: &str) -> (r: Option<&'a str>)
    ensures
        match r {
            Some(s) => member(config@, key@) == JsonView::Str(s@),
            None => !(member(config@, key@) is Str),
        },
{
    match config.get(key) {
        Some(v) => v.as_str(),
        None => None,
    }
}

/// The error of a step whose configuration lacks the member `name`.
pub fn missing_error(name: &str) -> (e: ErrorStruct)
    ensures
        e@ == missing(name@),
{
    let mut message = "missing ".to_owned();
    message.append(name);
    ErrorStruct::new("010", message.as_str())
}

impl CryptoFactory {
    pub fn new(_conf: Option<Json>) -> (r: Result<CryptoFactory, ErrorStruct>)
        ensures
            r is Ok,
    {
        Ok(CryptoFactory {  })
    }

    pub fn create(&self, _arg: &CreateArgStruct) -> (r: Result<Crypto, ErrorStruct>)
        ensures
            r is Ok,
    {
        Ok(Crypto {  })
    }
}

impl Crypto {
    /// The digest that the step is configured to take.
    pub fn run(&self, arg: &RunArgStruct) -> (r: ActionValue)
        ensures
            action_value_view(r) == crypto_result(arg.step().config, context_data(arg.context())),
    {
        let by = match text_member(arg.config(), "by") {
            Some(by) => by,
            None => {
                return Err(missing_error("by"));
            },
        };
        let from = match text_member(arg.config(), "from") {
            Some(from) => from,
            None => {
                return Err(missing_error("from"));
            },
        };
        let text = match arg.render_str(from) {
            Ok(text) => text,
            Err(e) => {
                return Err(e);
            },
        };
        if str_eq(by, "md5") {
            Ok(Json::String(digest(text.as_str())))
        } else {
            let mut message = "unsupported ".to_owned();
            message.append(by);
            Err(ErrorStruct::new("crypto", message.as_str()))
        }
    }
}

} // verus!
