//! The action that returns what it is configured with.

use vstd::prelude::*;
use crate::codec::json_from_text;
use crate::codec::json_text;
use crate::error::ErrorStruct;
use crate::error::ErrorView;
use crate::render::context_data;
use crate::render::render_result;
use crate::step::ActionValue;
use crate::step::CreateArgStruct;
use crate::step::RunArgStruct;
use crate::value::Json;

verus! {

/// Makes the action that returns what it is configured with.
#[derive(Debug)]
pub struct Factory {}

/// The action that returns what it is configured with.
#[derive(Debug)]
pub struct Runner {}

impl Factory {
    pub fn new(_conf: Option<Json>) -> (r: Result<Factory, ErrorStruct>)
        ensures
            r is Ok,
    {
        Ok(Factory {  })
    }

    pub fn create(&self, _arg: &CreateArgStruct) -> (r: Result<Runner, ErrorStruct>)
        ensures
            r is Ok,
    {
        Ok(Runner {  })
    }
}

impl Runner {
    /// The step's configuration, with its templates rendered.
    pub fn run(&self, arg: &RunArgStruct) -> (r: ActionValue)
        ensures
            match render_result(json_text(arg.step().config), context_data(arg.context())) {
                Ok(text) => match r {
                    Ok(v) => json_from_text(text) == Some(v@),
                    Err(e) => json_from_text(text) is None && e@.code == "json"@ && e@.cause is None,
                },
                Err(message) => r is Err && r->Err_0@ == (ErrorView {
                    code: "tpl"@,
                    message: message,
                    cause: None,
                }),
            },
    {
        arg.render_value(arg.config())
    }
}

} // verus!
