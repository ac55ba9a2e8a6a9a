//! The action that waits: how long it is to wait.

use vstd::prelude::*;
use crate::codec::json_from_text;
use crate::codec::json_text;
use crate::conf::member;
use crate::error::ErrorStruct;
use crate::error::ErrorView;
use crate::render::context_data;
use crate::render::render_result;
use crate::step::CreateArgStruct;
use crate::step::RunArgStruct;
use crate::text::parse_u64;
use crate::text::parsed_u64;
use crate::value::Json;
use crate::value::JsonView;

verus! {

/// Makes the action that waits.
#[derive(Debug)]
pub struct SleepFactory {}

/// The action that waits.
#[derive(Debug)]
pub struct Sleep {}

/// The error of a duration that is not a positive number of seconds.
pub open spec fn duration_error() -> ErrorView {
    ErrorView { code: "sleep"@, message: "duration must > 0"@, cause: None }
}

/// How many seconds a rendered duration asks for: a number of seconds is
/// taken as it is, a string is read as a number in decimal, and anything
/// else asks for none. A duration that is null, that cannot be read or that
/// asks for no second is refused.
pub open spec fn seconds_of(duration: JsonView) -> Result<u64, ErrorView> {
    let seconds: Option<u64> = match duration {
        JsonView::Null => None,
        JsonView::Int(n) => if 0 <= n <= u64::MAX {
            Some(n as u64)
        } else {
            Some(0u64)
        },
        JsonView::Str(s) => parsed_u64(s),
        _ => Some(0u64),
    };
    match seconds {
        Some(n) => if n >= 1 {
            Ok(n)
        } else {
            Err(duration_error())
        },
        None => Err(duration_error()),
    }
}

/// The member `duration` of a step's configuration.
pub open spec fn duration_member(config: JsonView) -> JsonView {
    member(config, "duration"@)
}

impl SleepFactory {
    pub fn new(_conf: Option<Json>) -> (r: Result<SleepFactory, ErrorStruct>)
        ensures
            r is Ok,
    {
        Ok(SleepFactory {  })
    }

    pub fn create(&self, _arg: &CreateArgStruct) -> (r: Result<Sleep, ErrorStruct>)
        ensures
            r is Ok,
    {
        Ok(Sleep {  })
    }
}

impl Sleep {
    /// How many seconds a rendered duration asks for.
    pub fn seconds(duration: &Json) -> (r: Result<u64, ErrorStruct>)
        ensures
            match r {
                Ok(n) => seconds_of(duration@) == Ok::<u64, ErrorView>(n),
                Err(e) => seconds_of(duration@) == Err::<u64, ErrorView>(e@),
            },
    {
        let seconds: Option<u64> = match duration {
            Json::Null => None,
            Json::String(s) => parse_u64(s.as_str()),
            _ => match duration.as_u64() {
                Some(n) => Some(n),
                None => Some(0),
            },
        };
        match seconds {
            Some(n) => if n >= 1 {
                Ok(n)
            } else {
                Err(ErrorStruct::new("sleep", "duration must > 0"))
            },
            None => Err(ErrorStruct::new("sleep", "duration must > 0")),
        }
    }

    /// How many seconds the step is to wait: what the member `duration` of
    /// its configuration asks for, its templates rendered.
    pub fn run(&self, arg: &RunArgStruct) -> (r: Result<u64, ErrorStruct>)
        ensures
            match render_result(json_text(duration_member(arg.step().config)), context_data(arg.context())) {
                Ok(text) => match json_from_text(text) {
                    Some(duration) => match r {
                        Ok(n) => seconds_of(duration) == Ok::<u64, ErrorView>(n),
                        Err(e) => seconds_of(duration) == Err::<u64, ErrorView>(e@),
                    },
                    None => r is Err && r->Err_0@.code == "json"@,
                },
                Err(message) => r is Err && r->Err_0@ == (ErrorView {
                    code: "tpl"@,
                    message: message,
                    cause: None,
                }),
            },
    {
        let null = Json::Null;
        let raw = match arg.config().get("duration") {
            Some(d) => d,
            None => &null,
        };
        match arg.render_value(raw) {
            Ok(duration) => Sleep::seconds(&duration),
            Err(e) => Err(e),
        }
    }
}

} // verus!
