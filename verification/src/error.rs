//! The error value that every fallible operation of the engine reports.

use vstd::prelude::*;

verus! {

/// An error: a short code that names its kind, a message for people, and
/// optionally the error that caused it.
#[derive(Debug)]
pub struct ErrorStruct {
    code: String,
    message: String,
    cause: Option<Box<ErrorStruct>>,
}

/// The mathematical content of an [`ErrorStruct`].
pub struct ErrorView {
    pub code: Seq<char>,
    pub message: Seq<char>,
    pub cause: Option<Box<ErrorView>>,
}

/// The content of an error, causes included.
pub closed spec fn error_view(e: ErrorStruct) -> ErrorView
    decreases e,
{
    ErrorView {
        code: e.code@,
        message: e.message@,
        cause: match e.cause {
            Some(c) => Some(Box::new(error_view(*c))),
            None => None,
        },
    }
}

/// `{ "code": "C", "message": "M" }`, the text an error is shown as.
pub open spec fn error_text(code: Seq<char>, message: Seq<char>) -> Seq<char> {
    "{ \"code\": \""@ + code + "\", \"message\": \""@ + message + "\" }"@
}

impl View for ErrorStruct {
    type V = ErrorView;

    closed spec fn view(&self) -> ErrorView {
        error_view(*self)
    }
}

impl ErrorStruct {
    /// An error without a cause.
    pub fn new(code: &str, message: &str) -> (e: ErrorStruct)
        ensures
            e@ == (ErrorView { code: code@, message: message@, cause: None }),
    {
        ErrorStruct { code: code.to_owned(), message: message.to_owned(), cause: None }
    }

    /// An error that `cause` brought about.
    pub fn cause(code: &str, message: &str, cause: ErrorStruct) -> (e: ErrorStruct)
        ensures
            e@ == (ErrorView { code: code@, message: message@, cause: Some(Box::new(cause@)) }),
    {
        ErrorStruct {
            code: code.to_owned(),
            message: message.to_owned(),
            cause: Some(Box::new(cause)),
        }
    }

    /// The code that names the kind of error.
    pub fn get_code(&self) -> (code: &str)
        ensures
            code@ == self@.code,
    {
        self.code.as_str()
    }

    /// The message for people.
    pub fn get_message(&self) -> (message: &str)
        ensures
            message@ == self@.message,
    {
        self.message.as_str()
    }

    /// The error this one was caused by, if any.
    pub fn get_cause(&self) -> (cause: Option<&ErrorStruct>)
        ensures
            match cause {
                Some(c) => self@.cause == Some(Box::new(c@)),
                None => self@.cause is None,
            },
    {
        match &self.cause {
            Some(c) => Some(&**c),
            None => None,
        }
    }

    /// The text the error is shown as: code and message, without the cause.
    pub fn to_string(&self) -> (text: String)
        ensures
            text@ == error_text(self@.code, self@.message),
    {
        let mut text = "{ \"code\": \"".to_owned();
        text.append(self.code.as_str());
        text.append("\", \"message\": \"");
        text.append(self.message.as_str());
        text.append("\" }");
        text
    }
}

impl Clone for ErrorStruct {
    fn clone(&self) -> (e: ErrorStruct)
        ensures
            e@ == self@,
        decreases self,
    {
        let cause = match &self.cause {
            Some(c) => Some(Box::new((**c).clone())),
            None => None,
        };
        ErrorStruct { code: self.code.clone(), message: self.message.clone(), cause }
    }
}

} // verus!
