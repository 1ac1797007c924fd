//! The error that a request is answered with.
use crate::biz::callback::CallbackError;
use crate::json::{json_insert, json_object, json_of, json_text, JsonView};
use vstd::prelude::*;
use vstd::string::*;

verus! {

/// The reason for which a request failed, in words. Every such request is
/// answered with the status of an internal error.
#[derive(Debug, Clone, PartialEq, Eq)]
pub struct Error(pub String);

/// The words for a rejected action.
pub open spec fn callback_error_text(e: CallbackError) -> Seq<char> {
    match e {
        CallbackError::MissingField => "action payload lacks the id of the item"@,
        CallbackError::UnknownAction => "action is of no known kind"@,
        CallbackError::NotFound => "no such item"@,
        CallbackError::MalformedCard => "the card of the item has fewer than three blocks"@,
    }
}

impl Error {
    /// The error for a rejected action.
    pub fn from_callback(e: CallbackError) -> (r: Error)
        ensures
            r.0@ == callback_error_text(e),
    {
        match e {
            CallbackError::MissingField => Error(
                String::from_str("action payload lacks the id of the item"),
            ),
            CallbackError::UnknownAction => Error(String::from_str("action is of no known kind")),
            CallbackError::NotFound => Error(String::from_str("no such item")),
            CallbackError::MalformedCard => Error(
                String::from_str("the card of the item has fewer than three blocks"),
            ),
        }
    }

    /// The status that the request is answered with: 500.
    pub fn status_code(&self) -> (code: u16)
        ensures
            code == 500,
    {
        500
    }

    /// The JSON that the request is answered with: the reason, as the
    /// error and as its detail.
    pub fn to_json(&self) -> (r: serde_json::Value)
        ensures
            json_of(r) == JsonView::Object(
                map!["error"@ => JsonView::Text(self.0@), "detail"@ => JsonView::Text(self.0@)],
            ),
    {
        let mut o = json_object();
        json_insert(&mut o, "error", json_text(self.0.as_str()));
        json_insert(&mut o, "detail", json_text(self.0.as_str()));
        o
    }

    /// The reason, in words.
    pub fn to_string(&self) -> (s: String)
        ensures
            s@ == self.0@,
    {
        self.0.clone()
    }
}

} // verus!
