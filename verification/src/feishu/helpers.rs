//! The envelopes in which the chat platform answers.
use crate::text::{push_signed_decimal, signed_decimal_spec};
use vstd::prelude::*;
use vstd::string::*;

verus! {

/// The platform refused a call, or answered without data.
#[derive(Debug, Clone, PartialEq, Eq)]
pub struct FeishuError {
    pub code: i64,
    pub msg: String,
}

/// The message of an error of the platform.
pub open spec fn error_text(code: int, msg: Seq<char>) -> Seq<char> {
    "Feishu error ("@ + signed_decimal_spec(code) + ") "@ + msg
}

impl FeishuError {
    /// The message of this error.
    pub fn to_string(&self) -> (s: String)
        ensures
            s@ == error_text(self.code as int, self.msg@),
    {
        let mut out = String::from_str("Feishu error (");
        push_signed_decimal(&mut out, self.code);
        out.append(") ");
        out.append(self.msg.as_str());
        out
    }
}

/// An answer whose data stand beside the code and the message.
#[derive(Debug, Clone)]
pub struct FlatResponse<T> {
    pub code: i64,
    pub msg: String,
    pub data: Option<T>,
}

impl<T> FlatResponse<T> {
    /// The data of an answer that reports success, which is code 0, and
    /// holds data; the platform's code and message otherwise.
    pub fn ok(self) -> (r: Result<T, FeishuError>)
        ensures
            r is Ok <==> self.code == 0 && self.data is Some,
            r matches Ok(data) ==> self.data == Some(data),
            r matches Err(e) ==> e.code == self.code && e.msg == self.msg,
    {
        if self.code == 0 {
            match self.data {
                Some(data) => {
                    return Ok(data);
                },
                None => {},
            }
        }
        Err(FeishuError { code: self.code, msg: self.msg })
    }
}

/// An answer whose data stand under a key of their own.
#[derive(Debug, Clone)]
pub struct DataResponse<T> {
    pub code: i64,
    pub msg: String,
    pub data: Option<T>,
}

impl<T> DataResponse<T> {
    /// The data of an answer that reports success, which is code 0, and
    /// holds data; the platform's code and message otherwise.
    pub fn ok(self) -> (r: Result<T, FeishuError>)
        ensures
            r is Ok <==> self.code == 0 && self.data is Some,
            r matches Ok(data) ==> self.data == Some(data),
            r matches Err(e) ==> e.code == self.code && e.msg == self.msg,
    {
        if self.code == 0 {
            match self.data {
                Some(data) => {
                    return Ok(data);
                },
                None => {},
            }
        }
        Err(FeishuError { code: self.code, msg: self.msg })
    }
}

/// One page of a listing.
#[derive(Debug, Clone)]
pub struct Page<T> {
    pub items: Vec<T>,
    pub page_token: Option<String>,
    pub has_more: bool,
}

impl<T> Page<T> {
    /// The items of the page.
    pub fn into_inner(self) -> (items: Vec<T>)
        ensures
            items == self.items,
    {
        self.items
    }
}

} // verus!
