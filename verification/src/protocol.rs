//! What clients send to a node's key-value port, and what it answers.
use vstd::prelude::*;

verus! {

/// A client's request.
#[derive(Debug, PartialEq, Eq)]
pub enum Request {
    Get { key: String },
    Put { key: String, value: String },
    Delete { key: String },
}

/// A node's answer to a request.
#[derive(Debug, PartialEq, Eq)]
pub enum Response {
    Value(Option<String>),
    Done,
    Error(String),
}

impl Response {
    /// What a read gives the client: the value carried by a `Value`
    /// answer, and nothing for any other answer.
    pub fn into_value(self) -> (r: Option<String>)
        ensures
            r == (match self {
                Response::Value(v) => v,
                _ => None,
            }),
    {
        match self {
            Response::Value(v) => v,
            _ => None,
        }
    }

    /// Whether the answer is the plain acknowledgement `Done`.
    pub fn is_ok(&self) -> (r: bool)
        ensures
            r == (*self is Done),
    {
        match self {
            Response::Done => true,
            _ => false,
        }
    }
}

} // verus!
