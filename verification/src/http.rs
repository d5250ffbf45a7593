//! Requests that the engine asks for and the replies it is handed back. The
//! engine performs no I/O itself.

use crate::text::opt_view;
use vstd::prelude::*;

verus! {

/// A GET request.
#[derive(Debug, Clone)]
pub struct HttpRequest {
    pub url: String,
    /// The value of the `Accept` header, if one is to be sent.
    pub accept: Option<String>,
    /// The value of the `Authorization` header, if one is to be sent.
    pub authorization: Option<String>,
    /// The value of the `User-Agent` header, if it is to differ from the client's.
    pub user_agent: Option<String>,
}

/// The mathematical value of a request.
pub struct RequestView {
    pub url: Seq<char>,
    pub accept: Option<Seq<char>>,
    pub authorization: Option<Seq<char>>,
    pub user_agent: Option<Seq<char>>,
}

impl View for HttpRequest {
    type V = RequestView;

    open spec fn view(&self) -> RequestView {
        RequestView {
            url: self.url@,
            accept: opt_view(self.accept),
            authorization: opt_view(self.authorization),
            user_agent: opt_view(self.user_agent),
        }
    }
}

/// How a request ended.
#[derive(Debug, Clone)]
pub enum Reply<T> {
    /// The request could not be sent or no response came; the text says why.
    Unreachable(String),
    /// The response had no success status; the text is the status.
    Refused(String),
    /// The body could not be read or decoded; the text says why.
    Unreadable(String),
    /// The decoded body.
    Received(T),
}

} // verus!
