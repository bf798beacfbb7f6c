//! Replies: the three status lines, the kinds of failure, and the text that
//! goes back to the client.

use vstd::prelude::*;

verus! {

/// The status of a reply. No other status is ever sent.
#[derive(Clone, Copy, Debug, PartialEq, Eq, Structural)]
pub enum Status {
    /// 200
    Success,
    /// 404
    NotFound,
    /// 500
    InternalServerError,
}

impl Status {
    /// The status code as a number.
    pub open spec fn code_of(self) -> int {
        match self {
            Status::Success => 200,
            Status::NotFound => 404,
            Status::InternalServerError => 500,
        }
    }

    /// The head of a reply with this status, up to and including the empty
    /// line. Only a reply that succeeded names a content type.
    pub open spec fn line_of(self) -> Seq<char> {
        match self {
            Status::Success => "HTTP/1.1 200 OK\r\nContent-Type: application/json\r\n\r\n"@,
            Status::NotFound => "HTTP/1.1 404 NOT FOUND\r\n\r\n"@,
            Status::InternalServerError => "HTTP/1.1 500 INTERNAL SERVER ERROR\r\n\r\n"@,
        }
    }

    /// The status code as a number.
    pub fn code(self) -> (code: u16)
        ensures
            code == self.code_of(),
    {
        match self {
            Status::Success => 200,
            Status::NotFound => 404,
            Status::InternalServerError => 500,
        }
    }

    /// The head of a reply with this status.
    pub fn line(self) -> (line: &'static str)
        ensures
            line@ == self.line_of(),
    {
        match self {
            Status::Success => "HTTP/1.1 200 OK\r\nContent-Type: application/json\r\n\r\n",
            Status::NotFound => "HTTP/1.1 404 NOT FOUND\r\n\r\n",
            Status::InternalServerError => "HTTP/1.1 500 INTERNAL SERVER ERROR\r\n\r\n",
        }
    }
}

/// Why a request was not served.
#[derive(Clone, Copy, Debug, PartialEq, Eq, Structural)]
pub enum Failure {
    /// The storage could not be reached.
    ConnectionFailure,
    /// The storage refused or failed the statement.
    QueryFailure,
    /// The body is no JSON object that describes a user.
    MalformedBody,
    /// The identifier in the path is no integer.
    InvalidIdentifier,
    /// The statement touched no row.
    NotFound,
}

impl Failure {
    /// The status that a client sees for this failure: 404 where nothing
    /// was found, 500 for everything else, whoever caused it.
    pub open spec fn status_of(self) -> Status {
        match self {
            Failure::NotFound => Status::NotFound,
            _ => Status::InternalServerError,
        }
    }

    /// The status that a client sees for this failure.
    pub fn status(self) -> (status: Status)
        ensures
            status == self.status_of(),
    {
        match self {
            Failure::NotFound => Status::NotFound,
            _ => Status::InternalServerError,
        }
    }
}

/// A reply: its status and what follows the head.
#[derive(Clone, Debug, PartialEq, Eq)]
pub struct Response {
    pub status: Status,
    pub body: String,
}

/// A `Response` as a mathematical value.
pub ghost struct ResponseModel {
    pub status: Status,
    pub body: Seq<char>,
}

impl View for Response {
    type V = ResponseModel;

    open spec fn view(&self) -> ResponseModel {
        ResponseModel { status: self.status, body: self.body@ }
    }
}

impl ResponseModel {
    /// The text of the whole reply: the head, then the body.
    pub open spec fn text(self) -> Seq<char> {
        self.status.line_of() + self.body
    }
}

/// The reply for a request that was served.
pub open spec fn served(body: Seq<char>) -> ResponseModel {
    ResponseModel { status: Status::Success, body }
}

/// The reply for a request that failed with `failure`.
pub open spec fn failed(failure: Failure, body: Seq<char>) -> ResponseModel {
    ResponseModel { status: failure.status_of(), body }
}

impl Response {
    /// The reply for a request that was served.
    pub fn ok(body: String) -> (reply: Response)
        ensures
            reply@ == served(body@),
    {
        Response { status: Status::Success, body }
    }

    /// The reply for a request that failed with `failure`.
    pub fn failure(failure: Failure, body: &str) -> (reply: Response)
        ensures
            reply@ == failed(failure, body@),
    {
        Response { status: failure.status(), body: String::from_str(body) }
    }

    /// The text of the whole reply, as it is sent.
    pub fn to_text(&self) -> (text: String)
        ensures
            text@ == self@.text(),
    {
        String::from_str(self.status.line()).concat(self.body.as_str())
    }
}

} // verus!
