//! What the service answers: a status and a body.
//!
//! A body is kept as the value it stands for. Turning it into bytes on the
//! wire is left to the program that talks HTTP.

use vstd::prelude::*;
use crate::decimal::{decimal, decimal_text};
use crate::message::{
    stats_views, texts, DetailView, StatsView, ThankYouDetail, ThankYouStats,
};
use crate::store::StoreError;
use crate::validation::{ValidationErrors, Violation};

verus! {

pub const OK: u16 = 200;

pub const CREATED: u16 = 201;

pub const BAD_REQUEST: u16 = 400;

pub const NOT_FOUND: u16 = 404;

pub const METHOD_NOT_ALLOWED: u16 = 405;

pub const LENGTH_REQUIRED: u16 = 411;

pub const PAYLOAD_TOO_LARGE: u16 = 413;

pub const INTERNAL_SERVER_ERROR: u16 = 500;

/// The body of an answer.
#[derive(Debug)]
pub enum Body {
    /// Nothing at all.
    Empty,
    /// A page of HTML.
    Html(String),
    /// Plain text, sent as it is.
    Text(String),
    /// The leaderboard, sent as a JSON array.
    Stats(Vec<ThankYouStats>),
    /// The notes of one tool, sent as a JSON object.
    Detail(ThankYouDetail),
    /// The rules that a message broke, sent as a JSON object that lists the
    /// texts under the name of each field.
    Errors(ValidationErrors),
}

/// What a `Body` holds, as mathematical values.
pub enum BodyView {
    Empty,
    Html(Seq<char>),
    Text(Seq<char>),
    Stats(Seq<StatsView>),
    Detail(DetailView),
    Errors(Seq<Violation>),
}

impl View for Body {
    type V = BodyView;

    open spec fn view(&self) -> BodyView {
        match *self {
            Body::Empty => BodyView::Empty,
            Body::Html(page) => BodyView::Html(page@),
            Body::Text(text) => BodyView::Text(text@),
            Body::Stats(list) => BodyView::Stats(stats_views(list@)),
            Body::Detail(detail) => BodyView::Detail(detail@),
            Body::Errors(errors) => BodyView::Errors(errors@),
        }
    }
}

/// An answer of the service.
#[derive(Debug)]
pub struct Response {
    pub status: u16,
    pub body: Body,
}

/// What a `Response` holds, as mathematical values.
pub struct ResponseView {
    pub status: int,
    pub body: BodyView,
}

impl View for Response {
    type V = ResponseView;

    open spec fn view(&self) -> ResponseView {
        ResponseView { status: self.status as int, body: self.body@ }
    }
}

/// An answer that has a status and nothing else.
pub open spec fn bare(status: int) -> ResponseView {
    ResponseView { status, body: BodyView::Empty }
}

/// The answer to a message that broke the rules `broken`.
pub open spec fn invalid(broken: Seq<Violation>) -> ResponseView {
    ResponseView { status: BAD_REQUEST as int, body: BodyView::Errors(broken) }
}

/// The answer to a submission once the table has been asked to take it.
pub open spec fn post_note_answer(stored: bool) -> ResponseView {
    if stored {
        bare(CREATED as int)
    } else {
        bare(INTERNAL_SERVER_ERROR as int)
    }
}

/// The answer to a question for the count of one tool. A table that fails
/// counts as one that holds nothing for the tool.
pub open spec fn count_answer(counted: Option<int>) -> ResponseView {
    let count = match counted {
        Some(n) => n,
        None => 0,
    };
    ResponseView { status: OK as int, body: BodyView::Text(decimal(count)) }
}

/// The answer to a question for the leaderboard.
pub open spec fn info_answer(listed: Option<Seq<StatsView>>) -> ResponseView {
    match listed {
        Some(list) => ResponseView { status: OK as int, body: BodyView::Stats(list) },
        None => bare(INTERNAL_SERVER_ERROR as int),
    }
}

/// The answer to a question for the notes of `program`.
pub open spec fn detail_answer(program: Seq<char>, found: Option<Seq<Seq<char>>>) -> ResponseView {
    match found {
        Some(notes) => ResponseView {
            status: OK as int,
            body: BodyView::Detail(DetailView { program, notes }),
        },
        None => bare(INTERNAL_SERVER_ERROR as int),
    }
}

/// An answer with the given status and an empty body.
pub fn refusal(status: u16) -> (response: Response)
    ensures
        response@ == bare(status as int),
{
    Response { status, body: Body::Empty }
}

/// Answers a message that broke rules: 400, with every broken rule.
pub fn invalid_reply(errors: ValidationErrors) -> (response: Response)
    ensures
        response@ == invalid(errors@),
{
    Response { status: BAD_REQUEST, body: Body::Errors(errors) }
}

/// Answers a submission: 201 when the row was stored, 500 when the table
/// failed. Either way the body is empty.
pub fn post_note_reply(outcome: Result<(), StoreError>) -> (response: Response)
    ensures
        response@ == post_note_answer(outcome is Ok),
{
    match outcome {
        Ok(_) => refusal(CREATED),
        Err(_) => refusal(INTERNAL_SERVER_ERROR),
    }
}

/// Answers a question for a count: always 200 with the number as plain
/// text, and with `0` when the table failed.
pub fn count_reply(outcome: Result<i64, StoreError>) -> (response: Response)
    ensures
        response@ == count_answer(
            match outcome {
                Ok(n) => Some(n as int),
                Err(_) => None,
            },
        ),
{
    let count = match outcome {
        Ok(n) => n,
        Err(_) => 0,
    };
    Response { status: OK, body: Body::Text(decimal_text(count)) }
}

/// Answers a question for the leaderboard: 200 with the list, or 500 when
/// the table failed.
pub fn info_reply(outcome: Result<Vec<ThankYouStats>, StoreError>) -> (response: Response)
    ensures
        response@ == info_answer(
            match outcome {
                Ok(list) => Some(stats_views(list@)),
                Err(_) => None,
            },
        ),
{
    match outcome {
        Ok(list) => Response { status: OK, body: Body::Stats(list) },
        Err(_) => refusal(INTERNAL_SERVER_ERROR),
    }
}

/// Answers a question for the notes of `program`: 200 with the tool's name
/// and the notes, or 500 when the table failed.
pub fn detail_reply(program: String, outcome: Result<Vec<String>, StoreError>) -> (response:
    Response)
    ensures
        response@ == detail_answer(
            program@,
            match outcome {
                Ok(notes) => Some(texts(notes@)),
                Err(_) => None,
            },
        ),
{
    match outcome {
        Ok(notes) => Response { status: OK, body: Body::Detail(ThankYouDetail { program, notes }) },
        Err(_) => refusal(INTERNAL_SERVER_ERROR),
    }
}

} // verus!
