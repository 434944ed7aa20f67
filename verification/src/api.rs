//! The HTTP surface of the service: where a request goes, what is to be
//! done for it, and what it is answered with.
//!
//! A request arrives here as plain values: its method, the segments of its
//! path, the length it announces, and its body once that has been read as a
//! message. `route` finds the route and `plan` the next step: an answer, or
//! a query for the table. `conclude` turns what the table said into the
//! answer. A program that keeps the rows in a database puts its own asking
//! between `plan` and `conclude`; `serve` and the handlers do it with the
//! table held in memory.

use std::string::FromUtf8Error;
use vstd::prelude::*;
use crate::message::{
    opt_chars, stats_views, texts, MessageView, StatsView, ThankYouMessage, ThankYouStats,
};
use crate::reply::{
    bare, count_answer, count_reply, detail_answer, detail_reply, info_answer, info_reply,
    invalid, invalid_reply, post_note_answer, post_note_reply, refusal, Body, BodyView, Response,
    ResponseView, BAD_REQUEST, CREATED, INTERNAL_SERVER_ERROR, OK,
};
use crate::routes::{route, route_of, Method, Route, RouteView};
use crate::store::{Store, StoreError};
use crate::table::{law_insert_counts, Table};
use crate::validation::{acceptable, violation, violations, Field, ViolationKind};

verus! {

/// Most entries that the leaderboard and the notes of a tool are cut to.
pub const LIST_LIMIT: usize = 200;

/// The error of `String::from_utf8`, which a failed decoding hands back.
#[verifier::external_type_specification]
#[verifier::external_body]
pub struct ExFromUtf8Error(std::string::FromUtf8Error);

/// Why a path segment could not be decoded.
#[derive(Debug, Clone, Copy, PartialEq, Eq, Structural)]
pub enum DecodeError {
    /// The bytes that the segment stands for are not UTF-8.
    InvalidUtf8,
}

/// The text that a percent-encoded path segment stands for, or nothing where
/// the bytes it stands for are not UTF-8. This names what `urlencoding::decode`
/// computes; it is not defined here.
pub uninterp spec fn percent_decoded(segment: Seq<char>) -> Option<Seq<char>>;

/// The HTML that a Markdown text is rendered to. This names what
/// `comrak::markdown_to_html` computes with its default options; it is not
/// defined here.
pub uninterp spec fn rendered_html(markdown: Seq<char>) -> Seq<char>;

/// Calls `urlencoding::decode`, which replaces each `%` that two hexadecimal
/// digits follow by the byte they give and reads the outcome as UTF-8. What
/// comes back is `percent_decoded` of the segment, and the error of the UTF-8
/// check where that is nothing. A segment without any `%` is handed back as
/// it is. This contract is trusted, not proved.
#[verifier::external_body]
fn percent_decode(segment: &str) -> (outcome: Result<String, FromUtf8Error>)
    ensures
        outcome matches Ok(text) ==> percent_decoded(segment@) == Some(text@),
        outcome is Err ==> percent_decoded(segment@) is None,
        outcome is Ok || segment@.contains('%'),
        outcome matches Ok(text) ==> text@ == segment@ || segment@.contains('%'),
{
    match urlencoding::decode(segment) {
        Ok(text) => Ok(text.into_owned()),
        Err(error) => Err(error),
    }
}

/// Calls `comrak::markdown_to_html` with the default options. What comes
/// back is `rendered_html` of the text. This contract is trusted, not proved.
#[verifier::external_body]
fn render_markdown(markdown: &str) -> (page: String)
    ensures
        page@ == rendered_html(markdown@),
{
    comrak::markdown_to_html(markdown, &comrak::Options::default())
}

/// Whether a segment that holds no `%` stands for itself. This is so of
/// every segment that has been decoded.
pub open spec fn plain_kept(segment: Seq<char>) -> bool {
    segment.contains('%') || percent_decoded(segment) == Some(segment)
}

/// Whether the segment that a route carries, if it carries one, stands for
/// itself where it holds no `%`.
pub open spec fn plain_name_kept(route: RouteView) -> bool {
    match route {
        RouteView::Count(segment) => plain_kept(segment),
        RouteView::Detail(segment) => plain_kept(segment),
        _ => true,
    }
}

/// Decodes the path segment that names a tool.
///
/// A name without `%` comes back unchanged.
pub fn decode_program(segment: &str) -> (outcome: Result<String, DecodeError>)
    ensures
        outcome matches Ok(program) ==> percent_decoded(segment@) == Some(program@),
        outcome is Err ==> percent_decoded(segment@) is None,
        plain_kept(segment@),
{
    match percent_decode(segment) {
        Ok(program) => Ok(program),
        Err(_) => Err(DecodeError::InvalidUtf8),
    }
}

/// The index page: 200 with the text `readme`, which is Markdown, as HTML.
pub fn index_reply(readme: &str) -> (response: Response)
    ensures
        response@ == (ResponseView {
            status: OK as int,
            body: BodyView::Html(rendered_html(readme@)),
        }),
{
    Response { status: OK, body: Body::Html(render_markdown(readme)) }
}

/// What the table is asked to do for a request.
#[derive(Debug)]
pub enum Query {
    /// Store one note.
    Insert { program: String, note: Option<String> },
    /// Count the rows of a tool.
    Count { program: String },
    /// List the most thanked tools, `limit` at most.
    Stats { limit: usize },
    /// List the notes of a tool, `limit` at most.
    Detail { program: String, limit: usize },
}

/// What a `Query` holds, as mathematical values.
pub enum QueryView {
    Insert { program: Seq<char>, note: Option<Seq<char>> },
    Count { program: Seq<char> },
    Stats { limit: nat },
    Detail { program: Seq<char>, limit: nat },
}

impl View for Query {
    type V = QueryView;

    open spec fn view(&self) -> QueryView {
        match *self {
            Query::Insert { program, note } => QueryView::Insert {
                program: program@,
                note: opt_chars(note),
            },
            Query::Count { program } => QueryView::Count { program: program@ },
            Query::Stats { limit } => QueryView::Stats { limit: limit as nat },
            Query::Detail { program, limit } => QueryView::Detail {
                program: program@,
                limit: limit as nat,
            },
        }
    }
}

/// What the table found, or that it failed.
#[derive(Debug)]
pub enum Answer {
    Inserted(Result<(), StoreError>),
    Counted(Result<i64, StoreError>),
    Listed(Result<Vec<ThankYouStats>, StoreError>),
    Notes(Result<Vec<String>, StoreError>),
}

/// What an `Answer` holds, as mathematical values: what was found, or
/// nothing where the table failed.
pub enum AnswerView {
    Inserted(bool),
    Counted(Option<int>),
    Listed(Option<Seq<StatsView>>),
    Notes(Option<Seq<Seq<char>>>),
}

impl View for Answer {
    type V = AnswerView;

    open spec fn view(&self) -> AnswerView {
        match *self {
            Answer::Inserted(outcome) => AnswerView::Inserted(outcome is Ok),
            Answer::Counted(outcome) => AnswerView::Counted(
                match outcome {
                    Ok(count) => Some(count as int),
                    Err(_) => None,
                },
            ),
            Answer::Listed(outcome) => AnswerView::Listed(
                match outcome {
                    Ok(list) => Some(stats_views(list@)),
                    Err(_) => None,
                },
            ),
            Answer::Notes(outcome) => AnswerView::Notes(
                match outcome {
                    Ok(notes) => Some(texts(notes@)),
                    Err(_) => None,
                },
            ),
        }
    }
}

/// What is to be done next for a request: answer it, or ask the table first.
#[derive(Debug)]
pub enum Step {
    Reply(Response),
    Ask(Query),
}

/// What a `Step` holds, as mathematical values.
pub enum StepView {
    Reply(ResponseView),
    Ask(QueryView),
}

impl View for Step {
    type V = StepView;

    open spec fn view(&self) -> StepView {
        match *self {
            Step::Reply(response) => StepView::Reply(response@),
            Step::Ask(query) => StepView::Ask(query@),
        }
    }
}

/// The step for a submission whose body was read as `message`: 400 where
/// the body was no message, 400 with all that is broken where it breaks a
/// rule, else the note is to be stored.
pub open spec fn note_step(message: Option<MessageView>) -> StepView {
    match message {
        None => StepView::Reply(bare(BAD_REQUEST as int)),
        Some(message) => if acceptable(message) {
            StepView::Ask(QueryView::Insert { program: message.program, note: message.note })
        } else {
            StepView::Reply(invalid(violations(message)))
        },
    }
}

/// The step for a question for the count of a tool, once the segment that
/// names it has been decoded: 400 where it could not be.
pub open spec fn count_step(decoded: Option<Seq<char>>) -> StepView {
    match decoded {
        Some(program) => StepView::Ask(QueryView::Count { program }),
        None => StepView::Reply(bare(BAD_REQUEST as int)),
    }
}

/// The step for a question for the notes of a tool, once the segment that
/// names it has been decoded: 400 where it could not be.
pub open spec fn detail_step(decoded: Option<Seq<char>>) -> StepView {
    match decoded {
        Some(program) => StepView::Ask(QueryView::Detail { program, limit: LIST_LIMIT as nat }),
        None => StepView::Reply(bare(BAD_REQUEST as int)),
    }
}

/// The step for a request that was routed to `route`.
pub open spec fn step_of(
    route: RouteView,
    message: Option<MessageView>,
    readme: Seq<char>,
) -> StepView {
    match route {
        RouteView::Index => StepView::Reply(
            ResponseView { status: OK as int, body: BodyView::Html(rendered_html(readme)) },
        ),
        RouteView::Note => note_step(message),
        RouteView::Stats => StepView::Ask(QueryView::Stats { limit: LIST_LIMIT as nat }),
        RouteView::Count(segment) => count_step(percent_decoded(segment)),
        RouteView::Detail(segment) => detail_step(percent_decoded(segment)),
        RouteView::Refused(status) => StepView::Reply(bare(status)),
    }
}

/// The answer to a request for which the table was asked `query` and
/// answered `answer`. An answer to another kind of query is answered with 500.
pub open spec fn conclusion(query: QueryView, answer: AnswerView) -> ResponseView {
    match query {
        QueryView::Insert { .. } => match answer {
            AnswerView::Inserted(stored) => post_note_answer(stored),
            _ => bare(INTERNAL_SERVER_ERROR as int),
        },
        QueryView::Count { .. } => match answer {
            AnswerView::Counted(counted) => count_answer(counted),
            _ => bare(INTERNAL_SERVER_ERROR as int),
        },
        QueryView::Stats { .. } => match answer {
            AnswerView::Listed(listed) => info_answer(listed),
            _ => bare(INTERNAL_SERVER_ERROR as int),
        },
        QueryView::Detail { program, .. } => match answer {
            AnswerView::Notes(found) => detail_answer(program, found),
            _ => bare(INTERNAL_SERVER_ERROR as int),
        },
    }
}

/// Whether a table that was `before` may answer `query` with `answer` and
/// be `after` then.
pub open spec fn answered(before: Table, query: QueryView, answer: AnswerView, after: Table) -> bool {
    match query {
        QueryView::Insert { program, note } => {
            &&& answer == AnswerView::Inserted(before.accepts_row())
            &&& if before.accepts_row() {
                before.grown_by(program, note, after)
            } else {
                after == before
            }
        },
        QueryView::Count { program } => {
            &&& after == before
            &&& answer == AnswerView::Counted(Some(before.count_for(program) as int))
        },
        QueryView::Stats { limit } => {
            &&& after == before
            &&& if before.ready {
                answer matches AnswerView::Listed(Some(list)) && before.is_stats(limit, list)
            } else {
                answer == AnswerView::Listed(None)
            }
        },
        QueryView::Detail { program, limit } => {
            &&& after == before
            &&& answer == AnswerView::Notes(
                if before.ready {
                    Some(before.detail(program, limit))
                } else {
                    None
                },
            )
        },
    }
}

/// What a submission does to the table and what it is answered with: a
/// message that breaks a rule is answered with 400 and all it breaks, and
/// the table stays as it is; an acceptable one is inserted and answered with
/// 201, or with 500 where the table cannot take it.
pub open spec fn submitted(
    before: Table,
    message: MessageView,
    after: Table,
    response: ResponseView,
) -> bool {
    if !acceptable(message) {
        after == before && response == invalid(violations(message))
    } else if !before.accepts_row() {
        after == before && response == bare(INTERNAL_SERVER_ERROR as int)
    } else {
        &&& response == bare(CREATED as int)
        &&& before.grown_by(message.program, message.note, after)
    }
}

/// The answer to a question for the count of the tool that a segment names,
/// once the segment has been decoded: 400 where it could not be, else the
/// number of the tool's rows as text.
pub open spec fn count_of(table: Table, decoded: Option<Seq<char>>) -> ResponseView {
    match decoded {
        Some(program) => count_answer(Some(table.count_for(program) as int)),
        None => bare(BAD_REQUEST as int),
    }
}

/// Whether `response` answers a question for the leaderboard of `table`.
pub open spec fn informed(table: Table, response: ResponseView) -> bool {
    if table.ready {
        &&& response.status == OK
        &&& response.body matches BodyView::Stats(list)
        &&& table.is_stats(LIST_LIMIT as nat, list)
    } else {
        response == bare(INTERNAL_SERVER_ERROR as int)
    }
}

/// The answer to a question for the notes of the tool that a segment names,
/// once the segment has been decoded: 400 where it could not be, 500 where
/// the table fails, else the decoded name with its notes.
pub open spec fn detail_of(table: Table, decoded: Option<Seq<char>>) -> ResponseView {
    match decoded {
        Some(program) => detail_answer(
            program,
            if table.ready {
                Some(table.detail(program, LIST_LIMIT as nat))
            } else {
                None
            },
        ),
        None => bare(BAD_REQUEST as int),
    }
}

/// What a request does to the table and what it is answered with.
pub open spec fn served(
    before: Table,
    readme: Seq<char>,
    request: RequestView,
    after: Table,
    response: ResponseView,
) -> bool {
    match route_of(request.method, request.path, request.content_length) {
        RouteView::Index => after == before && response == (ResponseView {
            status: OK as int,
            body: BodyView::Html(rendered_html(readme)),
        }),
        RouteView::Note => match request.message {
            Some(message) => submitted(before, message, after, response),
            None => after == before && response == bare(BAD_REQUEST as int),
        },
        RouteView::Stats => after == before && informed(before, response),
        RouteView::Count(segment) => after == before && response == count_of(
            before,
            percent_decoded(segment),
        ),
        RouteView::Detail(segment) => after == before && response == detail_of(
            before,
            percent_decoded(segment),
        ),
        RouteView::Refused(status) => after == before && response == bare(status),
    }
}

/// Asking the table what the step for a request says, and concluding from
/// its answer, serves the request.
pub proof fn law_steps_serve(
    before: Table,
    readme: Seq<char>,
    request: RequestView,
    answer: AnswerView,
    after: Table,
)
    requires
        step_of(
            route_of(request.method, request.path, request.content_length),
            request.message,
            readme,
        ) matches StepView::Ask(query) && answered(before, query, answer, after),
    ensures
        served(
            before,
            readme,
            request,
            after,
            conclusion(
                step_of(
                    route_of(request.method, request.path, request.content_length),
                    request.message,
                    readme,
                )->Ask_0,
                answer,
            ),
        ),
{
}

/// A message that breaks a rule never reaches the table: the table stays as
/// it was and the answer is 400 with what the message breaks. For a message
/// without a tool name the first thing that is reported is that the name is
/// too short.
pub proof fn law_invalid_submission(
    before: Table,
    message: MessageView,
    after: Table,
    response: ResponseView,
)
    requires
        submitted(before, message, after, response),
        !acceptable(message),
    ensures
        after == before,
        response.status == BAD_REQUEST,
        response.body == BodyView::Errors(violations(message)),
        message.program.len() == 0 ==> violations(message)[0] == violation(
            Field::Program,
            ViolationKind::TooShort,
        ),
{
}

/// A submission that is answered with 201 raises the count that is handed
/// out for its tool by one, and a submission that is answered otherwise
/// leaves every count as it was.
pub proof fn law_submission_counted(
    before: Table,
    message: MessageView,
    after: Table,
    response: ResponseView,
    program: Seq<char>,
)
    requires
        submitted(before, message, after, response),
    ensures
        response.status == CREATED ==> count_of(after, Some(message.program)) == count_answer(
            Some(before.count_for(message.program) as int + 1),
        ),
        response.status == CREATED && program != message.program ==> count_of(after, Some(program))
            == count_of(before, Some(program)),
        response.status != CREATED ==> count_of(after, Some(program)) == count_of(
            before,
            Some(program),
        ),
{
    if acceptable(message) && before.accepts_row() {
        let created = choose|created: std::time::SystemTime|
            after == before.inserted(message.program, message.note, created);
        law_insert_counts(before, message.program, message.note, created, program);
    }
}

/// Decides what is to be done for a submission whose body was read as
/// `message`, or could not be read as one.
pub fn plan_note(message: Option<ThankYouMessage>) -> (step: Step)
    ensures
        step@ == note_step(
            match message {
                Some(message) => Some(message@),
                None => None,
            },
        ),
{
    match message {
        None => Step::Reply(refusal(BAD_REQUEST)),
        Some(message) => match message.validate() {
            Err(errors) => Step::Reply(invalid_reply(errors)),
            Ok(_) => {
                let ThankYouMessage { program, note } = message;
                Step::Ask(Query::Insert { program, note })
            },
        },
    }
}

/// Decides what is to be done for a question for the count of a tool whose
/// name has been decoded.
pub fn plan_count(decoded: Result<String, DecodeError>) -> (step: Step)
    ensures
        step@ == count_step(
            match decoded {
                Ok(program) => Some(program@),
                Err(_) => None,
            },
        ),
{
    match decoded {
        Ok(program) => Step::Ask(Query::Count { program }),
        Err(_) => Step::Reply(refusal(BAD_REQUEST)),
    }
}

/// Decides what is to be done for a question for the notes of a tool whose
/// name has been decoded.
pub fn plan_detail(decoded: Result<String, DecodeError>) -> (step: Step)
    ensures
        step@ == detail_step(
            match decoded {
                Ok(program) => Some(program@),
                Err(_) => None,
            },
        ),
{
    match decoded {
        Ok(program) => Step::Ask(Query::Detail { program, limit: LIST_LIMIT }),
        Err(_) => Step::Reply(refusal(BAD_REQUEST)),
    }
}

/// Decides what is to be done for a request that was routed to `route`.
/// `message` is the body of a submission, if it could be read as a message,
/// and `readme` the Markdown text of the index page.
pub fn plan(route: Route, message: Option<ThankYouMessage>, readme: &str) -> (step: Step)
    ensures
        step@ == step_of(
            route@,
            match message {
                Some(message) => Some(message@),
                None => None,
            },
            readme@,
        ),
        plain_name_kept(route@),
{
    match route {
        Route::Index => Step::Reply(index_reply(readme)),
        Route::Note => plan_note(message),
        Route::Stats => Step::Ask(Query::Stats { limit: LIST_LIMIT }),
        Route::Count(segment) => plan_count(decode_program(segment.as_str())),
        Route::Detail(segment) => plan_detail(decode_program(segment.as_str())),
        Route::Refused(status) => Step::Reply(refusal(status)),
    }
}

/// Answers a request for which the table was asked `query` and answered
/// `answer`.
pub fn conclude(query: Query, answer: Answer) -> (response: Response)
    ensures
        response@ == conclusion(query@, answer@),
{
    match query {
        Query::Insert { .. } => match answer {
            Answer::Inserted(outcome) => post_note_reply(outcome),
            _ => refusal(INTERNAL_SERVER_ERROR),
        },
        Query::Count { .. } => match answer {
            Answer::Counted(outcome) => count_reply(outcome),
            _ => refusal(INTERNAL_SERVER_ERROR),
        },
        Query::Stats { .. } => match answer {
            Answer::Listed(outcome) => info_reply(outcome),
            _ => refusal(INTERNAL_SERVER_ERROR),
        },
        Query::Detail { program, .. } => match answer {
            Answer::Notes(outcome) => detail_reply(program, outcome),
            _ => refusal(INTERNAL_SERVER_ERROR),
        },
    }
}

/// Asks the table held in memory.
pub fn ask(store: &mut Store, query: &Query) -> (answer: Answer)
    ensures
        answered(old(store)@, query@, answer@, final(store)@),
{
    match query {
        Query::Insert { program, note } => {
            let copy = match note {
                Some(text) => Some(text.clone()),
                None => None,
            };
            let answer = Answer::Inserted(store.insert(program.clone(), copy));
            assert(answered(old(store)@, query@, answer@, store@));
            answer
        },
        Query::Count { program } => {
            let answer = Answer::Counted(Ok(store.count_for(program.as_str())));
            assert(answered(old(store)@, query@, answer@, store@));
            answer
        },
        Query::Stats { limit } => {
            let answer = Answer::Listed(store.stats(*limit));
            assert(answered(old(store)@, query@, answer@, store@));
            answer
        },
        Query::Detail { program, limit } => {
            let answer = Answer::Notes(store.detail(program.as_str(), *limit));
            assert(answered(old(store)@, query@, answer@, store@));
            answer
        },
    }
}

/// Does what `step` says on the table held in memory.
pub fn carry_out(store: &mut Store, step: Step) -> (response: Response)
    ensures
        match step@ {
            StepView::Reply(reply) => final(store)@ == old(store)@ && response@ == reply,
            StepView::Ask(query) => exists|answer: AnswerView|
                #[trigger] answered(old(store)@, query, answer, final(store)@) && response@
                    == conclusion(query, answer),
        },
{
    match step {
        Step::Reply(response) => response,
        Step::Ask(query) => {
            let answer = ask(store, &query);
            conclude(query, answer)
        },
    }
}

/// Takes a submission: checks the message, stores it if it is acceptable,
/// and answers.
pub fn handle_post_ty_note(store: &mut Store, message: ThankYouMessage) -> (response: Response)
    ensures
        submitted(old(store)@, message@, final(store)@, response@),
{
    carry_out(store, plan_note(Some(message)))
}

/// Answers a question for the count of the tool that `segment` names.
pub fn handle_count(store: &mut Store, segment: &str) -> (response: Response)
    ensures
        final(store)@ == old(store)@,
        response@ == count_of(old(store)@, percent_decoded(segment@)),
        plain_kept(segment@),
{
    carry_out(store, plan_count(decode_program(segment)))
}

/// Answers a question for the leaderboard.
pub fn handle_info(store: &mut Store) -> (response: Response)
    ensures
        final(store)@ == old(store)@,
        informed(old(store)@, response@),
{
    carry_out(store, Step::Ask(Query::Stats { limit: LIST_LIMIT }))
}

/// Answers a question for the notes of the tool that `segment` names.
pub fn handle_detail(store: &mut Store, segment: &str) -> (response: Response)
    ensures
        final(store)@ == old(store)@,
        response@ == detail_of(old(store)@, percent_decoded(segment@)),
        plain_kept(segment@),
{
    carry_out(store, plan_detail(decode_program(segment)))
}

/// A request, as far as the service looks at it.
#[derive(Debug)]
pub struct Request {
    pub method: Method,
    /// The segments of the path, without the slashes between them.
    pub path: Vec<String>,
    /// The length that the request announces for its body, if it does.
    pub content_length: Option<u64>,
    /// The body, if there is one and it is a message.
    pub message: Option<ThankYouMessage>,
}

/// What a `Request` holds, as mathematical values.
pub struct RequestView {
    pub method: Method,
    pub path: Seq<Seq<char>>,
    pub content_length: Option<u64>,
    pub message: Option<MessageView>,
}

impl View for Request {
    type V = RequestView;

    open spec fn view(&self) -> RequestView {
        RequestView {
            method: self.method,
            path: texts(self.path@),
            content_length: self.content_length,
            message: match self.message {
                Some(message) => Some(message@),
                None => None,
            },
        }
    }
}

/// Answers one request against the table held in memory. `readme` is the
/// Markdown text of the index page.
pub fn serve(store: &mut Store, readme: &str, request: Request) -> (response: Response)
    ensures
        served(old(store)@, readme@, request@, final(store)@, response@),
        plain_name_kept(route_of(request@.method, request@.path, request@.content_length)),
{
    let Request { method, path, content_length, message } = request;
    let step = plan(route(method, &path, content_length), message, readme);
    carry_out(store, step)
}

} // verus!
