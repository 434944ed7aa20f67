use ty_lib::api::{
    ask, carry_out, conclude, decode_program, handle_count, handle_detail, handle_info,
    handle_post_ty_note, index_reply, plan, plan_count, plan_detail, plan_note, serve, Answer,
    DecodeError, Query, Request, Step,
};
use ty_lib::routes::{route, Method, Route};
use ty_lib::reply::{Body, Response};
use ty_lib::store::{Store, StoreError};
use ty_lib::validation::{Field, ViolationKind};
use ty_lib::ThankYouMessage;

const README: &str = "# ty\n\nSay *thank you* to your tools.\n";

fn ready_store() -> Store {
    let mut store = Store::new();
    assert_eq!(store.ensure_schema(), Ok(()));
    store
}

fn segments(path: &str) -> Vec<String> {
    path.split('/').filter(|segment| !segment.is_empty()).map(|segment| segment.to_string()).collect()
}

fn get(store: &mut Store, path: &str) -> Response {
    let request =
        Request { method: Method::Get, path: segments(path), content_length: None, message: None };
    serve(store, README, request)
}

fn post(store: &mut Store, program: &str, note: Option<&str>) -> Response {
    let message =
        ThankYouMessage { program: program.to_string(), note: note.map(|text| text.to_string()) };
    let request = Request {
        method: Method::Post,
        path: segments("/v0/note"),
        content_length: Some(64),
        message: Some(message),
    };
    serve(store, README, request)
}

fn text_of(response: Response) -> String {
    match response.body {
        Body::Text(text) => text,
        other => panic!("unexpected body {:?}", other),
    }
}

fn route_to(method: Method, path: &str, content_length: Option<u64>) -> Route {
    route(method, &segments(path), content_length)
}

#[test]
fn posted_note_is_counted() {
    let mut store = ready_store();
    let response = post(&mut store, "good", Some("hi"));
    assert_eq!(response.status, 201);
    assert!(matches!(response.body, Body::Empty));
    let response = get(&mut store, "/v0/tool/good");
    assert_eq!(response.status, 200);
    assert_eq!(text_of(response), "1");
    assert_eq!(post(&mut store, "good", Some("hi")).status, 201);
    assert_eq!(text_of(get(&mut store, "/v0/tool/good")), "2");
}

#[test]
fn leaderboard_counts_rows_and_notes() {
    let mut store = ready_store();
    post(&mut store, "foo", Some("one"));
    post(&mut store, "foo", None);
    post(&mut store, "foo", Some("two"));
    post(&mut store, "bar", None);
    let response = get(&mut store, "/v0");
    assert_eq!(response.status, 200);
    match response.body {
        Body::Stats(list) => {
            assert!(list
                .iter()
                .any(|entry| entry.program == "foo" && entry.count == 3 && entry.note_count == 2));
            assert_eq!(list.len(), 2);
            assert_eq!(list[0].program, "foo");
            assert_eq!(list[1].program, "bar");
            assert_eq!(list[1].count, 1);
            assert_eq!(list[1].note_count, 0);
        },
        other => panic!("unexpected body {:?}", other),
    }
}

#[test]
fn detail_has_the_notes_of_the_tool_and_no_others() {
    let mut store = ready_store();
    post(&mut store, "foo", Some("one"));
    post(&mut store, "bar", Some("other"));
    post(&mut store, "foo", None);
    post(&mut store, "foo", Some("two"));
    let response = get(&mut store, "/v0/tool/foo/detail");
    assert_eq!(response.status, 200);
    match response.body {
        Body::Detail(detail) => {
            assert_eq!(detail.program, "foo");
            let mut notes = detail.notes;
            notes.sort();
            assert_eq!(notes, vec!["one".to_string(), "two".to_string()]);
        },
        other => panic!("unexpected body {:?}", other),
    }
}

#[test]
fn detail_hands_out_at_most_two_hundred_notes() {
    let mut store = ready_store();
    for i in 0..250 {
        post(&mut store, "foo", Some(&format!("note {}", i)));
    }
    match get(&mut store, "/v0/tool/foo/detail").body {
        Body::Detail(detail) => assert_eq!(detail.notes.len(), 200),
        other => panic!("unexpected body {:?}", other),
    }
}

#[test]
fn leaderboard_hands_out_at_most_two_hundred_tools() {
    let mut store = ready_store();
    for i in 0..210 {
        post(&mut store, &format!("tool{}", i), None);
    }
    post(&mut store, "tool209", None);
    match get(&mut store, "/v0").body {
        Body::Stats(list) => {
            assert_eq!(list.len(), 200);
            assert_eq!(list[0].program, "tool209");
            assert_eq!(list[0].count, 2);
        },
        other => panic!("unexpected body {:?}", other),
    }
}

#[test]
fn message_without_a_tool_name_is_turned_away() {
    let mut store = ready_store();
    let response = post(&mut store, "", None);
    assert_eq!(response.status, 400);
    match response.body {
        Body::Errors(errors) => {
            assert_eq!(errors.errors.len(), 1);
            assert_eq!(errors.errors[0].field, Field::Program);
            assert_eq!(errors.errors[0].kind, ViolationKind::TooShort);
            assert_eq!(
                errors.errors[0].message,
                "Input needs to be at least one character long"
            );
        },
        other => panic!("unexpected body {:?}", other),
    }
    assert_eq!(store.len(), 0);
    assert_eq!(store.count_for(""), 0);
    assert_eq!(text_of(handle_count(&mut store, "")), "0");
    match get(&mut store, "/v0").body {
        Body::Stats(list) => assert!(list.is_empty()),
        other => panic!("unexpected body {:?}", other),
    }
}

#[test]
fn encoded_name_finds_the_rows_of_the_plain_name() {
    let mut store = ready_store();
    let name = "my tool/v2";
    assert_eq!(post(&mut store, name, Some("works")).status, 201);
    let encoded = urlencoding::encode(name).into_owned();
    assert_eq!(encoded, "my%20tool%2Fv2");
    let path = vec!["v0".to_string(), "tool".to_string(), encoded.clone()];
    let request =
        Request { method: Method::Get, path: path.clone(), content_length: None, message: None };
    assert_eq!(text_of(serve(&mut store, README, request)), "1");
    let mut path = path;
    path.push("detail".to_string());
    let request = Request { method: Method::Get, path, content_length: None, message: None };
    match serve(&mut store, README, request).body {
        Body::Detail(detail) => {
            assert_eq!(detail.program, name);
            assert_eq!(detail.notes, vec!["works".to_string()]);
        },
        other => panic!("unexpected body {:?}", other),
    }
}

#[test]
fn segments_are_percent_decoded() {
    assert_eq!(decode_program("good"), Ok("good".to_string()));
    assert_eq!(decode_program("this%20that"), Ok("this that".to_string()));
    assert_eq!(decode_program("%F0%9F%91%BE%20Exterminate%21"), Ok("👾 Exterminate!".to_string()));
    assert_eq!(decode_program("a+b"), Ok("a+b".to_string()));
    assert_eq!(decode_program("100%"), Ok("100%".to_string()));
    assert_eq!(decode_program("%zz"), Ok("%zz".to_string()));
    assert_eq!(decode_program(""), Ok(String::new()));
}

#[test]
fn segment_that_is_not_utf8_is_a_decode_error() {
    assert_eq!(decode_program("%FF"), Err(DecodeError::InvalidUtf8));
    assert_eq!(decode_program("caf%E9"), Err(DecodeError::InvalidUtf8));
}

#[test]
fn undecodable_name_is_answered_with_400() {
    let mut store = ready_store();
    let response = get(&mut store, "/v0/tool/%FF");
    assert_eq!(response.status, 400);
    assert!(matches!(response.body, Body::Empty));
    let response = get(&mut store, "/v0/tool/%FF/detail");
    assert_eq!(response.status, 400);
    assert_eq!(handle_count(&mut store, "%C3").status, 400);
    assert_eq!(handle_detail(&mut store, "%C3").status, 400);
}

#[test]
fn count_on_a_failing_table_is_zero_while_the_lists_fail() {
    let mut store = Store::new();
    let response = get(&mut store, "/v0/tool/good");
    assert_eq!(response.status, 200);
    assert_eq!(text_of(response), "0");
    let response = get(&mut store, "/v0");
    assert_eq!(response.status, 500);
    assert!(matches!(response.body, Body::Empty));
    let response = get(&mut store, "/v0/tool/good/detail");
    assert_eq!(response.status, 500);
    assert!(matches!(response.body, Body::Empty));
    assert_eq!(handle_info(&mut store).status, 500);
}

#[test]
fn post_on_a_failing_table_is_answered_with_500() {
    let mut store = Store::new();
    let response = post(&mut store, "good", Some("hi"));
    assert_eq!(response.status, 500);
    assert!(matches!(response.body, Body::Empty));
    assert_eq!(store.len(), 0);
}

#[test]
fn handler_stores_an_acceptable_message() {
    let mut store = ready_store();
    let message = ThankYouMessage { program: "good".to_string(), note: None };
    assert_eq!(handle_post_ty_note(&mut store, message).status, 201);
    assert_eq!(store.count_for("good"), 1);
    assert!(store.detail("good", 200).unwrap().is_empty());
}

#[test]
fn body_that_is_no_message_is_answered_with_400() {
    let mut store = ready_store();
    let request = Request {
        method: Method::Post,
        path: segments("/v0/note"),
        content_length: Some(2),
        message: None,
    };
    let response = serve(&mut store, README, request);
    assert_eq!(response.status, 400);
    assert!(matches!(response.body, Body::Empty));
    assert_eq!(store.len(), 0);
}

#[test]
fn body_over_the_limit_is_not_read() {
    let mut store = ready_store();
    let message = ThankYouMessage { program: "good".to_string(), note: None };
    let request = Request {
        method: Method::Post,
        path: segments("/v0/note"),
        content_length: Some(4097),
        message: Some(message),
    };
    assert_eq!(serve(&mut store, README, request).status, 413);
    assert_eq!(store.len(), 0);
    assert!(matches!(route_to(Method::Post, "/v0/note", Some(4096)), Route::Note));
    assert!(matches!(route_to(Method::Post, "/v0/note", Some(0)), Route::Note));
    assert!(matches!(route_to(Method::Post, "/v0/note", Some(4097)), Route::Refused(413)));
    assert!(matches!(route_to(Method::Post, "/v0/note", Some(u64::MAX)), Route::Refused(413)));
    assert!(matches!(route_to(Method::Post, "/v0/note", None), Route::Refused(411)));
}

#[test]
fn requests_find_their_routes() {
    assert!(matches!(route_to(Method::Get, "/", None), Route::Index));
    assert!(matches!(route_to(Method::Post, "/", None), Route::Index));
    assert!(matches!(route_to(Method::Get, "/v0", None), Route::Stats));
    assert!(matches!(route_to(Method::Get, "/v0/", None), Route::Stats));
    match route_to(Method::Get, "/v0/tool/git", None) {
        Route::Count(segment) => assert_eq!(segment, "git"),
        other => panic!("unexpected route {:?}", other),
    }
    match route_to(Method::Get, "/v0/tool/my%20tool/detail", None) {
        Route::Detail(segment) => assert_eq!(segment, "my%20tool"),
        other => panic!("unexpected route {:?}", other),
    }
    match route_to(Method::Get, "/v0/tool/detail", None) {
        Route::Count(segment) => assert_eq!(segment, "detail"),
        other => panic!("unexpected route {:?}", other),
    }
    assert!(matches!(route_to(Method::Other, "/v0/tool/git", None), Route::Count(_)));
    assert!(matches!(route_to(Method::Post, "/v0/note/more", Some(10)), Route::Note));
}

#[test]
fn requests_without_a_route_are_turned_away() {
    assert!(matches!(route_to(Method::Get, "/v1", None), Route::Refused(404)));
    assert!(matches!(route_to(Method::Post, "/v1", Some(1)), Route::Refused(404)));
    assert!(matches!(route_to(Method::Get, "/v0/tool", None), Route::Refused(404)));
    assert!(matches!(route_to(Method::Get, "/v0/tool/a/b", None), Route::Refused(404)));
    assert!(matches!(route_to(Method::Get, "/v0/tool/a/detail/b", None), Route::Refused(404)));
    assert!(matches!(route_to(Method::Get, "/v0/other", None), Route::Refused(404)));
    assert!(matches!(route_to(Method::Get, "/v0/note", None), Route::Refused(405)));
    assert!(matches!(route_to(Method::Other, "/v0/note", None), Route::Refused(405)));
    assert!(matches!(route_to(Method::Post, "/v0", Some(1)), Route::Refused(405)));
    assert!(matches!(route_to(Method::Other, "/v0", None), Route::Refused(405)));
    assert!(matches!(route_to(Method::Post, "/v0/tool", Some(1)), Route::Refused(405)));
    let mut store = ready_store();
    let response = get(&mut store, "/nothing/here");
    assert_eq!(response.status, 404);
    assert!(matches!(response.body, Body::Empty));
}

#[test]
fn index_page_is_rendered_from_markdown() {
    let response = index_reply("# ty\n\nSay *thank you*.\n");
    assert_eq!(response.status, 200);
    match response.body {
        Body::Html(page) => assert_eq!(page, "<h1>ty</h1>\n<p>Say <em>thank you</em>.</p>\n"),
        other => panic!("unexpected body {:?}", other),
    }
    let mut store = Store::new();
    let response = get(&mut store, "/");
    assert_eq!(response.status, 200);
    assert!(matches!(response.body, Body::Html(_)));
}

#[test]
fn acceptable_message_is_to_be_stored() {
    let message = ThankYouMessage { program: "good".to_string(), note: Some("hi".to_string()) };
    match plan_note(Some(message)) {
        Step::Ask(Query::Insert { program, note }) => {
            assert_eq!(program, "good");
            assert_eq!(note, Some("hi".to_string()));
        },
        other => panic!("unexpected step {:?}", other),
    }
}

#[test]
fn broken_message_is_answered_at_once() {
    let message = ThankYouMessage { program: "p".repeat(51), note: None };
    match plan_note(Some(message)) {
        Step::Reply(response) => {
            assert_eq!(response.status, 400);
            match response.body {
                Body::Errors(errors) => {
                    assert_eq!(errors.errors.len(), 1);
                    assert_eq!(errors.errors[0].kind, ViolationKind::TooLong);
                },
                other => panic!("unexpected body {:?}", other),
            }
        },
        other => panic!("unexpected step {:?}", other),
    }
    match plan_note(None) {
        Step::Reply(response) => {
            assert_eq!(response.status, 400);
            assert!(matches!(response.body, Body::Empty));
        },
        other => panic!("unexpected step {:?}", other),
    }
}

#[test]
fn decoded_names_are_asked_for() {
    match plan_count(Ok("my tool".to_string())) {
        Step::Ask(Query::Count { program }) => assert_eq!(program, "my tool"),
        other => panic!("unexpected step {:?}", other),
    }
    match plan_detail(Ok("my tool".to_string())) {
        Step::Ask(Query::Detail { program, limit }) => {
            assert_eq!(program, "my tool");
            assert_eq!(limit, 200);
        },
        other => panic!("unexpected step {:?}", other),
    }
    match plan_count(Err(DecodeError::InvalidUtf8)) {
        Step::Reply(response) => assert_eq!(response.status, 400),
        other => panic!("unexpected step {:?}", other),
    }
    match plan_detail(Err(DecodeError::InvalidUtf8)) {
        Step::Reply(response) => assert_eq!(response.status, 400),
        other => panic!("unexpected step {:?}", other),
    }
}

#[test]
fn routes_are_planned() {
    assert!(matches!(plan(Route::Stats, None, README), Step::Ask(Query::Stats { limit: 200 })));
    match plan(Route::Count("a%20b".to_string()), None, README) {
        Step::Ask(Query::Count { program }) => assert_eq!(program, "a b"),
        other => panic!("unexpected step {:?}", other),
    }
    match plan(Route::Detail("a%2Fb".to_string()), None, README) {
        Step::Ask(Query::Detail { program, limit }) => {
            assert_eq!(program, "a/b");
            assert_eq!(limit, 200);
        },
        other => panic!("unexpected step {:?}", other),
    }
    match plan(Route::Count("%80".to_string()), None, README) {
        Step::Reply(response) => assert_eq!(response.status, 400),
        other => panic!("unexpected step {:?}", other),
    }
    match plan(Route::Refused(405), None, README) {
        Step::Reply(response) => assert_eq!(response.status, 405),
        other => panic!("unexpected step {:?}", other),
    }
    match plan(Route::Index, None, README) {
        Step::Reply(response) => {
            assert_eq!(response.status, 200);
            assert!(matches!(response.body, Body::Html(_)));
        },
        other => panic!("unexpected step {:?}", other),
    }
    assert!(matches!(plan(Route::Note, None, README), Step::Reply(_)));
}

#[test]
fn answers_of_the_table_are_concluded_from() {
    let insert = || Query::Insert { program: "good".to_string(), note: None };
    assert_eq!(conclude(insert(), Answer::Inserted(Ok(()))).status, 201);
    assert_eq!(conclude(insert(), Answer::Inserted(Err(StoreError::Unavailable))).status, 500);
    let count = || Query::Count { program: "good".to_string() };
    assert_eq!(text_of(conclude(count(), Answer::Counted(Ok(12)))), "12");
    assert_eq!(text_of(conclude(count(), Answer::Counted(Err(StoreError::Unavailable)))), "0");
    let stats = || Query::Stats { limit: 200 };
    assert_eq!(conclude(stats(), Answer::Listed(Ok(Vec::new()))).status, 200);
    assert_eq!(conclude(stats(), Answer::Listed(Err(StoreError::Unavailable))).status, 500);
    let detail = || Query::Detail { program: "good".to_string(), limit: 200 };
    match conclude(detail(), Answer::Notes(Ok(vec!["hi".to_string()]))).body {
        Body::Detail(found) => {
            assert_eq!(found.program, "good");
            assert_eq!(found.notes, vec!["hi".to_string()]);
        },
        other => panic!("unexpected body {:?}", other),
    }
    assert_eq!(conclude(detail(), Answer::Notes(Err(StoreError::Unavailable))).status, 500);
}

#[test]
fn answer_to_another_query_is_a_server_error() {
    let response = conclude(Query::Stats { limit: 200 }, Answer::Counted(Ok(3)));
    assert_eq!(response.status, 500);
    assert!(matches!(response.body, Body::Empty));
    let response =
        conclude(Query::Count { program: "good".to_string() }, Answer::Inserted(Ok(())));
    assert_eq!(response.status, 500);
    let response =
        conclude(Query::Insert { program: "good".to_string(), note: None }, Answer::Notes(Ok(Vec::new())));
    assert_eq!(response.status, 500);
    let response = conclude(
        Query::Detail { program: "good".to_string(), limit: 200 },
        Answer::Listed(Ok(Vec::new())),
    );
    assert_eq!(response.status, 500);
}

#[test]
fn table_in_memory_answers_queries() {
    let mut store = ready_store();
    let insert = Query::Insert { program: "good".to_string(), note: Some("hi".to_string()) };
    assert!(matches!(ask(&mut store, &insert), Answer::Inserted(Ok(()))));
    assert!(matches!(ask(&mut store, &insert), Answer::Inserted(Ok(()))));
    let count = Query::Count { program: "good".to_string() };
    assert!(matches!(ask(&mut store, &count), Answer::Counted(Ok(2))));
    match ask(&mut store, &Query::Stats { limit: 10 }) {
        Answer::Listed(Ok(list)) => {
            assert_eq!(list.len(), 1);
            assert_eq!(list[0].count, 2);
            assert_eq!(list[0].note_count, 2);
        },
        other => panic!("unexpected answer {:?}", other),
    }
    match ask(&mut store, &Query::Detail { program: "good".to_string(), limit: 1 }) {
        Answer::Notes(Ok(notes)) => assert_eq!(notes, vec!["hi".to_string()]),
        other => panic!("unexpected answer {:?}", other),
    }
    let mut missing = Store::new();
    assert!(matches!(ask(&mut missing, &insert), Answer::Inserted(Err(StoreError::Unavailable))));
    assert!(matches!(ask(&mut missing, &count), Answer::Counted(Ok(0))));
    assert!(matches!(
        ask(&mut missing, &Query::Stats { limit: 10 }),
        Answer::Listed(Err(StoreError::Unavailable))
    ));
}

#[test]
fn steps_are_carried_out_on_the_table() {
    let mut store = ready_store();
    let step = Step::Ask(Query::Insert { program: "good".to_string(), note: None });
    assert_eq!(carry_out(&mut store, step).status, 201);
    assert_eq!(store.count_for("good"), 1);
    let response = carry_out(&mut store, Step::Reply(ty_lib::reply::refusal(404)));
    assert_eq!(response.status, 404);
    assert_eq!(store.len(), 1);
}
