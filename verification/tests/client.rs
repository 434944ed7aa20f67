use ty_lib::client::{delivery_notice, note_url, prepare, Submission, TIMEOUT_SECONDS};

#[test]
fn message_in_order_is_sent() {
    match prepare("cargo".to_string(), Some("fast builds".to_string())) {
        Submission::Send(message) => {
            assert_eq!(message.program, "cargo");
            assert_eq!(message.note, Some("fast builds".to_string()));
        },
        other => panic!("unexpected decision {:?}", other),
    }
    match prepare("cargo".to_string(), None) {
        Submission::Send(message) => assert_eq!(message.note, None),
        other => panic!("unexpected decision {:?}", other),
    }
}

#[test]
fn broken_rules_are_shown_and_nothing_is_sent() {
    match prepare(String::new(), Some("n".repeat(2049))) {
        Submission::Complain(lines) => assert_eq!(
            lines,
            vec![
                "Input needs to be at least one character long".to_string(),
                "Note too long! Please keep it under 2048 characters.".to_string(),
            ]
        ),
        other => panic!("unexpected decision {:?}", other),
    }
    match prepare("p".repeat(51), None) {
        Submission::Complain(lines) => assert_eq!(
            lines,
            vec!["Tool name can't be longer than 50 characters, sorry!".to_string()]
        ),
        other => panic!("unexpected decision {:?}", other),
    }
}

#[test]
fn notes_are_posted_below_the_endpoint() {
    assert_eq!(note_url("https://ty.example.org/v0"), "https://ty.example.org/v0/note");
    assert_eq!(note_url(""), "/note");
}

#[test]
fn only_201_counts_as_delivered() {
    assert_eq!(delivery_notice(Some(201)), None);
    let notice = Some("Faild to collect your thank you note. Please try again later.".to_string());
    assert_eq!(delivery_notice(Some(200)), notice);
    assert_eq!(delivery_notice(Some(400)), notice);
    assert_eq!(delivery_notice(Some(500)), notice);
    assert_eq!(delivery_notice(None), notice);
}

#[test]
fn client_waits_seven_seconds() {
    assert_eq!(TIMEOUT_SECONDS, 7);
}
