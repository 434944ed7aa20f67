//! What the command line client decides: whether a note is sent, where to,
//! and what the person at the terminal is told.

use vstd::prelude::*;
use vstd::string::StringExecFns;
use crate::message::{opt_chars, texts, MessageView, ThankYouMessage};
use crate::reply::CREATED;
use crate::validation::{acceptable, message_texts, violations};

verus! {

/// Seconds that the client waits for the service.
pub const TIMEOUT_SECONDS: u64 = 7;

/// What the client does with what was typed.
#[derive(Debug)]
pub enum Submission {
    /// The message is in order and is sent.
    Send(ThankYouMessage),
    /// The message breaks rules; these lines are shown and nothing is sent.
    Complain(Vec<String>),
}

/// The address that notes are posted to at a service that lives at `endpoint`.
pub open spec fn note_url_of(endpoint: Seq<char>) -> Seq<char> {
    endpoint + "/note"@
}

/// What is shown when a note did not reach the service.
pub open spec fn failure_notice() -> Seq<char> {
    "Faild to collect your thank you note. Please try again later."@
}

/// Puts the tool name and the note into a message and checks it: a message
/// in order is to be sent, and for one that is not the text of every broken
/// rule is to be shown.
pub fn prepare(program: String, note: Option<String>) -> (submission: Submission)
    ensures
        ({
            let message = MessageView { program: program@, note: opt_chars(note) };
            match submission {
                Submission::Send(ready) => acceptable(message) && ready@ == message,
                Submission::Complain(lines) => !acceptable(message) && texts(lines@)
                    == message_texts(violations(message)),
            }
        }),
{
    let message = ThankYouMessage { program, note };
    match message.validate() {
        Ok(_) => Submission::Send(message),
        Err(errors) => Submission::Complain(errors.messages()),
    }
}

/// The address that notes are posted to at a service that lives at `endpoint`.
pub fn note_url(endpoint: &str) -> (url: String)
    ensures
        url@ == note_url_of(endpoint@),
{
    String::from_str(endpoint).concat("/note")
}

/// What the person is told once the post has ended: nothing if the service
/// answered 201, else that the note was not collected. `status` is the
/// status of the answer, or nothing if no answer came.
pub fn delivery_notice(status: Option<u16>) -> (notice: Option<String>)
    ensures
        status == Some(CREATED) ==> notice is None,
        status != Some(CREATED) ==> opt_chars(notice) == Some(failure_notice()),
{
    let created = match status {
        Some(code) => code == CREATED,
        None => false,
    };
    if created {
        None
    } else {
        Some("Faild to collect your thank you note. Please try again later.".to_owned())
    }
}

} // verus!
