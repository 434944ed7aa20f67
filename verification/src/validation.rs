//! The rules a thank-you note has to meet before it is stored.
//!
//! Lengths are counted in characters (Unicode scalar values), never in bytes.
//! Every rule is checked on its own, so one message can break several.

use vstd::prelude::*;
use validator::ValidateLength;
use crate::message::{texts, MessageView, ThankYouMessage};

verus! {

/// Fewest characters a tool name may have.
pub const PROGRAM_MIN_CHARS: u64 = 1;

/// Most characters a tool name may have.
pub const PROGRAM_MAX_CHARS: u64 = 50;

/// Most characters a note may have.
pub const NOTE_MAX_CHARS: u64 = 2048;

/// The part of a message that a rule is about.
#[derive(Debug, Clone, Copy, PartialEq, Eq, Structural)]
pub enum Field {
    Program,
    Note,
}

/// The way in which a field breaks its rule.
#[derive(Debug, Clone, Copy, PartialEq, Eq, Structural)]
pub enum ViolationKind {
    TooShort,
    TooLong,
}

/// One broken rule, with the text that is shown to the person who sent the message.
#[derive(Debug)]
pub struct ValidationError {
    pub field: Field,
    pub kind: ViolationKind,
    pub message: String,
}

/// What a `ValidationError` holds, as mathematical values.
pub struct Violation {
    pub field: Field,
    pub kind: ViolationKind,
    pub message: Seq<char>,
}

impl View for ValidationError {
    type V = Violation;

    open spec fn view(&self) -> Violation {
        Violation { field: self.field, kind: self.kind, message: self.message@ }
    }
}

/// All the rules that one message breaks: tool name first, note second.
#[derive(Debug)]
pub struct ValidationErrors {
    pub errors: Vec<ValidationError>,
}

impl View for ValidationErrors {
    type V = Seq<Violation>;

    open spec fn view(&self) -> Seq<Violation> {
        Seq::new(self.errors@.len(), |i: int| self.errors@[i]@)
    }
}

/// The text shown for a violation of `kind` on `field`.
pub open spec fn message_text(field: Field, kind: ViolationKind) -> Seq<char> {
    match field {
        Field::Program => match kind {
            ViolationKind::TooShort => "Input needs to be at least one character long"@,
            ViolationKind::TooLong => "Tool name can't be longer than 50 characters, sorry!"@,
        },
        Field::Note => "Note too long! Please keep it under 2048 characters."@,
    }
}

/// The violation of `kind` on `field`, with its text.
pub open spec fn violation(field: Field, kind: ViolationKind) -> Violation {
    Violation { field, kind, message: message_text(field, kind) }
}

/// The rule that a tool name of these characters breaks, if any.
pub open spec fn program_violation(program: Seq<char>) -> Option<ViolationKind> {
    if program.len() < PROGRAM_MIN_CHARS {
        Some(ViolationKind::TooShort)
    } else if program.len() > PROGRAM_MAX_CHARS {
        Some(ViolationKind::TooLong)
    } else {
        None
    }
}

/// The rule that a note breaks, if any. A message without a note breaks none.
pub open spec fn note_violation(note: Option<Seq<char>>) -> Option<ViolationKind> {
    match note {
        Some(text) => if text.len() > NOTE_MAX_CHARS {
            Some(ViolationKind::TooLong)
        } else {
            None
        },
        None => None,
    }
}

/// The violations of one field as a list of at most one entry.
pub open spec fn listed(field: Field, kind: Option<ViolationKind>) -> Seq<Violation> {
    match kind {
        Some(k) => seq![violation(field, k)],
        None => Seq::empty(),
    }
}

/// Every rule that `message` breaks, in reporting order.
pub open spec fn violations(message: MessageView) -> Seq<Violation> {
    listed(Field::Program, program_violation(message.program)) + listed(
        Field::Note,
        note_violation(message.note),
    )
}

/// A message is acceptable when it breaks no rule.
pub open spec fn acceptable(message: MessageView) -> bool {
    violations(message).len() == 0
}

/// With a note that is in order, a message is acceptable exactly when its
/// tool name has between 1 and 50 characters.
pub proof fn law_program_length(message: MessageView)
    requires
        note_violation(message.note) is None,
    ensures
        acceptable(message) <==> 1 <= message.program.len() <= 50,
{
}

/// With a tool name that is in order, a message is acceptable exactly when
/// it has no note or one of at most 2048 characters.
pub proof fn law_note_length(message: MessageView)
    requires
        program_violation(message.program) is None,
    ensures
        acceptable(message) <==> (message.note matches Some(text) ==> text.len() <= 2048),
{
}

/// A message breaks at most one rule for each field, and what is reported
/// for a field is the rule that the field breaks.
pub proof fn law_violations_by_field(message: MessageView)
    ensures
        violations(message).len() <= 2,
        forall|i: int|
            0 <= i < violations(message).len() ==> {
                let found = #[trigger] violations(message)[i];
                &&& found.message == message_text(found.field, found.kind)
                &&& found.field == Field::Program ==> program_violation(message.program) == Some(
                    found.kind,
                )
                &&& found.field == Field::Note ==> note_violation(message.note) == Some(found.kind)
            },
{
}

/// Whether a length lies within the bounds that are given.
pub open spec fn within(len: nat, min: Option<u64>, max: Option<u64>) -> bool {
    &&& min matches Some(least) ==> least <= len
    &&& max matches Some(most) ==> len <= most
}

/// Calls `validator::ValidateLength::validate_length` on a string slice, with
/// no exact length asked for. The crate measures a string by the number of
/// its characters and accepts it when that number is neither below `min` nor
/// above `max`; a bound that is absent is not checked. This contract is
/// trusted, not proved.
#[verifier::external_body]
fn length_within(value: &str, min: Option<u64>, max: Option<u64>) -> (ok: bool)
    ensures
        ok == within(value@.len(), min, max),
{
    value.validate_length(min, max, None)
}

impl Field {
    /// The name under which the field travels in a message.
    pub fn name(&self) -> (name: &'static str)
        ensures
            name@ == match *self {
                Field::Program => "program"@,
                Field::Note => "note"@,
            },
    {
        match self {
            Field::Program => "program",
            Field::Note => "note",
        }
    }
}

impl ValidationError {
    /// The violation of `kind` on `field`, with the text that belongs to it.
    pub fn new(field: Field, kind: ViolationKind) -> (error: ValidationError)
        ensures
            error@ == violation(field, kind),
    {
        let text: &str = match field {
            Field::Program => match kind {
                ViolationKind::TooShort => "Input needs to be at least one character long",
                ViolationKind::TooLong => "Tool name can't be longer than 50 characters, sorry!",
            },
            Field::Note => "Note too long! Please keep it under 2048 characters.",
        };
        ValidationError { field, kind, message: text.to_owned() }
    }
}

/// The texts of `list`, in order.
pub open spec fn message_texts(list: Seq<Violation>) -> Seq<Seq<char>> {
    Seq::new(list.len(), |i: int| list[i].message)
}

/// The texts of the violations of `list` that are about `field`, in order.
pub open spec fn texts_for(list: Seq<Violation>, field: Field) -> Seq<Seq<char>>
    decreases list.len(),
{
    if list.len() == 0 {
        Seq::empty()
    } else if list.last().field == field {
        texts_for(list.drop_last(), field).push(list.last().message)
    } else {
        texts_for(list.drop_last(), field)
    }
}

impl ValidationErrors {
    /// The text of every broken rule, in reporting order.
    pub fn messages(&self) -> (lines: Vec<String>)
        ensures
            texts(lines@) == message_texts(self@),
    {
        let mut lines: Vec<String> = Vec::new();
        let mut i: usize = 0;
        while i < self.errors.len()
            invariant
                i <= self.errors.len(),
                lines.len() == i,
                forall|j: int| 0 <= j < i ==> (#[trigger] lines@[j])@ == self.errors@[j].message@,
            decreases self.errors.len() - i,
        {
            lines.push(self.errors[i].message.clone());
            i = i + 1;
        }
        assert(texts(lines@) =~= message_texts(self@));
        lines
    }

    /// The texts of the broken rules that are about `field`.
    pub fn messages_for(&self, field: Field) -> (lines: Vec<String>)
        ensures
            texts(lines@) == texts_for(self@, field),
    {
        let mut lines: Vec<String> = Vec::new();
        let mut i: usize = 0;
        while i < self.errors.len()
            invariant
                i <= self.errors.len(),
                texts(lines@) == texts_for(self@.take(i as int), field),
            decreases self.errors.len() - i,
        {
            assert(self@.take(i + 1).drop_last() =~= self@.take(i as int));
            if self.errors[i].field == field {
                let ghost earlier = texts(lines@);
                lines.push(self.errors[i].message.clone());
                assert(texts(lines@) =~= earlier.push(self.errors@[i as int].message@));
            }
            i = i + 1;
        }
        assert(self@.take(i as int) =~= self@);
        lines
    }
}

impl ThankYouMessage {
    /// Checks the message against every rule and reports all that it breaks.
    pub fn validate(&self) -> (outcome: Result<(), ValidationErrors>)
        ensures
            outcome is Ok <==> acceptable(self@),
            outcome matches Err(errors) ==> errors@ == violations(self@),
    {
        let mut errors: Vec<ValidationError> = Vec::new();
        if !length_within(self.program.as_str(), Some(PROGRAM_MIN_CHARS), None) {
            errors.push(ValidationError::new(Field::Program, ViolationKind::TooShort));
        }
        if !length_within(self.program.as_str(), None, Some(PROGRAM_MAX_CHARS)) {
            errors.push(ValidationError::new(Field::Program, ViolationKind::TooLong));
        }
        match &self.note {
            Some(text) => {
                if !length_within(text.as_str(), None, Some(NOTE_MAX_CHARS)) {
                    errors.push(ValidationError::new(Field::Note, ViolationKind::TooLong));
                }
            },
            None => {},
        }
        let found = ValidationErrors { errors };
        assert(found@ =~= violations(self@));
        if found.errors.len() == 0 {
            Ok(())
        } else {
            Err(found)
        }
    }
}

} // verus!
