//! The values that travel between the clients and the service.

use vstd::prelude::*;

verus! {

/// A thank-you note as a client submits it.
#[derive(Debug)]
pub struct ThankYouMessage {
    /// Name of the tool that is thanked.
    pub program: String,
    /// Free text that goes with the thanks, if any.
    pub note: Option<String>,
}

/// What a `ThankYouMessage` holds, as mathematical values.
pub struct MessageView {
    pub program: Seq<char>,
    pub note: Option<Seq<char>>,
}

/// The characters of an optional string.
pub open spec fn opt_chars(text: Option<String>) -> Option<Seq<char>> {
    match text {
        Some(s) => Some(s@),
        None => None,
    }
}

impl View for ThankYouMessage {
    type V = MessageView;

    open spec fn view(&self) -> MessageView {
        MessageView { program: self.program@, note: opt_chars(self.note) }
    }
}

/// How often one tool was thanked, and how many of those thanks carry a note.
#[derive(Debug)]
pub struct ThankYouStats {
    pub program: String,
    pub count: i64,
    pub note_count: i64,
}

/// What a `ThankYouStats` holds, as mathematical values.
pub struct StatsView {
    pub program: Seq<char>,
    pub count: int,
    pub note_count: int,
}

impl View for ThankYouStats {
    type V = StatsView;

    open spec fn view(&self) -> StatsView {
        StatsView {
            program: self.program@,
            count: self.count as int,
            note_count: self.note_count as int,
        }
    }
}

/// The mathematical values of each entry of a list, in order.
pub open spec fn stats_views(list: Seq<ThankYouStats>) -> Seq<StatsView> {
    Seq::new(list.len(), |i: int| list[i]@)
}

/// The notes that were left for one tool.
#[derive(Debug)]
pub struct ThankYouDetail {
    pub program: String,
    pub notes: Vec<String>,
}

/// What a `ThankYouDetail` holds, as mathematical values.
pub struct DetailView {
    pub program: Seq<char>,
    pub notes: Seq<Seq<char>>,
}

/// The characters of each string of a list, in order.
pub open spec fn texts(list: Seq<String>) -> Seq<Seq<char>> {
    Seq::new(list.len(), |i: int| list[i]@)
}

impl View for ThankYouDetail {
    type V = DetailView;

    open spec fn view(&self) -> DetailView {
        DetailView { program: self.program@, notes: texts(self.notes@) }
    }
}

} // verus!
