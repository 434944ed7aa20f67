//! The part of the page that asks for the notes of one tool.

use vstd::prelude::*;
use vstd::string::StringExecFns;
use crate::message::{opt_chars, DetailView, ThankYouDetail};

verus! {

/// What can happen to this part of the page.
#[derive(Debug)]
pub enum Msg {
    /// The notes of the tool in the input field are asked for.
    GetDetails,
    /// The input field holds a new text.
    UpdateQuery(String),
    /// A fetch has ended, with the notes or with the text of its failure.
    ReceiveResponse(Result<ThankYouDetail, String>),
}

/// What a `Msg` holds, as mathematical values.
pub enum MsgView {
    GetDetails,
    UpdateQuery(Seq<char>),
    ReceiveResponse(Result<DetailView, Seq<char>>),
}

impl View for Msg {
    type V = MsgView;

    open spec fn view(&self) -> MsgView {
        match *self {
            Msg::GetDetails => MsgView::GetDetails,
            Msg::UpdateQuery(query) => MsgView::UpdateQuery(query@),
            Msg::ReceiveResponse(outcome) => MsgView::ReceiveResponse(
                match outcome {
                    Ok(detail) => Ok(detail@),
                    Err(text) => Err(text@),
                },
            ),
        }
    }
}

/// The state of this part of the page.
#[derive(Debug)]
pub struct Detail {
    /// Whether a fetch is under way.
    pub fetching: bool,
    /// The text of the input field.
    pub query: String,
    /// The notes that were fetched last.
    pub detail: Option<ThankYouDetail>,
    /// The text of a failure that is to be shown.
    pub error: Option<String>,
}

/// What a `Detail` holds, as mathematical values.
pub struct DetailState {
    pub fetching: bool,
    pub query: Seq<char>,
    pub detail: Option<DetailView>,
    pub error: Option<Seq<char>>,
}

impl View for Detail {
    type V = DetailState;

    open spec fn view(&self) -> DetailState {
        DetailState {
            fetching: self.fetching,
            query: self.query@,
            detail: match self.detail {
                Some(detail) => Some(detail@),
                None => None,
            },
            error: opt_chars(self.error),
        }
    }
}

/// The address at which the notes of the tool `query` are fetched. The text
/// goes into the address as it was typed.
pub open spec fn detail_url(query: Seq<char>) -> Seq<char> {
    "http://localhost:8901/v0/tool/"@ + query + "/detail"@
}

/// The state after `msg`. Typing replaces the text. Asking starts a fetch
/// and clears the failure. The end of a fetch keeps the notes it brought,
/// and leaves no fetch under way and no failure to show.
pub open spec fn next_state(state: DetailState, msg: MsgView) -> DetailState {
    match msg {
        MsgView::UpdateQuery(query) => DetailState { query, ..state },
        MsgView::GetDetails => DetailState { fetching: true, error: None, ..state },
        MsgView::ReceiveResponse(outcome) => DetailState {
            fetching: false,
            error: None,
            detail: match outcome {
                Ok(detail) => Some(detail),
                Err(_) => state.detail,
            },
            ..state
        },
    }
}

/// The address to fetch from after `msg`, if a fetch is to be started.
pub open spec fn fetch_for(state: DetailState, msg: MsgView) -> Option<Seq<char>> {
    match msg {
        MsgView::GetDetails => Some(detail_url(state.query)),
        _ => None,
    }
}

impl Detail {
    /// The state in which the page starts: nothing typed, nothing fetched.
    pub fn create() -> (state: Detail)
        ensures
            state@ == (DetailState {
                fetching: false,
                query: Seq::empty(),
                detail: None,
                error: None,
            }),
    {
        Detail { fetching: false, query: String::new(), detail: None, error: None }
    }

    /// New properties never call for drawing again.
    pub fn change(&mut self) -> (redraw: bool)
        ensures
            !redraw,
            *final(self) == *old(self),
    {
        false
    }

    /// Takes `msg` into the state. Answers whether the page is to be drawn
    /// again, which is always, and the address to fetch from where a fetch
    /// is to be started.
    pub fn update(&mut self, msg: Msg) -> (effect: (bool, Option<String>))
        ensures
            final(self)@ == next_state(old(self)@, msg@),
            effect.0,
            opt_chars(effect.1) == fetch_for(old(self)@, msg@),
    {
        match msg {
            Msg::UpdateQuery(query) => {
                self.query = query;
                (true, None)
            },
            Msg::GetDetails => {
                let url = String::from_str("http://localhost:8901/v0/tool/").concat(
                    self.query.as_str(),
                ).concat("/detail");
                self.fetching = true;
                self.error = None;
                (true, Some(url))
            },
            Msg::ReceiveResponse(outcome) => {
                match outcome {
                    Ok(detail) => {
                        self.detail = Some(detail);
                    },
                    Err(_) => {},
                }
                self.fetching = false;
                self.error = None;
                (true, None)
            },
        }
    }
}

} // verus!
