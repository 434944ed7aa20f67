//! The part of the page that shows the most thanked tools.

use vstd::prelude::*;
use crate::message::{opt_chars, stats_views, StatsView, ThankYouStats};

verus! {

/// What can happen to this part of the page.
#[derive(Debug)]
pub enum Msg {
    /// The fetch has ended, with the leaderboard or with the text of its failure.
    ReceiveResponse(Result<Vec<ThankYouStats>, String>),
}

/// What a `Msg` holds, as mathematical values.
pub enum MsgView {
    ReceiveResponse(Result<Seq<StatsView>, Seq<char>>),
}

impl View for Msg {
    type V = MsgView;

    open spec fn view(&self) -> MsgView {
        match *self {
            Msg::ReceiveResponse(outcome) => MsgView::ReceiveResponse(
                match outcome {
                    Ok(list) => Ok(stats_views(list@)),
                    Err(text) => Err(text@),
                },
            ),
        }
    }
}

/// The state of this part of the page.
#[derive(Debug)]
pub struct FetchServiceExample {
    /// Whether the fetch is under way.
    pub fetching: bool,
    /// The leaderboard, once it has been fetched.
    pub list: Option<Vec<ThankYouStats>>,
    /// The text of a failure that is to be shown.
    pub error: Option<String>,
}

/// What a `FetchServiceExample` holds, as mathematical values.
pub struct ListState {
    pub fetching: bool,
    pub list: Option<Seq<StatsView>>,
    pub error: Option<Seq<char>>,
}

impl View for FetchServiceExample {
    type V = ListState;

    open spec fn view(&self) -> ListState {
        ListState {
            fetching: self.fetching,
            list: match self.list {
                Some(list) => Some(stats_views(list@)),
                None => None,
            },
            error: opt_chars(self.error),
        }
    }
}

/// The state after `msg`: the fetch is over, and what it brought is kept,
/// the leaderboard or the text of the failure.
pub open spec fn next_state(state: ListState, msg: MsgView) -> ListState {
    match msg {
        MsgView::ReceiveResponse(outcome) => match outcome {
            Ok(list) => ListState { fetching: false, list: Some(list), error: state.error },
            Err(text) => ListState { fetching: false, list: state.list, error: Some(text) },
        },
    }
}

impl FetchServiceExample {
    /// The state in which the page starts, with the fetch of the
    /// leaderboard under way, and the address to fetch it from.
    pub fn create() -> (start: (FetchServiceExample, String))
        ensures
            start.0@ == (ListState { fetching: true, list: None, error: None }),
            start.1@ == "http://localhost:8901/v0"@,
    {
        (
            FetchServiceExample { fetching: true, list: None, error: None },
            "http://localhost:8901/v0".to_owned(),
        )
    }

    /// New properties never call for drawing again.
    pub fn change(&mut self) -> (redraw: bool)
        ensures
            !redraw,
            *final(self) == *old(self),
    {
        false
    }

    /// Takes `msg` into the state. Answers whether the page is to be drawn
    /// again, which is always.
    pub fn update(&mut self, msg: Msg) -> (redraw: bool)
        ensures
            redraw,
            final(self)@ == next_state(old(self)@, msg@),
    {
        match msg {
            Msg::ReceiveResponse(outcome) => {
                match outcome {
                    Ok(list) => {
                        self.list = Some(list);
                    },
                    Err(text) => {
                        self.error = Some(text);
                    },
                }
                self.fetching = false;
                true
            },
        }
    }
}

} // verus!
