//! Which request goes where.

use vstd::prelude::*;
use crate::message::texts;
use crate::reply::{LENGTH_REQUIRED, METHOD_NOT_ALLOWED, NOT_FOUND, PAYLOAD_TOO_LARGE};

verus! {

/// Largest body, in bytes, that a submission may announce.
pub const BODY_LIMIT: u64 = 4096;

/// The method of a request, as far as the routes tell methods apart.
#[derive(Debug, Clone, Copy, PartialEq, Eq, Structural)]
pub enum Method {
    Get,
    Post,
    Other,
}

/// Where a request goes.
#[derive(Debug)]
pub enum Route {
    /// The index page.
    Index,
    /// A note is submitted; its body is still to be read.
    Note,
    /// The leaderboard.
    Stats,
    /// The count of the tool that the segment names, still percent-encoded.
    Count(String),
    /// The notes of the tool that the segment names, still percent-encoded.
    Detail(String),
    /// Nowhere: the request is answered with this status.
    Refused(u16),
}

/// What a `Route` holds, as mathematical values.
pub enum RouteView {
    Index,
    Note,
    Stats,
    Count(Seq<char>),
    Detail(Seq<char>),
    Refused(int),
}

impl View for Route {
    type V = RouteView;

    open spec fn view(&self) -> RouteView {
        match *self {
            Route::Index => RouteView::Index,
            Route::Note => RouteView::Note,
            Route::Stats => RouteView::Stats,
            Route::Count(segment) => RouteView::Count(segment@),
            Route::Detail(segment) => RouteView::Detail(segment@),
            Route::Refused(status) => RouteView::Refused(status as int),
        }
    }
}

/// Whether a submission that announces `content_length` bytes is read, and
/// with which status it is turned away if not.
pub open spec fn admitted(content_length: Option<u64>) -> RouteView {
    match content_length {
        None => RouteView::Refused(LENGTH_REQUIRED as int),
        Some(length) => if length > BODY_LIMIT {
            RouteView::Refused(PAYLOAD_TOO_LARGE as int)
        } else {
            RouteView::Note
        },
    }
}

/// Where a request with this method, path and announced length goes.
///
/// Notes are submitted with POST under `/v0/note`. The leaderboard is read
/// with GET at `/v0`. The count and the notes of a tool are at
/// `/v0/tool/{program}` and `/v0/tool/{program}/detail`, and the index page
/// at `/`, whatever the method. Below `/v0` a request that found no route is
/// turned away with 405 if another method could have found one, else with 404.
pub open spec fn route_of(
    method: Method,
    path: Seq<Seq<char>>,
    content_length: Option<u64>,
) -> RouteView {
    if path.len() == 0 {
        RouteView::Index
    } else if path[0] != "v0"@ {
        RouteView::Refused(NOT_FOUND as int)
    } else if method == Method::Post && path.len() >= 2 && path[1] == "note"@ {
        admitted(content_length)
    } else if method == Method::Get && path.len() == 1 {
        RouteView::Stats
    } else if path.len() == 3 && path[1] == "tool"@ {
        RouteView::Count(path[2])
    } else if path.len() == 4 && path[1] == "tool"@ && path[3] == "detail"@ {
        RouteView::Detail(path[2])
    } else if method != Method::Get || (path.len() >= 2 && path[1] == "note"@) {
        RouteView::Refused(METHOD_NOT_ALLOWED as int)
    } else {
        RouteView::Refused(NOT_FOUND as int)
    }
}

/// Decides where a request goes.
pub fn route(method: Method, path: &Vec<String>, content_length: Option<u64>) -> (found: Route)
    ensures
        found@ == route_of(method, texts(path@), content_length),
{
    let ghost segments = texts(path@);
    assert(forall|i: int| 0 <= i < path.len() ==> segments[i] == (#[trigger] path@[i])@);
    if path.len() == 0 {
        return Route::Index;
    }
    if path[0] != "v0".to_owned() {
        return Route::Refused(NOT_FOUND);
    }
    let under_note = path.len() >= 2 && path[1] == "note".to_owned();
    let under_tool = path.len() >= 2 && path[1] == "tool".to_owned();
    if method == Method::Post && under_note {
        match content_length {
            None => Route::Refused(LENGTH_REQUIRED),
            Some(length) => if length > BODY_LIMIT {
                Route::Refused(PAYLOAD_TOO_LARGE)
            } else {
                Route::Note
            },
        }
    } else if method == Method::Get && path.len() == 1 {
        Route::Stats
    } else if under_tool && path.len() == 3 {
        Route::Count(path[2].clone())
    } else if under_tool && path.len() == 4 && path[3] == "detail".to_owned() {
        Route::Detail(path[2].clone())
    } else if method != Method::Get || under_note {
        Route::Refused(METHOD_NOT_ALLOWED)
    } else {
        Route::Refused(NOT_FOUND)
    }
}

} // verus!
